//! The biomes that are looked for. Each is known by its rank, its choice.

use crate::pattern::{
    found, is_cut, matches_at, matches_word, some_of, spells, word_grammars, Class, Piece,
};
use crate::text::{ascii_lowered, holds_text, lowered, stands_at, to_lowercase};
use vstd::prelude::*;
use vstd::utf8::is_ascii_chars;

verus! {

/// The names of the biomes.
pub open spec fn words() -> Seq<Seq<char>> {
    seq!["Corruption"@, "Jester"@, "Rin"@, "Glitched"@, "Dreamspace"@, "Cyberspace"@]
}

/// The names of the biomes in lower case.
pub open spec fn target_words() -> Seq<Seq<char>> {
    seq!["corruption"@, "jester"@, "rin"@, "glitched"@, "dreamspace"@, "cyberspace"@]
}

/// The channels in which the biomes are announced.
pub open spec fn channels() -> Seq<u64> {
    seq![
        1282542323590496277,
        1282543762425516083,
        1282543762425516083,
        1282542323590496277,
        1282542323590496277,
        1282542323590496277,
    ]
}

/// The colors in which the biomes are reported.
pub open spec fn colors() -> Seq<u32> {
    seq![11141375, 11141375, 16749056, 11206400, 16744703, 3093247]
}

/// Whether a message is about a biome.
pub open spec fn is_about(message: Seq<char>, choice_id: int) -> bool {
    found(word_grammars()[choice_id], lowered(message))
}

/// The name of a biome.
pub fn word(choice_id: usize) -> (res: &'static str)
    requires
        choice_id < 6,
    ensures
        res@ == words()[choice_id as int],
{
    match choice_id {
        0 => "Corruption",
        1 => "Jester",
        2 => "Rin",
        3 => "Glitched",
        4 => "Dreamspace",
        _ => "Cyberspace",
    }
}

/// The name of a biome in lower case.
pub fn target_word(choice_id: usize) -> (res: String)
    requires
        choice_id < 6,
    ensures
        res@ == target_words()[choice_id as int],
{
    proof {
        lemma_target_words(choice_id as int);
    }
    to_lowercase(word(choice_id))
}

/// The channel in which a biome is announced.
pub fn channel(choice_id: usize) -> (res: u64)
    requires
        choice_id < 6,
    ensures
        res == channels()[choice_id as int],
{
    match choice_id {
        0 => 1282542323590496277,
        1 => 1282543762425516083,
        2 => 1282543762425516083,
        3 => 1282542323590496277,
        4 => 1282542323590496277,
        _ => 1282542323590496277,
    }
}

/// The color in which a biome is reported.
pub fn color(choice_id: usize) -> (res: u32)
    requires
        choice_id < 6,
    ensures
        res == colors()[choice_id as int],
{
    match choice_id {
        0 => 11141375,
        1 => 11141375,
        2 => 16749056,
        3 => 11206400,
        4 => 16744703,
        _ => 3093247,
    }
}

/// Whether a message is about a biome.
pub fn should_process_message(message: &str, choice_id: usize) -> (res: bool)
    requires
        choice_id < 6,
    ensures
        res == is_about(message@, choice_id as int),
{
    matches_word(choice_id, to_lowercase(message).as_str())
}

/// The names in lower case are the names in lower case.
proof fn lemma_target_words(choice_id: int)
    requires
        0 <= choice_id < 6,
    ensures
        lowered(words()[choice_id]) == target_words()[choice_id],
{
    reveal_strlit("Corruption");
    reveal_strlit("Jester");
    reveal_strlit("Rin");
    reveal_strlit("Glitched");
    reveal_strlit("Dreamspace");
    reveal_strlit("Cyberspace");
    reveal_strlit("corruption");
    reveal_strlit("jester");
    reveal_strlit("rin");
    reveal_strlit("glitched");
    reveal_strlit("dreamspace");
    reveal_strlit("cyberspace");
    assert(is_ascii_chars(words()[choice_id]));
    assert(ascii_lowered(words()[choice_id]) =~= target_words()[choice_id]);
}

/// Each name in lower case matches the pattern of its biome.
proof fn lemma_word_matches(choice_id: int)
    requires
        0 <= choice_id < 6,
    ensures
        spells(word_grammars()[choice_id], prefix_of_word(choice_id)),
{
    let grammar = word_grammars()[choice_id];
    let s = prefix_of_word(choice_id);
    reveal_strlit("corruption");
    reveal_strlit("jester");
    reveal_strlit("rin");
    reveal_strlit("glitched");
    reveal_strlit("dreamspace");
    reveal_strlit("cyberspace");
    reveal_strlit("c");
    reveal_strlit("or");
    reveal_strlit("up");
    reveal_strlit("jes");
    reveal_strlit("ter");
    reveal_strlit("g");
    reveal_strlit("lit");
    reveal_strlit("ch");
    reveal_strlit("dr");
    reveal_strlit("ea");
    reveal_strlit("ms");
    reveal_strlit("cy");
    reveal_strlit("b");
    reveal_strlit("er");
    reveal_strlit("s");
    if choice_id == 0 {
        let cuts = seq![0int, 1, 3, 4, 6];
        assert(s.subrange(0, 1) =~= "c"@);
        assert("or"@[0] == 'o' && "or"@[1] == 'r');
        assert(s.subrange(4, 6) =~= "up"@);
        assert(is_cut(grammar[0], s, cuts));
    } else if choice_id == 1 {
        let cuts = seq![0int, 3, 4, 6];
        assert(s.subrange(0, 3) =~= "jes"@);
        assert("ter"@[1] == 'e' && "ter"@[2] == 'r');
        assert(is_cut(grammar[0], s, cuts));
    } else if choice_id == 2 {
        let cuts = seq![0int, 3];
        assert(s.subrange(0, 3) =~= "rin"@);
        assert(is_cut(grammar[0], s, cuts));
    } else if choice_id == 3 {
        let cuts = seq![0int, 1, 3, 4, 6];
        assert(s.subrange(0, 1) =~= "g"@);
        assert("lit"@[0] == 'l' && "lit"@[1] == 'i');
        assert(s.subrange(4, 6) =~= "ch"@);
        assert(is_cut(grammar[0], s, cuts));
    } else if choice_id == 4 {
        let cuts = seq![0int, 2, 3, 4, 6];
        assert(s.subrange(0, 2) =~= "dr"@);
        assert("ea"@[0] == 'e');
        assert(s.subrange(4, 6) =~= "ms"@);
        assert(is_cut(grammar[1], s, cuts));
    } else {
        let cuts = seq![0int, 2, 3, 4, 5, 6];
        assert(s.subrange(0, 2) =~= "cy"@);
        assert("b"@[0] == 'b');
        assert("er"@[1] == 'r');
        assert(s.subrange(5, 6) =~= "s"@);
        assert(is_cut(grammar[0], s, cuts));
    }
}

/// The part of a name that its pattern matches.
spec fn prefix_of_word(choice_id: int) -> Seq<char> {
    let word = target_words()[choice_id];
    if word.len() < 6 {
        word
    } else {
        word.subrange(0, 6)
    }
}

/// A message with the name of a biome in it, in whatever case, is about that biome.
pub proof fn law_named_biome_is_noticed(message: Seq<char>, choice_id: int)
    requires
        0 <= choice_id < 6,
        holds_text(lowered(message), target_words()[choice_id]),
    ensures
        is_about(message, choice_id),
{
    let grammar = word_grammars()[choice_id];
    let word = target_words()[choice_id];
    let part = prefix_of_word(choice_id);
    let s = lowered(message);
    let at = choose|at: int| stands_at(s, word, at);
    lemma_word_matches(choice_id);
    assert(s.subrange(at, at + part.len()) =~= part) by {
        assert(s.subrange(at, at + word.len()) == word);
        assert(s.subrange(at, at + word.len()).subrange(0, part.len() as int) =~= s.subrange(
            at,
            at + part.len(),
        ));
        assert(word.subrange(0, part.len() as int) =~= part);
    }
    assert(matches_at(grammar, s, at, at + part.len()));
}

/// A message is about every biome that a part of it is about, where the part in lower case stands
/// in the message in lower case.
pub proof fn law_part_of_a_message_counts(message: Seq<char>, part: Seq<char>, choice_id: int)
    requires
        0 <= choice_id < 6,
        holds_text(lowered(message), lowered(part)),
        is_about(part, choice_id),
    ensures
        is_about(message, choice_id),
{
    let grammar = word_grammars()[choice_id];
    let s = lowered(message);
    let inner = lowered(part);
    let at = choose|at: int| stands_at(s, inner, at);
    let (from, to) = choose|from: int, to: int| matches_at(grammar, inner, from, to);
    assert(s.subrange(at + from, at + to) =~= s.subrange(at, at + inner.len()).subrange(from, to));
    assert(matches_at(grammar, s, at + from, at + to));
}

/// Text before and after a message that is about a biome does not change that, all of it in ASCII.
pub proof fn law_text_around_makes_no_difference(
    before: Seq<char>,
    message: Seq<char>,
    after: Seq<char>,
    choice_id: int,
)
    requires
        0 <= choice_id < 6,
        is_ascii_chars(before),
        is_ascii_chars(message),
        is_ascii_chars(after),
        is_about(message, choice_id),
    ensures
        is_about(before + message + after, choice_id),
{
    let whole = before + message + after;
    let at = before.len() as int;
    assert(is_ascii_chars(whole)) by {
        assert forall|i: int| 0 <= i < whole.len() implies '\0' <= #[trigger] whole[i] <= '\u{7f}' by {
            if i < at {
                assert(whole[i] == before[i]);
            } else if i < at + message.len() {
                assert(whole[i] == message[i - at]);
            } else {
                assert(whole[i] == after[i - at - message.len()]);
            }
        }
    }
    assert(lowered(whole).subrange(at, at + message.len()) =~= lowered(message));
    assert(stands_at(lowered(whole), lowered(message), at));
    law_part_of_a_message_counts(whole, message, choice_id);
}

/// A text that stands in every match of a pattern, for each biome.
spec fn mark(choice_id: int, alternative: int) -> Seq<char> {
    if choice_id == 0 {
        "up"@
    } else if choice_id == 1 {
        "jes"@
    } else if choice_id == 2 {
        "rin"@
    } else if choice_id == 3 {
        "g"@
    } else if choice_id == 4 {
        if alternative == 0 {
            "ds"@
        } else {
            "dr"@
        }
    } else {
        "cy"@
    }
}

/// Where the pattern of a biome matches, one of its marks stands.
proof fn lemma_match_holds_a_mark(s: Seq<char>, choice_id: int)
    requires
        0 <= choice_id < 6,
        found(word_grammars()[choice_id], s),
    ensures
        holds_text(s, mark(choice_id, 0)) || holds_text(s, mark(choice_id, 1)),
{
    let grammar = word_grammars()[choice_id];
    let (from, to) = choose|from: int, to: int| matches_at(grammar, s, from, to);
    let part = s.subrange(from, to);
    let (alternative, cuts) = choose|alternative: int, cuts: Seq<int>|
        0 <= alternative < grammar.len() && #[trigger] is_cut(grammar[alternative], part, cuts);
    let pieces = grammar[alternative];
    let rank: int = if choice_id == 0 { 3 } else { 0 };
    assert(0 <= cuts[rank] <= cuts[rank + 1] <= part.len());
    let text = part.subrange(cuts[rank], cuts[rank + 1]);
    assert(pieces[rank].fits(text));
    assert(pieces[rank] == Piece::Text(mark(choice_id, alternative)));
    assert(s.subrange(from + cuts[rank], from + cuts[rank + 1]) =~= text);
    assert(stands_at(s, mark(choice_id, alternative), from + cuts[rank]));
}

/// No mark of a biome stands in the name of another.
proof fn lemma_marks_are_apart(name: int, choice_id: int, alternative: int)
    requires
        0 <= name < 6,
        0 <= choice_id < 6,
        0 <= alternative < 2,
        name != choice_id,
    ensures
        !holds_text(target_words()[name], mark(choice_id, alternative)),
{
    reveal_strlit("corruption");
    reveal_strlit("jester");
    reveal_strlit("rin");
    reveal_strlit("glitched");
    reveal_strlit("dreamspace");
    reveal_strlit("cyberspace");
    reveal_strlit("up");
    reveal_strlit("jes");
    reveal_strlit("g");
    reveal_strlit("ds");
    reveal_strlit("dr");
    reveal_strlit("cy");
    let s = target_words()[name];
    let t = mark(choice_id, alternative);
    if holds_text(s, t) {
        let at = choose|at: int| stands_at(s, t, at);
        let part = s.subrange(at, at + t.len());
        assert(part[0] == s[at] && part[0] == t[0]);
        if t.len() > 1 {
            assert(part[1] == s[at + 1] && part[1] == t[1]);
        }
    }
}

/// The name of a biome is about that biome and about no other.
pub proof fn law_name_is_about_its_own_biome(name: int, choice_id: int)
    requires
        0 <= name < 6,
        0 <= choice_id < 6,
    ensures
        is_about(words()[name], choice_id) == (name == choice_id),
{
    let word = target_words()[name];
    lemma_target_words(name);
    if name == choice_id {
        assert(word.subrange(0, word.len() as int) =~= word);
        assert(stands_at(word, word, 0));
        law_named_biome_is_noticed(words()[name], choice_id);
    } else if is_about(words()[name], choice_id) {
        lemma_match_holds_a_mark(word, choice_id);
        lemma_marks_are_apart(name, choice_id, 0);
        lemma_marks_are_apart(name, choice_id, 1);
    }
}

/// Of two messages in ASCII that differ in the case of letters only, both are about a biome or
/// neither is.
pub proof fn law_case_makes_no_difference(a: Seq<char>, b: Seq<char>, choice_id: int)
    requires
        is_ascii_chars(a),
        is_ascii_chars(b),
        ascii_lowered(a) == ascii_lowered(b),
        0 <= choice_id < 6,
    ensures
        is_about(a, choice_id) == is_about(b, choice_id),
{
}

/// Whether `start` stands in `s` at `i`, right before one of `letters`, and `end` at `k` on the
/// same line, with something more between.
pub open spec fn spans(
    s: Seq<char>,
    start: Seq<char>,
    letters: Seq<char>,
    end: Seq<char>,
    i: int,
    k: int,
) -> bool {
    let next = i + start.len();
    &&& stands_at(s, start, i)
    &&& next + 1 < k
    &&& stands_at(s, end, k)
    &&& letters.contains(s[next])
    &&& forall|x: int| next < x < k ==> #[trigger] s[x] != '\n'
}

/// Whether `start` stands in `s` at `i`, and behind it on the same line, with something between,
/// one of `letters` at `k`, right before `end`.
pub open spec fn runs_to(
    s: Seq<char>,
    start: Seq<char>,
    letters: Seq<char>,
    end: Seq<char>,
    i: int,
    k: int,
) -> bool {
    let next = i + start.len();
    &&& stands_at(s, start, i)
    &&& next < k < s.len()
    &&& letters.contains(s[k])
    &&& stands_at(s, end, k + 1)
    &&& forall|x: int| next <= x < k ==> #[trigger] s[x] != '\n'
}

/// The row of pieces of a start, letters, anything and an end.
spec fn spanning(start: Seq<char>, letters: Seq<char>, end: Seq<char>) -> Seq<Piece> {
    seq![
        Piece::Text(start),
        some_of(Class::Of(letters)),
        some_of(Class::InLine),
        Piece::Text(end),
    ]
}

/// Where such a row matches, its start and its end span a part of a line.
proof fn lemma_match_spans(
    s: Seq<char>,
    from: int,
    to: int,
    cuts: Seq<int>,
    start: Seq<char>,
    letters: Seq<char>,
    end: Seq<char>,
)
    requires
        0 <= from <= to <= s.len(),
        is_cut(spanning(start, letters, end), s.subrange(from, to), cuts),
        !letters.contains('\n'),
    ensures
        spans(s, start, letters, end, from, from + cuts[3]),
{
    let pieces = spanning(start, letters, end);
    let part = s.subrange(from, to);
    assert(0 <= cuts[0] <= cuts[1] && cuts[1] <= cuts[2] && cuts[2] <= cuts[3] && cuts[3] <= cuts[4] <= part.len());
    let first = part.subrange(cuts[0], cuts[1]);
    let second = part.subrange(cuts[1], cuts[2]);
    let third = part.subrange(cuts[2], cuts[3]);
    let fourth = part.subrange(cuts[3], cuts[4]);
    assert(pieces[0].fits(first) && pieces[1].fits(second) && pieces[2].fits(third) && pieces[3].fits(fourth));
    assert(s.subrange(from, from + start.len()) =~= first);
    assert(s.subrange(from + cuts[3], from + cuts[3] + end.len()) =~= fourth);
    assert(second[0] == s[from + start.len()]);
    let next = from + start.len();
    assert forall|x: int| next < x < from + cuts[3] implies #[trigger] s[x] != '\n' by {
        if x < from + cuts[2] {
            assert(second[x - from - cuts[1]] == s[x]);
        } else {
            assert(third[x - from - cuts[2]] == s[x]);
        }
    }
}

/// Where a start and an end span a part of a line, such a row matches.
proof fn lemma_spans_match(
    s: Seq<char>,
    i: int,
    k: int,
    start: Seq<char>,
    letters: Seq<char>,
    end: Seq<char>,
)
    requires
        spans(s, start, letters, end, i, k),
    ensures
        is_cut(
            spanning(start, letters, end),
            s.subrange(i, k + end.len()),
            seq![0, start.len() as int, start.len() as int + 1, k - i, k - i + end.len()],
        ),
{
    let pieces = spanning(start, letters, end);
    let part = s.subrange(i, k + end.len());
    let cuts = seq![0, start.len() as int, start.len() as int + 1, k - i, k - i + end.len()];
    assert(part.subrange(cuts[0], cuts[1]) =~= s.subrange(i, i + start.len()));
    assert(part.subrange(cuts[3], cuts[4]) =~= s.subrange(k, k + end.len()));
    assert(pieces[1].fits(part.subrange(cuts[1], cuts[2])));
    assert(pieces[2].fits(part.subrange(cuts[2], cuts[3])));
}

/// Which messages are about Corruption: with a `c` in lower case, right before an `o` or `r`, and
/// further on the line, past something more, an `up`.
pub proof fn law_messages_about_corruption(message: Seq<char>)
    ensures
        is_about(message, 0) <==> exists|i: int, k: int|
            #[trigger] spans(lowered(message), "c"@, "or"@, "up"@, i, k),
{
    let s = lowered(message);
    reveal_strlit("or");
    assert(word_grammars()[0] =~= seq![spanning("c"@, "or"@, "up"@)]);
    lemma_found_spans(word_grammars()[0], 0, s, "c"@, "or"@, "up"@);
}

/// Which messages are about Glitched: with a `g` in lower case, right before an `l`, `i` or `t`,
/// and further on the line, past something more, a `ch`.
pub proof fn law_messages_about_glitched(message: Seq<char>)
    ensures
        is_about(message, 3) <==> exists|i: int, k: int|
            #[trigger] spans(lowered(message), "g"@, "lit"@, "ch"@, i, k),
{
    let s = lowered(message);
    reveal_strlit("lit");
    assert(word_grammars()[3] =~= seq![spanning("g"@, "lit"@, "ch"@)]);
    lemma_found_spans(word_grammars()[3], 0, s, "g"@, "lit"@, "ch"@);
}

/// Which messages are about Dreamspace: with a `ds`, or with a `dr` right before an `e` or `a` and
/// further on the line, past something more, an `ms`, all in lower case.
pub proof fn law_messages_about_dreamspace(message: Seq<char>)
    ensures
        is_about(message, 4) <==> holds_text(lowered(message), "ds"@) || exists|i: int, k: int|
            #[trigger] spans(lowered(message), "dr"@, "ea"@, "ms"@, i, k),
{
    let s = lowered(message);
    let grammar = word_grammars()[4];
    reveal_strlit("ea");
    assert(grammar[0] =~= seq![Piece::Text("ds"@)]);
    assert(grammar[1] =~= spanning("dr"@, "ea"@, "ms"@));
    lemma_found_spans(grammar, 1, s, "dr"@, "ea"@, "ms"@);
    lemma_found_text(grammar, 0, s, "ds"@);
    if found(grammar, s) {
        let (from, to) = choose|from: int, to: int| matches_at(grammar, s, from, to);
        let (choice, cuts) = choose|choice: int, cuts: Seq<int>|
            0 <= choice < grammar.len() && #[trigger] is_cut(grammar[choice], s.subrange(from, to), cuts);
        assert(choice == 0 || choice == 1);
    }
}

/// Which messages are about Rin: with a `rin` in lower case.
pub proof fn law_messages_about_rin(message: Seq<char>)
    ensures
        is_about(message, 2) <==> holds_text(lowered(message), "rin"@),
{
    let grammar = word_grammars()[2];
    assert(grammar[0] =~= seq![Piece::Text("rin"@)]);
    lemma_found_text(grammar, 0, lowered(message), "rin"@);
    if found(grammar, lowered(message)) {
        let s = lowered(message);
        let (from, to) = choose|from: int, to: int| matches_at(grammar, s, from, to);
        let (choice, cuts) = choose|choice: int, cuts: Seq<int>|
            0 <= choice < grammar.len() && #[trigger] is_cut(grammar[choice], s.subrange(from, to), cuts);
        assert(choice == 0);
    }
}

/// Which messages are about Jester: with a `jes` in lower case and further on the line, past
/// something more, a `t`, `e` or `r`.
pub proof fn law_messages_about_jester(message: Seq<char>)
    ensures
        is_about(message, 1) <==> exists|i: int, k: int|
            #[trigger] runs_to(lowered(message), "jes"@, "ter"@, ""@, i, k),
{
    let s = lowered(message);
    let grammar = word_grammars()[1];
    let pieces = grammar[0];
    reveal_strlit("");
    reveal_strlit("ter");
    assert(pieces =~= seq![Piece::Text("jes"@), some_of(Class::InLine), some_of(Class::Of("ter"@))]);
    if found(grammar, s) {
        let (from, to) = choose|from: int, to: int| matches_at(grammar, s, from, to);
        let part = s.subrange(from, to);
        let (choice, cuts) = choose|choice: int, cuts: Seq<int>|
            0 <= choice < grammar.len() && #[trigger] is_cut(grammar[choice], part, cuts);
        assert(choice == 0);
        assert(0 <= cuts[0] <= cuts[1] && cuts[1] <= cuts[2] && cuts[2] <= cuts[3] <= part.len());
        let first = part.subrange(cuts[0], cuts[1]);
        let second = part.subrange(cuts[1], cuts[2]);
        let third = part.subrange(cuts[2], cuts[3]);
        assert(pieces[0].fits(first) && pieces[1].fits(second) && pieces[2].fits(third));
        assert(s.subrange(from, from + "jes"@.len()) =~= first);
        let k = from + cuts[2];
        assert(third[0] == s[k]);
        assert forall|x: int| from + "jes"@.len() <= x < k implies #[trigger] s[x] != '\n' by {
            assert(second[x - from - cuts[1]] == s[x]);
        }
        assert(s.subrange(k + 1, k + 1) =~= ""@);
        assert(runs_to(s, "jes"@, "ter"@, ""@, from, k));
    }
    if exists|i: int, k: int| #[trigger] runs_to(s, "jes"@, "ter"@, ""@, i, k) {
        let (i, k) = choose|i: int, k: int| #[trigger] runs_to(s, "jes"@, "ter"@, ""@, i, k);
        let part = s.subrange(i, k + 1);
        let cuts = seq![0, "jes"@.len() as int, k - i, k - i + 1];
        assert(part.subrange(cuts[0], cuts[1]) =~= s.subrange(i, i + "jes"@.len()));
        assert(pieces[1].fits(part.subrange(cuts[1], cuts[2])));
        assert(pieces[2].fits(part.subrange(cuts[2], cuts[3])));
        assert(is_cut(grammar[0], part, cuts));
        assert(matches_at(grammar, s, i, k + 1));
    }
}

/// Which messages are about Cyberspace: with a `cy` in lower case and further on the line, past
/// something more, an `es` or `rs`.
pub proof fn law_messages_about_cyberspace(message: Seq<char>)
    ensures
        is_about(message, 5) <==> exists|i: int, k: int|
            #[trigger] runs_to(lowered(message), "cy"@, "er"@, "s"@, i, k),
{
    let s = lowered(message);
    let grammar = word_grammars()[5];
    let pieces = grammar[0];
    reveal_strlit("s");
    reveal_strlit("b");
    reveal_strlit("er");
    if found(grammar, s) {
        let (from, to) = choose|from: int, to: int| matches_at(grammar, s, from, to);
        let part = s.subrange(from, to);
        let (choice, cuts) = choose|choice: int, cuts: Seq<int>|
            0 <= choice < grammar.len() && #[trigger] is_cut(grammar[choice], part, cuts);
        assert(choice == 0);
        assert(0 <= cuts[0] <= cuts[1] && cuts[1] <= cuts[2] && cuts[2] <= cuts[3]);
        assert(cuts[3] <= cuts[4] && cuts[4] <= cuts[5] <= part.len());
        let first = part.subrange(cuts[0], cuts[1]);
        let second = part.subrange(cuts[1], cuts[2]);
        let third = part.subrange(cuts[2], cuts[3]);
        let fourth = part.subrange(cuts[3], cuts[4]);
        let fifth = part.subrange(cuts[4], cuts[5]);
        assert(pieces[0].fits(first) && pieces[1].fits(second) && pieces[2].fits(third));
        assert(pieces[3].fits(fourth) && pieces[4].fits(fifth));
        assert(s.subrange(from, from + "cy"@.len()) =~= first);
        let k = from + cuts[4] - 1;
        assert(s.subrange(k + 1, k + 1 + "s"@.len()) =~= fifth);
        assert(fourth[fourth.len() - 1] == s[k]);
        assert forall|x: int| from + "cy"@.len() <= x < k implies #[trigger] s[x] != '\n' by {
            if x < from + cuts[2] {
                assert(second[x - from - cuts[1]] == s[x]);
            } else if x < from + cuts[3] {
                assert(third[x - from - cuts[2]] == s[x]);
            } else {
                assert(fourth[x - from - cuts[3]] == s[x]);
            }
        }
        assert(runs_to(s, "cy"@, "er"@, "s"@, from, k));
    }
    if exists|i: int, k: int| #[trigger] runs_to(s, "cy"@, "er"@, "s"@, i, k) {
        let (i, k) = choose|i: int, k: int| #[trigger] runs_to(s, "cy"@, "er"@, "s"@, i, k);
        let part = s.subrange(i, k + 2);
        let next = "cy"@.len() as int;
        let cuts = seq![0, next, next, k - i, k - i + 1, k - i + 2];
        assert(part.subrange(cuts[0], cuts[1]) =~= s.subrange(i, i + next));
        assert(pieces[1].fits(part.subrange(cuts[1], cuts[2])));
        assert(pieces[2].fits(part.subrange(cuts[2], cuts[3])));
        assert(pieces[3].fits(part.subrange(cuts[3], cuts[4])));
        assert(part.subrange(cuts[4], cuts[5]) =~= s.subrange(k + 1, k + 1 + "s"@.len()));
        assert(is_cut(grammar[0], part, cuts));
        assert(matches_at(grammar, s, i, k + 2));
    }
}

/// A row of a start, letters, anything and an end, taken alone out of a grammar, is found exactly
/// where a start and an end span a part of a line.
proof fn lemma_found_spans(
    grammar: Seq<Seq<Piece>>,
    choice: int,
    s: Seq<char>,
    start: Seq<char>,
    letters: Seq<char>,
    end: Seq<char>,
)
    requires
        0 <= choice < grammar.len(),
        grammar[choice] == spanning(start, letters, end),
        !letters.contains('\n'),
    ensures
        (exists|i: int, k: int| #[trigger] spans(s, start, letters, end, i, k)) ==> found(grammar, s),
        forall|from: int, to: int, cuts: Seq<int>|
            0 <= from <= to <= s.len() && #[trigger] is_cut(grammar[choice], s.subrange(from, to), cuts) ==> spans(
                s,
                start,
                letters,
                end,
                from,
                from + cuts[3],
            ),
        grammar.len() == 1 && found(grammar, s) ==> exists|i: int, k: int|
            #[trigger] spans(s, start, letters, end, i, k),
{
    assert forall|from: int, to: int, cuts: Seq<int>|
        0 <= from <= to <= s.len() && #[trigger] is_cut(
            grammar[choice],
            s.subrange(from, to),
            cuts,
        ) implies spans(s, start, letters, end, from, from + cuts[3]) by {
        lemma_match_spans(s, from, to, cuts, start, letters, end);
    }
    if exists|i: int, k: int| #[trigger] spans(s, start, letters, end, i, k) {
        let (i, k) = choose|i: int, k: int| #[trigger] spans(s, start, letters, end, i, k);
        lemma_spans_match(s, i, k, start, letters, end);
        assert(matches_at(grammar, s, i, k + end.len()));
    }
    if grammar.len() == 1 && found(grammar, s) {
        let (from, to) = choose|from: int, to: int| matches_at(grammar, s, from, to);
        let (only, cuts) = choose|only: int, cuts: Seq<int>|
            0 <= only < grammar.len() && #[trigger] is_cut(grammar[only], s.subrange(from, to), cuts);
        assert(only == choice);
        assert(spans(s, start, letters, end, from, from + cuts[3]));
    }
}

/// A row of one text, taken alone out of a grammar, is found exactly where the text stands.
proof fn lemma_found_text(grammar: Seq<Seq<Piece>>, choice: int, s: Seq<char>, text: Seq<char>)
    requires
        0 <= choice < grammar.len(),
        grammar[choice] == seq![Piece::Text(text)],
    ensures
        holds_text(s, text) ==> found(grammar, s),
        forall|from: int, to: int, cuts: Seq<int>|
            0 <= from <= to <= s.len() && #[trigger] is_cut(grammar[choice], s.subrange(from, to), cuts)
                ==> holds_text(s, text),
{
    assert forall|from: int, to: int, cuts: Seq<int>|
        0 <= from <= to <= s.len() && #[trigger] is_cut(
            grammar[choice],
            s.subrange(from, to),
            cuts,
        ) implies holds_text(s, text) by {
        let part = s.subrange(from, to);
        assert(cuts[0] == 0 && cuts[1] == part.len());
        assert(grammar[choice][0].fits(part.subrange(cuts[0], cuts[1])));
        assert(part.subrange(0, part.len() as int) =~= part);
        assert(stands_at(s, text, from));
    }
    if holds_text(s, text) {
        let at = choose|at: int| stands_at(s, text, at);
        let part = s.subrange(at, at + text.len());
        let cuts = seq![0, text.len() as int];
        assert(part.subrange(0, text.len() as int) =~= part);
        assert(is_cut(grammar[choice], part, cuts));
        assert(matches_at(grammar, s, at, at + text.len()));
    }
}

/// The names, channels and colors of the biomes: two biomes have a channel of their own, and the
/// first two share a color.
pub proof fn law_biomes_are_these(choice_id: int)
    requires
        0 <= choice_id < 6,
    ensures
        words().len() == 6 && channels().len() == 6 && colors().len() == 6,
        lowered(words()[choice_id]) == target_words()[choice_id],
        words()[choice_id] == "Corruption"@ <==> choice_id == 0,
        words()[choice_id] == "Jester"@ <==> choice_id == 1,
        words()[choice_id] == "Rin"@ <==> choice_id == 2,
        words()[choice_id] == "Glitched"@ <==> choice_id == 3,
        words()[choice_id] == "Dreamspace"@ <==> choice_id == 4,
        words()[choice_id] == "Cyberspace"@ <==> choice_id == 5,
        channels()[choice_id] == 1282543762425516083 <==> choice_id == 1 || choice_id == 2,
        channels()[choice_id] == 1282542323590496277 <==> choice_id != 1 && choice_id != 2,
        colors()[choice_id] == 0xAA00FF <==> choice_id == 0 || choice_id == 1,
        colors()[choice_id] == 0xFF9200 <==> choice_id == 2,
        colors()[choice_id] == 0xAAFF00 <==> choice_id == 3,
        colors()[choice_id] == 0xFF80FF <==> choice_id == 4,
        colors()[choice_id] == 0x2F32FF <==> choice_id == 5,
{
    lemma_target_words(choice_id);
    reveal_strlit("Corruption");
    reveal_strlit("Jester");
    reveal_strlit("Rin");
    reveal_strlit("Glitched");
    reveal_strlit("Dreamspace");
    reveal_strlit("Cyberspace");
    assert("Corruption"@[0] == 'C' && "Jester"@[0] == 'J' && "Rin"@[0] == 'R');
    assert("Glitched"@[0] == 'G' && "Dreamspace"@[0] == 'D' && "Cyberspace"@[1] == 'y');
    assert("Corruption"@[1] == 'o' && "Cyberspace"@[0] == 'C');
}

} // verus!
