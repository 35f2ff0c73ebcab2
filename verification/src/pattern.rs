//! The patterns that messages and device lists are searched for.
//!
//! A pattern is written twice: as the text that `regex` compiles, and as the grammar that the
//! text stands for, in which contracts speak of it.

use crate::text::{all_digits, holds_text, is_digit, stands_at};
use vstd::prelude::*;

verus! {

/// The game whose private servers are joined.
pub const GAME_ID: &'static str = "15532962292";

/// A class of characters.
pub enum Class {
    /// One of these characters.
    Of(Seq<char>),
    /// `0` to `9`.
    Digit,
    /// Any character but a line feed.
    InLine,
}

impl Class {
    /// Whether `c` belongs to the class.
    pub open spec fn has(self, c: char) -> bool {
        match self {
            Class::Of(letters) => letters.contains(c),
            Class::Digit => is_digit(c),
            Class::InLine => c != '\n',
        }
    }
}

/// One piece of a pattern.
pub enum Piece {
    /// This text.
    Text(Seq<char>),
    /// A row of characters of one class, at least so many and at most so many of them.
    Run(Class, nat, Option<nat>),
}

impl Piece {
    /// Whether the piece stands for `s`.
    pub open spec fn fits(self, s: Seq<char>) -> bool {
        match self {
            Piece::Text(text) => s == text,
            Piece::Run(class, least, most) => {
                &&& least <= s.len()
                &&& most matches Some(limit) ==> s.len() <= limit
                &&& forall|i: int| 0 <= i < s.len() ==> class.has(#[trigger] s[i])
            },
        }
    }
}

/// Whether `cuts` divides `s` so that each part of it fits the piece of the same rank.
pub open spec fn is_cut(pieces: Seq<Piece>, s: Seq<char>, cuts: Seq<int>) -> bool {
    &&& cuts.len() == pieces.len() + 1
    &&& cuts[0] == 0
    &&& cuts.last() == s.len()
    &&& forall|k: int| 0 <= k < pieces.len() ==> 0 <= #[trigger] cuts[k] <= cuts[k + 1] <= s.len()
    &&& forall|k: int|
        0 <= k < pieces.len() ==> (#[trigger] pieces[k]).fits(s.subrange(cuts[k], cuts[k + 1]))
}

/// Whether a grammar, a choice of rows of pieces, stands for `s` as a whole.
pub open spec fn spells(grammar: Seq<Seq<Piece>>, s: Seq<char>) -> bool {
    exists|choice: int, cuts: Seq<int>|
        0 <= choice < grammar.len() && #[trigger] is_cut(grammar[choice], s, cuts)
}

/// Whether a grammar stands for the part of `s` from `from` to `to`.
pub open spec fn matches_at(grammar: Seq<Seq<Piece>>, s: Seq<char>, from: int, to: int) -> bool {
    0 <= from <= to <= s.len() && spells(grammar, s.subrange(from, to))
}

/// Whether a grammar stands for any part of `s`.
pub open spec fn found(grammar: Seq<Seq<Piece>>, s: Seq<char>) -> bool {
    exists|from: int, to: int| matches_at(grammar, s, from, to)
}

/// Whether the part from `from` to `to` is the first match in `s`: none starts before it, and
/// none that starts with it is longer.
pub open spec fn is_first_match(
    grammar: Seq<Seq<Piece>>,
    s: Seq<char>,
    from: int,
    to: int,
) -> bool {
    &&& matches_at(grammar, s, from, to)
    &&& forall|i: int, j: int| #[trigger] matches_at(grammar, s, i, j) ==> from <= i
    &&& forall|j: int| #[trigger] matches_at(grammar, s, from, j) ==> j <= to
}

/// Where the first match in `s` starts and ends.
pub open spec fn first_match(grammar: Seq<Seq<Piece>>, s: Seq<char>) -> (int, int) {
    choose|from: int, to: int| is_first_match(grammar, s, from, to)
}

/// The first match in `s`; none where there is no match.
pub open spec fn first_matched(grammar: Seq<Seq<Piece>>, s: Seq<char>) -> Option<Seq<char>> {
    if found(grammar, s) {
        let (from, to) = first_match(grammar, s);
        Some(s.subrange(from, to))
    } else {
        None
    }
}

/// The matches in `s`, each the first one after the end of the one before it.
pub open spec fn all_matched(grammar: Seq<Seq<Piece>>, s: Seq<char>) -> Seq<Seq<char>>
    decreases s.len(),
{
    let (from, to) = first_match(grammar, s);
    if found(grammar, s) && 0 <= from < to <= s.len() {
        seq![s.subrange(from, to)] + all_matched(grammar, s.subrange(to, s.len() as int))
    } else {
        seq![]
    }
}

/// One character or more of a class.
pub open spec fn some_of(class: Class) -> Piece {
    Piece::Run(class, 1, None)
}

/// Whatever stands up to the end of the line, or less of it, or nothing.
pub open spec fn anything() -> Piece {
    Piece::Run(Class::InLine, 0, None)
}

/// So many digits.
pub open spec fn digits(count: nat) -> Piece {
    Piece::Run(Class::Digit, count, Some(count))
}

/// The pattern of a link to a private server of the game.
pub open spec fn link_pattern() -> Seq<char> {
    "https://.*roblox\\.com/games/"@ + GAME_ID@ + "/.*privateServerLinkCode=[0-9]{32}"@
}

/// The grammar of `link_pattern`.
pub open spec fn link_grammar() -> Seq<Seq<Piece>> {
    seq![
        seq![
            Piece::Text("https://"@),
            anything(),
            Piece::Text("roblox.com/games/"@ + GAME_ID@ + "/"@),
            anything(),
            Piece::Text("privateServerLinkCode="@),
            digits(32),
        ],
    ]
}

/// The pattern of a share link.
pub const SHARE_PATTERN: &'static str = "https://.*roblox\\.com/share\\?code=.*type=Server";

/// The grammar of `SHARE_PATTERN`.
pub open spec fn share_grammar() -> Seq<Seq<Piece>> {
    seq![
        seq![
            Piece::Text("https://"@),
            anything(),
            Piece::Text("roblox.com/share?code="@),
            anything(),
            Piece::Text("type=Server"@),
        ],
    ]
}

/// The pattern of an emulator's name in the list of devices.
pub const EMULATOR_PATTERN: &'static str = "emulator-[0-9]{4}";

/// The grammar of `EMULATOR_PATTERN`.
pub open spec fn emulator_grammar() -> Seq<Seq<Piece>> {
    seq![seq![Piece::Text("emulator-"@), digits(4)]]
}

/// The patterns that tell which biome a message in lower case is about, one for each biome.
pub open spec fn word_patterns() -> Seq<Seq<char>> {
    seq![
        "c[orr]+.+up"@,
        "jes.+[ter]+"@,
        "rin"@,
        "g[lit]+.+ch"@,
        "ds|dr[ea]+.+ms"@,
        "cy[b]?.+[er]+s"@,
    ]
}

/// The grammars of `word_patterns`.
pub open spec fn word_grammars() -> Seq<Seq<Seq<Piece>>> {
    let any = some_of(Class::InLine);
    seq![
        seq![seq![Piece::Text("c"@), some_of(Class::Of("or"@)), any, Piece::Text("up"@)]],
        seq![seq![Piece::Text("jes"@), any, some_of(Class::Of("ter"@))]],
        seq![seq![Piece::Text("rin"@)]],
        seq![seq![Piece::Text("g"@), some_of(Class::Of("lit"@)), any, Piece::Text("ch"@)]],
        seq![
            seq![Piece::Text("ds"@)],
            seq![Piece::Text("dr"@), some_of(Class::Of("ea"@)), any, Piece::Text("ms"@)],
        ],
        seq![
            seq![
                Piece::Text("cy"@),
                Piece::Run(Class::Of("b"@), 0, Some(1)),
                any,
                some_of(Class::Of("er"@)),
                Piece::Text("s"@),
            ],
        ],
    ]
}

/// Compiles a pattern with `regex::Regex::new` and calls `regex::Regex::is_match`, which tells
/// whether the pattern matches anywhere in the text. The patterns of the biomes are valid and
/// small, so they compile, and their syntax (`x+`, `x?`, `[..]`, `.`, `|`) says what each
/// matches; how a match is cut into pieces makes no difference to whether there is one.
#[verifier::external_body]
fn regex_is_match(pattern: &str, text: &str) -> (res: bool)
    requires
        word_patterns().contains(pattern@),
    ensures
        forall|k: int|
            0 <= k < word_patterns().len() && #[trigger] word_patterns()[k] == pattern@ ==> res
                == found(word_grammars()[k], text@),
{
    regex::Regex::new(pattern).unwrap().is_match(text)
}

/// Compiles a pattern with `regex::Regex::new` and calls `regex::Regex::find`, which returns the
/// leftmost match. Both patterns are valid and small, so they compile. All that is open in
/// them are runs of `.*`, which take as much as they can, so of the matches with the leftmost
/// start the one returned is the longest.
#[verifier::external_body]
fn regex_find(pattern: &str, text: &str) -> (res: Option<String>)
    requires
        pattern@ == link_pattern() || pattern@ == SHARE_PATTERN@,
    ensures
        pattern@ == link_pattern() ==> match res {
            Some(part) => exists|from: int, to: int|
                is_first_match(link_grammar(), text@, from, to) && part@ == text@.subrange(from, to),
            None => !found(link_grammar(), text@),
        },
        pattern@ == SHARE_PATTERN@ ==> match res {
            Some(part) => exists|from: int, to: int|
                is_first_match(share_grammar(), text@, from, to) && part@ == text@.subrange(from, to),
            None => !found(share_grammar(), text@),
        },
{
    regex::Regex::new(pattern).unwrap().find(text).map(|found| found.as_str().to_string())
}

/// Compiles a pattern with `regex::Regex::new` and calls `regex::Regex::find_iter`, which
/// returns the successive matches that do not overlap, from left to right. The pattern is valid
/// and small, so it compiles, and all its matches have one length.
#[verifier::external_body]
fn regex_find_iter(pattern: &str, text: &str) -> (res: Vec<String>)
    requires
        pattern@ == EMULATOR_PATTERN@,
    ensures
        res@.map_values(|part: String| part@) == all_matched(emulator_grammar(), text@),
{
    regex::Regex::new(pattern).unwrap().find_iter(text).map(|found| found.as_str().to_string()).collect()
}

/// The first match is one only.
pub proof fn lemma_first_match(grammar: Seq<Seq<Piece>>, s: Seq<char>, from: int, to: int)
    requires
        is_first_match(grammar, s, from, to),
    ensures
        found(grammar, s),
        first_match(grammar, s) == (from, to),
        first_matched(grammar, s) == Some(s.subrange(from, to)),
{
    let (i, j) = first_match(grammar, s);
    assert(is_first_match(grammar, s, i, j));
    assert(matches_at(grammar, s, i, j) && matches_at(grammar, s, from, to));
}

proof fn lemma_leftmost(grammar: Seq<Seq<Piece>>, s: Seq<char>, from: int, to: int) -> (res: (int, int))
    requires
        matches_at(grammar, s, from, to),
    ensures
        matches_at(grammar, s, res.0, res.1),
        forall|i: int, j: int| #[trigger] matches_at(grammar, s, i, j) ==> res.0 <= i,
    decreases from,
{
    if exists|i: int, j: int| matches_at(grammar, s, i, j) && i < from {
        let (i, j) = choose|i: int, j: int| matches_at(grammar, s, i, j) && i < from;
        lemma_leftmost(grammar, s, i, j)
    } else {
        (from, to)
    }
}

proof fn lemma_longest(grammar: Seq<Seq<Piece>>, s: Seq<char>, from: int, to: int) -> (res: int)
    requires
        matches_at(grammar, s, from, to),
    ensures
        matches_at(grammar, s, from, res),
        forall|j: int| #[trigger] matches_at(grammar, s, from, j) ==> j <= res,
    decreases s.len() - to,
{
    if exists|j: int| matches_at(grammar, s, from, j) && j > to {
        let j = choose|j: int| matches_at(grammar, s, from, j) && j > to;
        lemma_longest(grammar, s, from, j)
    } else {
        to
    }
}

/// Where there is a match there is a first one.
pub proof fn lemma_first_match_exists(grammar: Seq<Seq<Piece>>, s: Seq<char>)
    requires
        found(grammar, s),
    ensures
        is_first_match(grammar, s, first_match(grammar, s).0, first_match(grammar, s).1),
{
    let (i, j) = choose|i: int, j: int| matches_at(grammar, s, i, j);
    let (from, to) = lemma_leftmost(grammar, s, i, j);
    let end = lemma_longest(grammar, s, from, to);
    assert(is_first_match(grammar, s, from, end));
}

/// A text for which a grammar stands as a whole is its own first match.
pub proof fn lemma_whole_match(grammar: Seq<Seq<Piece>>, s: Seq<char>)
    requires
        spells(grammar, s),
    ensures
        first_matched(grammar, s) == Some(s),
{
    assert(s.subrange(0, s.len() as int) =~= s);
    assert(matches_at(grammar, s, 0, s.len() as int));
    assert(is_first_match(grammar, s, 0, s.len() as int));
    lemma_first_match(grammar, s, 0, s.len() as int);
}

/// Every device that is found is `emulator-` and four digits, and stands in the list.
pub proof fn law_devices_are_emulators(output: Seq<char>)
    ensures
        forall|k: int|
            0 <= k < all_matched(emulator_grammar(), output).len() ==> {
                let name = #[trigger] all_matched(emulator_grammar(), output)[k];
                &&& name.len() == 13
                &&& name.subrange(0, 9) == "emulator-"@
                &&& all_digits(name.subrange(9, 13))
                &&& holds_text(output, name)
            },
    decreases output.len(),
{
    let grammar = emulator_grammar();
    let (from, to) = first_match(grammar, output);
    if found(grammar, output) && 0 <= from < to <= output.len() {
        lemma_first_match_exists(grammar, output);
        let rest = output.subrange(to, output.len() as int);
        law_devices_are_emulators(rest);
        let first = output.subrange(from, to);
        assert(spells(grammar, first));
        let (choice, cuts) = choose|choice: int, cuts: Seq<int>|
            0 <= choice < grammar.len() && #[trigger] is_cut(grammar[choice], first, cuts);
        let pieces = grammar[0];
        reveal_strlit("emulator-");
        assert(pieces[0].fits(first.subrange(cuts[0], cuts[1])));
        assert(pieces[1].fits(first.subrange(cuts[1], cuts[2])));
        assert(stands_at(output, first, from));
        let all = all_matched(grammar, output);
        assert forall|k: int| 0 <= k < all.len() implies {
            let name = #[trigger] all[k];
            &&& name.len() == 13
            &&& name.subrange(0, 9) == "emulator-"@
            &&& all_digits(name.subrange(9, 13))
            &&& holds_text(output, name)
        } by {
            if k > 0 {
                let name = all_matched(grammar, rest)[k - 1];
                assert(all[k] == name);
                let at = choose|at: int| stands_at(rest, name, at);
                assert(output.subrange(to + at, to + at + name.len()) =~= rest.subrange(at, at + name.len()));
                assert(stands_at(output, name, to + at));
            }
        }
    }
}

/// Whether the pattern of a biome matches a message in lower case.
pub(crate) fn matches_word(choice_id: usize, message: &str) -> (res: bool)
    requires
        choice_id < 6,
    ensures
        res == found(word_grammars()[choice_id as int], message@),
{
    let pattern = match choice_id {
        0 => "c[orr]+.+up",
        1 => "jes.+[ter]+",
        2 => "rin",
        3 => "g[lit]+.+ch",
        4 => "ds|dr[ea]+.+ms",
        _ => "cy[b]?.+[er]+s",
    };
    assert(word_patterns()[choice_id as int] == pattern@);
    regex_is_match(pattern, message)
}

/// The first link to a private server of the game in a message.
pub(crate) fn find_link(message: &str) -> (res: Option<String>)
    ensures
        match res {
            Some(part) => first_matched(link_grammar(), message@) == Some(part@),
            None => first_matched(link_grammar(), message@) is None,
        },
{
    let pattern = "https://.*roblox\\.com/games/".to_owned().concat(GAME_ID).concat(
        "/.*privateServerLinkCode=[0-9]{32}",
    );
    let res = regex_find(pattern.as_str(), message);
    proof {
        if res is Some {
            let part = res->0;
            let (from, to) = choose|from: int, to: int|
                is_first_match(link_grammar(), message@, from, to) && part@ == message@.subrange(from, to);
            lemma_first_match(link_grammar(), message@, from, to);
        }
    }
    res
}

/// The first share link in a message.
pub(crate) fn find_share_link(message: &str) -> (res: Option<String>)
    ensures
        match res {
            Some(part) => first_matched(share_grammar(), message@) == Some(part@),
            None => first_matched(share_grammar(), message@) is None,
        },
{
    let res = regex_find(SHARE_PATTERN, message);
    proof {
        if res is Some {
            let part = res->0;
            let (from, to) = choose|from: int, to: int|
                is_first_match(share_grammar(), message@, from, to) && part@ == message@.subrange(
                    from,
                    to,
                );
            lemma_first_match(share_grammar(), message@, from, to);
        }
    }
    res
}

/// The emulators that a list of devices names, in the order of the list.
pub fn find_devices(output: &str) -> (res: Vec<String>)
    ensures
        res@.map_values(|name: String| name@) == all_matched(emulator_grammar(), output@),
{
    regex_find_iter(EMULATOR_PATTERN, output)
}

/// Whether the name of an emulator, `emulator-` and four digits, stands in `s` from `at` on.
pub open spec fn emulator_at(s: Seq<char>, at: int) -> bool {
    &&& stands_at(s, "emulator-"@, at)
    &&& at + 13 <= s.len()
    &&& forall|k: int| at + 9 <= k < at + 13 ==> '0' <= #[trigger] s[k] <= '9'
}

/// The grammar of emulators stands for their names.
proof fn lemma_emulators(s: Seq<char>)
    ensures
        forall|from: int, to: int|
            #[trigger] matches_at(emulator_grammar(), s, from, to) <==> to == from + 13 && emulator_at(s, from),
{
    let grammar = emulator_grammar();
    let pieces = grammar[0];
    reveal_strlit("emulator-");
    assert forall|from: int, to: int|
        #[trigger] matches_at(grammar, s, from, to) <==> to == from + 13 && emulator_at(s, from) by {
        let part = s.subrange(from, to);
        if matches_at(grammar, s, from, to) {
            let (choice, cuts) = choose|choice: int, cuts: Seq<int>|
                0 <= choice < grammar.len() && #[trigger] is_cut(grammar[choice], part, cuts);
            assert(choice == 0);
            assert(0 <= cuts[0] <= cuts[1] && cuts[1] <= cuts[2] <= part.len());
            let word = part.subrange(cuts[0], cuts[1]);
            let number = part.subrange(cuts[1], cuts[2]);
            assert(pieces[0].fits(word) && pieces[1].fits(number));
            assert(s.subrange(from, from + 9) =~= word);
            assert forall|k: int| from + 9 <= k < from + 13 implies '0' <= #[trigger] s[k] <= '9' by {
                assert(number[k - from - 9] == s[k]);
            }
        }
        if to == from + 13 && emulator_at(s, from) {
            let cuts = seq![0int, 9, 13];
            assert(part.subrange(0, 9) =~= s.subrange(from, from + 9));
            assert(pieces[1].fits(part.subrange(9, 13)));
            assert(is_cut(grammar[0], part, cuts));
            assert(spells(grammar, part));
        }
    }
}

/// The devices that are found are the emulators that a list names, one after another: the first of them
/// that stands in the list, then those in the rest of the list, and none where no emulator is named.
pub proof fn law_devices_are_found_one_after_another(before: Seq<char>, name: Seq<char>, after: Seq<char>)
    requires
        forall|at: int| !emulator_at(before, at),
    ensures
        name.len() == 13 && emulator_at(name, 0) ==> all_matched(emulator_grammar(), before + name + after)
            == seq![name] + all_matched(emulator_grammar(), after),
        all_matched(emulator_grammar(), before).len() == 0,
{
    let grammar = emulator_grammar();
    lemma_emulators(before);
    assert(!found(grammar, before));
    if name.len() == 13 && emulator_at(name, 0) {
        let s = before + name + after;
        let at = before.len() as int;
        reveal_strlit("emulator-");
        lemma_emulators(s);
        assert(name.subrange(0, 9) == "emulator-"@);
        assert forall|k: int| 0 <= k < 13 implies s[at + k] == #[trigger] name[k] by {}
        assert(s.subrange(at, at + 9) =~= name.subrange(0, 9));
        assert(emulator_at(s, at)) by {
            assert forall|k: int| at + 9 <= k < at + 13 implies '0' <= #[trigger] s[k] <= '9' by {
                assert(s[k] == name[k - at]);
            }
        }
        assert(matches_at(grammar, s, at, at + 13));
        assert forall|i: int, j: int| #[trigger] matches_at(grammar, s, i, j) implies at <= i by {
            if i < at {
                let word = s.subrange(i, i + 9);
                if i + 13 <= at {
                    assert(before.subrange(i, i + 9) =~= word);
                    assert forall|k: int| i + 9 <= k < i + 13 implies '0' <= #[trigger] before[k] <= '9' by {
                        assert(before[k] == s[k]);
                    }
                    assert(emulator_at(before, i));
                } else {
                    assert(name.subrange(0, 9)[0] == name[0]);
                    assert(s[at + 0] == name[0]);
                    assert(s[at] == 'e');
                    if at - i < 9 {
                        assert(word[at - i] == s[at]);
                    }
                }
            }
        }
        assert(is_first_match(grammar, s, at, at + 13));
        lemma_first_match(grammar, s, at, at + 13);
        assert(s.subrange(at, at + 13) =~= name);
        assert(s.subrange(at + 13, s.len() as int) =~= after);
    }
}

/// Each biome is searched for with a pattern of its own, and links and emulators with one pattern each.
pub proof fn law_patterns_are_these(choice_id: int)
    requires
        0 <= choice_id < 6,
    ensures
        word_patterns().len() == 6,
        word_patterns()[choice_id] == "c[orr]+.+up"@ <==> choice_id == 0,
        word_patterns()[choice_id] == "jes.+[ter]+"@ <==> choice_id == 1,
        word_patterns()[choice_id] == "rin"@ <==> choice_id == 2,
        word_patterns()[choice_id] == "g[lit]+.+ch"@ <==> choice_id == 3,
        word_patterns()[choice_id] == "ds|dr[ea]+.+ms"@ <==> choice_id == 4,
        word_patterns()[choice_id] == "cy[b]?.+[er]+s"@ <==> choice_id == 5,
        link_pattern() == "https://.*roblox\\.com/games/15532962292/.*privateServerLinkCode=[0-9]{32}"@,
        SHARE_PATTERN@ == "https://.*roblox\\.com/share\\?code=.*type=Server"@,
        EMULATOR_PATTERN@ == "emulator-[0-9]{4}"@,
{
    reveal_strlit("c[orr]+.+up");
    reveal_strlit("jes.+[ter]+");
    reveal_strlit("rin");
    reveal_strlit("g[lit]+.+ch");
    reveal_strlit("ds|dr[ea]+.+ms");
    reveal_strlit("cy[b]?.+[er]+s");
    assert("c[orr]+.+up"@[1] == '[' && "jes.+[ter]+"@[0] == 'j' && "rin"@[0] == 'r');
    assert("g[lit]+.+ch"@[0] == 'g' && "ds|dr[ea]+.+ms"@[0] == 'd' && "cy[b]?.+[er]+s"@[1] == 'y');
    assert("c[orr]+.+up"@[0] == 'c' && "cy[b]?.+[er]+s"@[0] == 'c');
    reveal_strlit("https://.*roblox\\.com/games/");
    reveal_strlit("15532962292");
    reveal_strlit("/.*privateServerLinkCode=[0-9]{32}");
    reveal_strlit("https://.*roblox\\.com/games/15532962292/.*privateServerLinkCode=[0-9]{32}");
    assert(link_pattern() =~= "https://.*roblox\\.com/games/15532962292/.*privateServerLinkCode=[0-9]{32}"@);
}

} // verus!
