//! Searching and reading text, character by character.

use vstd::prelude::*;
use vstd::utf8::is_ascii_chars;

verus! {

/// Whether `part` stands in `s` from position `at` on.
pub open spec fn stands_at(s: Seq<char>, part: Seq<char>, at: int) -> bool {
    0 <= at && at + part.len() <= s.len() && s.subrange(at, at + part.len()) == part
}

/// Whether `part` stands anywhere in `s`.
pub open spec fn holds_text(s: Seq<char>, part: Seq<char>) -> bool {
    exists|at: int| stands_at(s, part, at)
}

/// Whether `at` is the position of the last `part` in `s`.
pub open spec fn is_last_at(s: Seq<char>, part: Seq<char>, at: int) -> bool {
    stands_at(s, part, at) && forall|later: int| later > at ==> !stands_at(s, part, later)
}

/// What follows the last `part` in `s`; all of `s` where `part` does not stand in it.
pub open spec fn after_last_of(s: Seq<char>, part: Seq<char>) -> Seq<char> {
    if holds_text(s, part) {
        let at = choose|at: int| is_last_at(s, part, at);
        s.subrange(at + part.len(), s.len() as int)
    } else {
        s
    }
}

/// Whether `at` is the position of the first `c` in `s`.
pub open spec fn is_first_at(s: Seq<char>, c: char, at: int) -> bool {
    0 <= at < s.len() && s[at] == c && forall|i: int| 0 <= i < at ==> s[i] != c
}

/// The position of the first `c` in `s`.
pub open spec fn position_of(s: Seq<char>, c: char) -> Option<int> {
    if s.contains(c) {
        Some(choose|at: int| is_first_at(s, c, at))
    } else {
        None
    }
}

/// What stands in `s` before its first `c`; all of `s` where it has none.
pub open spec fn before_first_of(s: Seq<char>, c: char) -> Seq<char> {
    match position_of(s, c) {
        Some(at) => s.subrange(0, at),
        None => s,
    }
}

/// The characters of Unicode's White_Space property.
pub open spec fn is_white(c: char) -> bool {
    let n = c as u32;
    ||| 0x9 <= n <= 0xd
    ||| n == 0x20
    ||| n == 0x85
    ||| n == 0xa0
    ||| n == 0x1680
    ||| 0x2000 <= n <= 0x200a
    ||| n == 0x2028
    ||| n == 0x2029
    ||| n == 0x202f
    ||| n == 0x205f
    ||| n == 0x3000
}

/// `s` without the white space that it starts and ends with.
pub open spec fn trimmed(s: Seq<char>) -> Seq<char>
    decreases s.len(),
{
    if s.len() > 0 && is_white(s[0]) {
        trimmed(s.subrange(1, s.len() as int))
    } else if s.len() > 0 && is_white(s.last()) {
        trimmed(s.drop_last())
    } else {
        s
    }
}

/// The lower-case form of an ASCII letter; any other character as it is.
pub open spec fn ascii_lower(c: char) -> char {
    if 'A' <= c <= 'Z' {
        (c as u32 + 32) as char
    } else {
        c
    }
}

/// `s` with its ASCII letters in lower case.
pub open spec fn ascii_lowered(s: Seq<char>) -> Seq<char> {
    s.map_values(|c: char| ascii_lower(c))
}

/// What `str::to_lowercase` makes of a text, by Unicode's rules.
pub uninterp spec fn unicode_lowered(s: Seq<char>) -> Seq<char>;

/// `s` in lower case.
pub open spec fn lowered(s: Seq<char>) -> Seq<char> {
    if is_ascii_chars(s) {
        ascii_lowered(s)
    } else {
        unicode_lowered(s)
    }
}

/// Whether `c` is one of `0` to `9`.
pub open spec fn is_digit(c: char) -> bool {
    '0' <= c <= '9'
}

/// Whether `s` is made of digits only.
pub open spec fn all_digits(s: Seq<char>) -> bool {
    forall|i: int| 0 <= i < s.len() ==> is_digit(#[trigger] s[i])
}

/// The number that a row of digits stands for.
pub open spec fn decimal(s: Seq<char>) -> nat
    decreases s.len(),
{
    if s.len() == 0 {
        0
    } else {
        (decimal(s.drop_last()) * 10 + (s.last() as u32 - '0' as u32)) as nat
    }
}

/// The number that `s` writes in decimal, with or without a plus sign before it;
/// none where `s` is anything else or the number is too large.
pub open spec fn number_in(s: Seq<char>) -> Option<u64> {
    let digits = if s.len() > 0 && s[0] == '+' { s.subrange(1, s.len() as int) } else { s };
    if digits.len() > 0 && all_digits(digits) && decimal(digits) <= u64::MAX {
        Some(decimal(digits) as u64)
    } else {
        None
    }
}

/// Calls `str::to_lowercase`. What it makes of a text is named; of a text in ASCII it is said:
/// the letters `A` to `Z` become `a` to `z`, and nothing else changes.
#[verifier::external_body]
fn unicode_lowercase(s: &str) -> (res: String)
    ensures
        res@ == unicode_lowered(s@),
        is_ascii_chars(s@) ==> res@ == ascii_lowered(s@),
{
    s.to_lowercase()
}

/// `s` in lower case.
pub fn to_lowercase(s: &str) -> (res: String)
    ensures
        res@ == lowered(s@),
{
    unicode_lowercase(s)
}

/// Whether `c` is a character of Unicode's White_Space property.
fn white(c: char) -> (res: bool)
    ensures
        res == is_white(c),
{
    let n: u32 = c as u32;
    (0x9 <= n && n <= 0xd) || n == 0x20 || n == 0x85 || n == 0xa0 || n == 0x1680 || (0x2000 <= n && n <= 0x200a)
        || n == 0x2028 || n == 0x2029 || n == 0x202f || n == 0x205f || n == 0x3000
}

/// `s` without the white space that it starts and ends with.
pub fn trim(s: &str) -> (res: &str)
    ensures
        res@ == trimmed(s@),
{
    let chars = characters(s);
    let mut from: usize = 0;
    let mut to: usize = chars.len();
    assert(s@.subrange(0, to as int) =~= s@);
    while from < to && white(chars[from])
        invariant
            chars@ == s@,
            from <= to == chars.len(),
            trimmed(s@.subrange(from as int, to as int)) == trimmed(s@),
        ensures
            from <= to == chars.len(),
            trimmed(s@.subrange(from as int, to as int)) == trimmed(s@),
            from < to ==> !is_white(s@[from as int]),
        decreases to - from,
    {
        assert(s@.subrange(from as int, to as int).subrange(1, to - from) =~= s@.subrange(from + 1, to as int));
        from = from + 1;
    }
    while from < to && white(chars[to - 1])
        invariant
            chars@ == s@,
            from <= to <= chars.len(),
            trimmed(s@.subrange(from as int, to as int)) == trimmed(s@),
            from < to ==> !is_white(s@[from as int]),
        decreases to - from,
    {
        assert(s@.subrange(from as int, to as int).drop_last() =~= s@.subrange(from as int, to - 1));
        to = to - 1;
    }
    s.substring_char(from, to)
}

/// The characters of `s`.
pub(crate) fn characters(s: &str) -> (res: Vec<char>)
    ensures
        res@ == s@,
{
    let mut res: Vec<char> = Vec::new();
    for c in it: s.chars()
        invariant
            it.seq() == s@,
            res@ == s@.take(it.index()),
    {
        res.push(c);
    }
    res
}

/// Whether two texts are the same.
pub(crate) fn same(a: &str, b: &str) -> (res: bool)
    ensures
        res == (a@ == b@),
{
    a.to_owned() == b.to_owned()
}

/// The last `part` in `s` is at one position only.
pub proof fn lemma_after_last(s: Seq<char>, part: Seq<char>, at: int)
    requires
        is_last_at(s, part, at),
    ensures
        after_last_of(s, part) == s.subrange(at + part.len(), s.len() as int),
{
    let chosen = choose|i: int| is_last_at(s, part, i);
    assert(is_last_at(s, part, chosen));
    assert(!(chosen > at) && !(at > chosen));
}

/// Where `part` stands in `s` there is a last one.
pub proof fn lemma_last_exists(s: Seq<char>, part: Seq<char>, at: int) -> (last: int)
    requires
        stands_at(s, part, at),
    ensures
        is_last_at(s, part, last),
    decreases s.len() - at,
{
    if exists|later: int| later > at && stands_at(s, part, later) {
        let later = choose|later: int| later > at && stands_at(s, part, later);
        lemma_last_exists(s, part, later)
    } else {
        at
    }
}

/// The first `c` in `s` is at one position only.
pub proof fn lemma_position(s: Seq<char>, c: char, at: int)
    requires
        is_first_at(s, c, at),
    ensures
        position_of(s, c) == Some(at),
{
    assert(s.contains(c));
    let chosen = choose|i: int| is_first_at(s, c, i);
    assert(is_first_at(s, c, chosen));
    assert(!(chosen > at) && !(at > chosen));
}

/// Whether `part` stands in `s` from position `at` on.
fn compare_at(s: &Vec<char>, part: &Vec<char>, at: usize) -> (res: bool)
    requires
        at + part@.len() <= s@.len(),
    ensures
        res == stands_at(s@, part@, at as int),
{
    let len: usize = s.len();
    for i in 0..part.len()
        invariant
            len == s@.len(),
            at + part@.len() <= len,
            forall|j: int| 0 <= j < i ==> s@[at + j] == part@[j],
    {
        if s[at + i] != part[i] {
            assert(s@.subrange(at as int, at + part@.len())[i as int] != part@[i as int]);
            return false;
        }
    }
    assert(s@.subrange(at as int, at + part@.len()) =~= part@);
    true
}

/// The position of the last `part` in `s`.
fn find_last(s: &Vec<char>, part: &Vec<char>) -> (res: Option<usize>)
    ensures
        match res {
            Some(at) => is_last_at(s@, part@, at as int),
            None => !holds_text(s@, part@),
        },
{
    if part.len() > s.len() {
        return None;
    }
    let mut at: usize = s.len() - part.len();
    loop
        invariant
            at + part@.len() <= s@.len(),
            forall|later: int| later > at ==> !stands_at(s@, part@, later),
        decreases at,
    {
        if compare_at(s, part, at) {
            return Some(at);
        }
        if at == 0 {
            return None;
        }
        at = at - 1;
    }
}

/// Whether `part` stands anywhere in `s`.
pub fn contains_text(s: &str, part: &str) -> (res: bool)
    ensures
        res == holds_text(s@, part@),
{
    find_last(&characters(s), &characters(part)).is_some()
}

/// What follows the last `part` in `s`; all of `s` where `part` does not stand in it.
pub fn after_last(s: &str, part: &str) -> (res: String)
    ensures
        res@ == after_last_of(s@, part@),
{
    let chars = characters(s);
    let sought = characters(part);
    match find_last(&chars, &sought) {
        Some(at) => {
            proof {
                lemma_after_last(s@, part@, at as int);
            }
            let end: usize = chars.len();
            s.substring_char(at + sought.len(), end).to_owned()
        },
        None => s.to_owned(),
    }
}

/// The position of the first `c` in `s`, counted in characters.
pub fn find_char(s: &str, c: char) -> (res: Option<usize>)
    ensures
        match res {
            Some(at) => position_of(s@, c) == Some(at as int),
            None => position_of(s@, c) is None,
        },
{
    let chars = characters(s);
    for i in 0..chars.len()
        invariant
            chars@ == s@,
            forall|j: int| 0 <= j < i ==> chars@[j] != c,
    {
        if chars[i] == c {
            proof {
                lemma_position(s@, c, i as int);
            }
            return Some(i);
        }
    }
    None
}

/// What stands in `s` before its first `c`; all of `s` where it has none.
pub fn before_first(s: &str, c: char) -> (res: String)
    ensures
        res@ == before_first_of(s@, c),
{
    match find_char(s, c) {
        Some(at) => {
            proof {
                lemma_position_bounds(s@, c);
            }
            s.substring_char(0, at).to_owned()
        },
        None => s.to_owned(),
    }
}

/// A position found in `s` is one of `s`.
pub proof fn lemma_position_bounds(s: Seq<char>, c: char)
    ensures
        match position_of(s, c) {
            Some(at) => is_first_at(s, c, at),
            None => !s.contains(c),
        },
    decreases s.len(),
{
    if s.contains(c) {
        lemma_first_exists(s, c);
    }
}

proof fn lemma_first_exists(s: Seq<char>, c: char)
    requires
        s.contains(c),
    ensures
        exists|at: int| is_first_at(s, c, at),
    decreases s.len(),
{
    let front = s.drop_last();
    if front.contains(c) {
        lemma_first_exists(front, c);
        let at = choose|at: int| is_first_at(front, c, at);
        assert forall|i: int| 0 <= i < at implies s[i] != c by {
            assert(front[i] == s[i]);
        }
        assert(is_first_at(s, c, at));
    } else {
        assert forall|i: int| 0 <= i < s.len() - 1 implies s[i] != c by {
            assert(front[i] == s[i]);
        }
        assert(is_first_at(s, c, s.len() - 1));
    }
}

proof fn lemma_decimal_grows(s: Seq<char>, n: int)
    requires
        all_digits(s),
        0 <= n <= s.len(),
    ensures
        decimal(s.take(n)) <= decimal(s),
    decreases s.len() - n,
{
    if n < s.len() {
        lemma_decimal_grows(s, n + 1);
        assert(s.take(n + 1).drop_last() =~= s.take(n));
        assert(is_digit(s[n]));
    } else {
        assert(s.take(n) =~= s);
    }
}

/// The number that `s` writes in decimal, with or without a plus sign before it.
pub fn parse_number(s: &str) -> (res: Option<u64>)
    ensures
        res == number_in(s@),
{
    let chars = characters(s);
    let start: usize = if chars.len() > 0 && chars[0] == '+' { 1 } else { 0 };
    let ghost digits = s@.subrange(start as int, s@.len() as int);
    assert(start == 0 ==> digits =~= s@);
    if start == chars.len() {
        return None;
    }
    let mut value: u64 = 0;
    for i in start..chars.len()
        invariant
            chars@ == s@,
            start == if s@.len() > 0 && s@[0] == '+' { 1int } else { 0int },
            start < s@.len(),
            start == 0 ==> digits == s@,
            digits == s@.subrange(start as int, s@.len() as int),
            all_digits(digits.take(i - start)),
            value == decimal(digits.take(i - start)),
    {
        let c = chars[i];
        assert(digits[i - start] == c);
        if c < '0' || c > '9' {
            assert(!all_digits(digits));
            return None;
        }
        let ghost before = digits.take(i - start);
        let ghost after = digits.take(i + 1 - start);
        assert(after.drop_last() =~= before);
        assert(all_digits(after)) by {
            assert forall|j: int| 0 <= j < after.len() implies is_digit(#[trigger] after[j]) by {
                if j < before.len() {
                    assert(before[j] == after[j]);
                }
            }
        }
        let digit: u64 = (c as u32 - '0' as u32) as u64;
        if value > (u64::MAX - digit) / 10 {
            assert(decimal(after) > u64::MAX);
            proof {
                if all_digits(digits) {
                    lemma_decimal_grows(digits, i + 1 - start);
                }
            }
            return None;
        }
        value = value * 10 + digit;
    }
    assert(digits.take(chars@.len() - start) =~= digits);
    Some(value)
}

/// A text stands at a position exactly where what surrounds it there makes up the rest.
pub proof fn law_text_stands_where_it_is_written(s: Seq<char>, part: Seq<char>, at: int)
    ensures
        stands_at(s, part, at) <==> exists|before: Seq<char>, after: Seq<char>|
            before.len() == at && s == #[trigger] (before + part + after),
{
    if stands_at(s, part, at) {
        let before = s.subrange(0, at);
        let after = s.subrange(at + part.len(), s.len() as int);
        assert(s =~= before + part + after) by {
            assert(forall|k: int| 0 <= k < part.len() ==> part[k] == s.subrange(at, at + part.len())[k]);
        }
    }
    if exists|before: Seq<char>, after: Seq<char>| before.len() == at && s == #[trigger] (before + part + after) {
        let (before, after) = choose|before: Seq<char>, after: Seq<char>|
            before.len() == at && s == #[trigger] (before + part + after);
        assert(s.subrange(at, at + part.len()) =~= part);
    }
}

/// A text holds another exactly where it is made of that and of what comes before and after.
pub proof fn law_text_holds_what_it_is_made_of(s: Seq<char>, part: Seq<char>)
    ensures
        holds_text(s, part) <==> exists|before: Seq<char>, after: Seq<char>| s == #[trigger] (before + part + after),
{
    if holds_text(s, part) {
        let at = choose|at: int| stands_at(s, part, at);
        law_text_stands_where_it_is_written(s, part, at);
    }
    if exists|before: Seq<char>, after: Seq<char>| s == #[trigger] (before + part + after) {
        let (before, after) = choose|before: Seq<char>, after: Seq<char>| s == #[trigger] (before + part + after);
        law_text_stands_where_it_is_written(s, part, before.len() as int);
    }
}

/// What follows a separator is what comes after it, where it does not stand once more behind; and
/// all of a text without the separator.
pub proof fn law_what_follows_the_last_separator(before: Seq<char>, separator: Seq<char>, after: Seq<char>)
    ensures
        (forall|later: int| later > before.len() ==> !stands_at(before + separator + after, separator, later))
            ==> after_last_of(before + separator + after, separator) == after,
        !holds_text(before, separator) ==> after_last_of(before, separator) == before,
{
    let s = before + separator + after;
    if forall|later: int| later > before.len() ==> !stands_at(s, separator, later) {
        law_text_stands_where_it_is_written(s, separator, before.len() as int);
        assert(is_last_at(s, separator, before.len() as int));
        lemma_after_last(s, separator, before.len() as int);
        assert(s.subrange(before.len() as int + separator.len(), s.len() as int) =~= after);
    }
}

/// What comes before the first of a character is what stands there, where it has none of them; and
/// all of a text without the character. The character is found just behind.
pub proof fn law_what_precedes_the_first_character(before: Seq<char>, c: char, after: Seq<char>)
    requires
        !before.contains(c),
    ensures
        before_first_of(before + seq![c] + after, c) == before,
        position_of(before + seq![c] + after, c) == Some(before.len() as int),
        before_first_of(before, c) == before,
        position_of(before, c) is None,
{
    let s = before + seq![c] + after;
    assert(is_first_at(s, c, before.len() as int)) by {
        assert(forall|k: int| 0 <= k < before.len() ==> s[k] == before[k]);
    }
    lemma_position(s, c, before.len() as int);
    assert(s.subrange(0, before.len() as int) =~= before);
}

/// The white space around a text is dropped, and nothing of a text that starts and ends with
/// something else.
pub proof fn law_white_space_around_is_dropped(before: Seq<char>, text: Seq<char>, after: Seq<char>)
    requires
        forall|i: int| 0 <= i < before.len() ==> is_white(#[trigger] before[i]),
        forall|i: int| 0 <= i < after.len() ==> is_white(#[trigger] after[i]),
        text.len() > 0 ==> !is_white(text[0]) && !is_white(text.last()),
    ensures
        trimmed(before + text + after) == text,
    decreases before.len() + after.len(),
{
    let s = before + text + after;
    if before.len() > 0 {
        let rest = before.subrange(1, before.len() as int);
        assert(s[0] == before[0]);
        assert(s.subrange(1, s.len() as int) =~= rest + text + after);
        law_white_space_around_is_dropped(rest, text, after);
    } else if text.len() > 0 {
        assert(s[0] == text[0]);
        if after.len() > 0 {
            let rest = after.drop_last();
            assert(s.last() == after.last() && after.last() == after[after.len() - 1]);
            assert(s.drop_last() =~= before + text + rest);
            law_white_space_around_is_dropped(before, text, rest);
        } else {
            assert(s =~= text);
        }
    } else if after.len() > 0 {
        let rest = after.subrange(1, after.len() as int);
        assert(s[0] == after[0]);
        assert(s.subrange(1, s.len() as int) =~= before + text + rest);
        law_white_space_around_is_dropped(before, text, rest);
    } else {
        assert(s =~= text);
    }
}

/// White space are the tab, the line and page breaks and the blank, and outside ASCII the next line, the
/// no-break space, the spaces of Ogham and of ideographs, the typographic spaces, and the separators of
/// lines and paragraphs; no visible character is, nor is a space of no width.
pub proof fn law_white_space_is_blank(c: char)
    ensures
        c <= '\u{7f}' ==> (is_white(c) <==> c == ' ' || '\t' <= c <= '\r'),
        c > '\u{7f}' ==> (is_white(c) <==> {
            ||| seq!['\u{85}', '\u{a0}', '\u{1680}', '\u{2028}', '\u{2029}', '\u{202f}', '\u{205f}', '\u{3000}'].contains(c)
            ||| '\u{2000}' <= c < '\u{200b}'
        }),
{
    let separate = seq![
        '\u{85}',
        '\u{a0}',
        '\u{1680}',
        '\u{2028}',
        '\u{2029}',
        '\u{202f}',
        '\u{205f}',
        '\u{3000}',
    ];
    assert(separate[0] == '\u{85}' && separate[1] == '\u{a0}' && separate[2] == '\u{1680}');
    assert(separate[3] == '\u{2028}' && separate[4] == '\u{2029}' && separate[5] == '\u{202f}');
    assert(separate[6] == '\u{205f}' && separate[7] == '\u{3000}');
}

/// In lower case a text in ASCII has no capitals: each is the small letter of the same rank, and
/// nothing else differs. What lower case means of any other text is what Unicode says.
pub proof fn law_lower_case_changes_capitals_only(s: Seq<char>)
    ensures
        is_ascii_chars(s) ==> lowered(s).len() == s.len(),
        is_ascii_chars(s) ==> forall|i: int|
            0 <= i < s.len() ==> {
                &&& 'A' <= s[i] <= 'Z' ==> #[trigger] lowered(s)[i] as u32 - 'a' as u32 == s[i] as u32 - 'A' as u32
                &&& !('A' <= s[i] <= 'Z') ==> lowered(s)[i] == s[i]
            },
        !is_ascii_chars(s) ==> lowered(s) == unicode_lowered(s),
{
}

/// A digit by itself is read as its value; a digit put behind a row of digits makes ten times the
/// number and that digit, or nothing where that is too large; a plus sign before digits makes no
/// difference; with any other character in it a text is no number, and neither is an empty one.
pub proof fn law_numbers_are_read_digit_by_digit(s: Seq<char>, c: char)
    ensures
        is_digit(c) ==> number_in(seq![c]) == Some((c as u32 - '0' as u32) as u64),
        is_digit(c) && all_digits(s) ==> (number_in(s) matches Some(n) ==> number_in(s.push(c)) == (if n * 10 + (
        c as u32 - '0' as u32) <= u64::MAX {
            Some((n * 10 + (c as u32 - '0' as u32)) as u64)
        } else {
            None
        })),
        s.len() > 0 && all_digits(s) && number_in(s) is None ==> number_in(s.push(c)) is None,
        all_digits(s) ==> number_in(seq!['+'] + s) == number_in(s),
        !is_digit(c) && s.len() > 0 ==> number_in(s.push(c)) is None,
        number_in(s) is Some ==> s.len() > 0 && forall|i: int|
            0 <= i < s.len() ==> is_digit(#[trigger] s[i]) || (i == 0 && s[i] == '+'),
        is_digit(c) <==> seq!['0', '1', '2', '3', '4', '5', '6', '7', '8', '9'].contains(c),
        all_digits(s.push(c)) <==> all_digits(s) && is_digit(c),
        all_digits(seq![]),
{
    if all_digits(s.push(c)) {
        assert(is_digit(s.push(c)[s.len() as int]));
        assert forall|i: int| 0 <= i < s.len() implies is_digit(#[trigger] s[i]) by {
            assert(s.push(c)[i] == s[i]);
        }
    }
    let one = seq![c];
    assert(one.drop_last() =~= Seq::<char>::empty());
    reveal_with_fuel(decimal, 2);
    assert(is_digit(c) ==> all_digits(one));
    assert(one[0] == c);

    let more = s.push(c);
    assert(more.drop_last() =~= s);
    if all_digits(s) && s.len() > 0 {
        assert(is_digit(s[0]));
        assert(more[0] == s[0]);
        if is_digit(c) {
            assert forall|i: int| 0 <= i < more.len() implies is_digit(#[trigger] more[i]) by {
                if i < s.len() {
                    assert(more[i] == s[i]);
                }
            }
        }
    }
    if s.len() > 0 {
        let digits = if more[0] == '+' { more.subrange(1, more.len() as int) } else { more };
        assert(digits.last() == c && digits[digits.len() - 1] == c);
    }

    let signed = seq!['+'] + s;
    assert(signed[0] == '+');
    assert(signed.subrange(1, signed.len() as int) =~= s);
    if all_digits(s) && s.len() > 0 {
        assert(s[0] != '+');
    }
    if number_in(s) is Some && s.len() > 0 && s[0] == '+' {
        let digits = s.subrange(1, s.len() as int);
        assert forall|i: int| 0 <= i < s.len() implies is_digit(#[trigger] s[i]) || (i == 0 && s[i] == '+') by {
            if i > 0 {
                assert(digits[i - 1] == s[i]);
            }
        }
    }
    let ten = seq!['0', '1', '2', '3', '4', '5', '6', '7', '8', '9'];
    if is_digit(c) {
        assert(ten[(c as u32 - '0' as u32) as int] == c);
    }
}

} // verus!
