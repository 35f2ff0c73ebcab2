//! Links to private servers: the codes read from them, and the links written for a code.
//!
//! A server is reached by the code of a game link or by that of a share link. Which of the two a
//! code is, a flag tells.

use crate::pattern::{
    find_link, find_share_link, first_match, first_matched, found, is_cut, is_first_match,
    lemma_first_match, lemma_first_match_exists, lemma_whole_match, link_grammar, matches_at,
    share_grammar, spells, Class, GAME_ID,
};
use crate::text::{
    after_last, after_last_of, all_digits, before_first, before_first_of, holds_text, is_digit,
    is_first_at, law_text_holds_what_it_is_made_of, law_text_stands_where_it_is_written,
    law_what_precedes_the_first_character, lemma_after_last, lemma_last_exists, lemma_position,
    lemma_position_bounds, stands_at,
};
use vstd::prelude::*;

verus! {

/// The code in a link to a private server of the game.
pub open spec fn game_code(link: Seq<char>) -> Seq<char> {
    after_last_of(link, "LinkCode="@)
}

/// The code in a share link.
pub open spec fn share_code(link: Seq<char>) -> Seq<char> {
    before_first_of(after_last_of(link, "code="@), '&')
}

/// The code that a message leads to and whether it is that of a share link. A game link counts
/// before any share link.
pub open spec fn code_in(message: Seq<char>) -> Option<(Seq<char>, bool)> {
    match first_matched(link_grammar(), message) {
        Some(link) => Some((game_code(link), false)),
        None => match first_matched(share_grammar(), message) {
            Some(link) => Some((share_code(link), true)),
            None => None,
        },
    }
}

/// The address of a server's page.
pub open spec fn web_address(code: Seq<char>, share: bool) -> Seq<char> {
    if share {
        "https://www.roblox.com/share?code="@ + code + "&type=Server"@
    } else {
        "https://www.roblox.com/games/"@ + GAME_ID@ + "/Sols-RNG?privateServerLinkCode="@ + code
    }
}

/// The address by which the game itself is started. `escape` keeps a shell from reading the
/// ampersand as its own.
pub open spec fn game_address(code: Seq<char>, share: bool, escape: Seq<char>) -> Seq<char> {
    if share {
        "roblox://navigation/share_links?code="@ + code + escape + "&type=Server"@
    } else {
        "roblox://placeID="@ + GAME_ID@ + escape + "&linkCode="@ + code
    }
}

/// Reads the code from a link to a private server of the game.
pub fn read_game_code(link: &str) -> (res: String)
    ensures
        res@ == game_code(link@),
{
    after_last(link, "LinkCode=")
}

/// Reads the code from a share link.
pub fn read_share_code(link: &str) -> (res: String)
    ensures
        res@ == share_code(link@),
{
    before_first(after_last(link, "code=").as_str(), '&')
}

/// Takes the server code out of a message and sets the flag to whether it is that of a share
/// link. Where the message holds no link the flag stays as it is.
pub fn extract_server_code(message: &str, share_link_found: &mut bool) -> (res: Option<String>)
    ensures
        match code_in(message@) {
            Some((code, share)) => res is Some && res->0@ == code && *final(share_link_found) == share,
            None => res is None && *final(share_link_found) == *old(share_link_found),
        },
{
    if let Some(link) = find_link(message) {
        *share_link_found = false;
        return Some(read_game_code(link.as_str()));
    }
    if let Some(link) = find_share_link(message) {
        *share_link_found = true;
        return Some(read_share_code(link.as_str()));
    }
    None
}

/// Writes the address of a server's page.
pub fn write_web_address(code: &str, share: bool) -> (res: String)
    ensures
        res@ == web_address(code@, share),
{
    if share {
        "https://www.roblox.com/share?code=".to_owned().concat(code).concat("&type=Server")
    } else {
        "https://www.roblox.com/games/".to_owned().concat(GAME_ID).concat(
            "/Sols-RNG?privateServerLinkCode=",
        ).concat(code)
    }
}

/// Writes the address by which the game itself is started.
fn write_game_address(code: &str, share: bool, escape: &str) -> (res: String)
    ensures
        res@ == game_address(code@, share, escape@),
{
    if share {
        "roblox://navigation/share_links?code=".to_owned().concat(code).concat(escape).concat(
            "&type=Server",
        )
    } else {
        "roblox://placeID=".to_owned().concat(GAME_ID).concat(escape).concat("&linkCode=").concat(code)
    }
}

/// The line that has an emulator's shell start the game on a server.
pub open spec fn emulator_line(code: Seq<char>, share: bool) -> Seq<char> {
    "am start -a android.intent.action.VIEW "@ + game_address(code, share, "\\"@) + "\n"@
}

/// Writes the line that has an emulator's shell start the game on a server.
pub fn join_ldplayer(code: &str, share: bool) -> (res: String)
    ensures
        res@ == emulator_line(code@, share),
{
    "am start -a android.intent.action.VIEW ".to_owned().concat(
        write_game_address(code, share, "\\").as_str(),
    ).concat("\n")
}

/// The arguments with which `cmd` starts the game on a server.
pub open spec fn desktop_arguments(code: Seq<char>, share: bool) -> Seq<Seq<char>> {
    seq!["/C"@, "start"@, ""@, game_address(code, share, "^"@)]
}

/// Writes the arguments with which `cmd` starts the game on a server.
pub fn join_windows(code: &str, share: bool) -> (res: Vec<String>)
    ensures
        res@.map_values(|argument: String| argument@) == desktop_arguments(code@, share),
{
    let res = vec![
        "/C".to_owned(),
        "start".to_owned(),
        "".to_owned(),
        write_game_address(code, share, "^"),
    ];
    assert(res@.map_values(|argument: String| argument@) =~= desktop_arguments(code@, share));
    res
}

/// In a text that ends in `LinkCode=` and a code without that word in it, the code follows the
/// last `LinkCode=`.
proof fn lemma_game_code(link: Seq<char>, code: Seq<char>)
    requires
        link.len() >= code.len() + 9,
        link.subrange(link.len() - code.len() - 9, link.len() - code.len()) == "LinkCode="@,
        link.subrange(link.len() - code.len(), link.len() as int) == code,
        !holds_text(code, "LinkCode="@),
    ensures
        game_code(link) == code,
{
    reveal_strlit("LinkCode=");
    let word = "LinkCode="@;
    let start = link.len() - code.len();
    let at = start - 9;
    assert(stands_at(link, word, at));
    assert forall|later: int| later > at implies !stands_at(link, word, later) by {
        if stands_at(link, word, later) {
            assert(link.subrange(later, later + 9)[0] == 'L');
            if later < start {
                assert(link[later] == link.subrange(at, start)[later - at]);
            } else {
                assert(code.subrange(later - start, later - start + 9) =~= link.subrange(later, later + 9));
                assert(stands_at(code, word, later - start));
            }
        }
    }
    lemma_after_last(link, word, at);
}

/// In a text that ends in `code=`, a code and `&type=Server`, with neither `code=` nor an
/// ampersand in the code, the code is what `share_code` gives.
proof fn lemma_share_code(link: Seq<char>, code: Seq<char>)
    requires
        link.len() >= code.len() + 17,
        link.subrange(link.len() - code.len() - 17, link.len() - code.len() - 12) == "code="@,
        link.subrange(link.len() - code.len() - 12, link.len() as int) == code + "&type=Server"@,
        !holds_text(code, "code="@),
        !code.contains('&'),
    ensures
        share_code(link) == code,
{
    reveal_strlit("code=");
    reveal_strlit("&type=Server");
    let word = "code="@;
    let rest = code + "&type=Server"@;
    let start = link.len() - code.len() - 12;
    let at = start - 5;
    assert(stands_at(link, word, at));
    assert forall|k: int| start <= k < link.len() implies #[trigger] link[k] == rest[k - start] by {
        assert(link.subrange(start, link.len() as int)[k - start] == rest[k - start]);
    }
    assert forall|later: int| later > at implies !stands_at(link, word, later) by {
        if stands_at(link, word, later) {
            let part = link.subrange(later, later + 5);
            assert(part[0] == 'c' && part[4] == '=');
            assert(forall|k: int| 0 <= k < 5 ==> part[k] == link[later + k]);
            if later < start {
                assert(link[later] == link.subrange(at, start)[later - at]);
            } else if later + 5 <= start + code.len() {
                assert(code.subrange(later - start, later - start + 5) =~= part);
                assert(stands_at(code, word, later - start));
            } else {
                // The word would hold the ampersand or come after it, where there is no `c`.
                let amp = start + code.len();
                assert(link[amp] == '&');
                if later <= amp {
                    assert(part[amp - later] == '&');
                } else {
                    assert(link[later] == "&type=Server"@[later - amp]);
                }
            }
        }
    }
    lemma_after_last(link, word, at);
    assert(link.subrange(at + 5, link.len() as int) =~= rest);
    assert(is_first_at(rest, '&', code.len() as int)) by {
        assert(forall|k: int| 0 <= k < code.len() ==> rest[k] == code[k]);
    }
    lemma_position(rest, '&', code.len() as int);
    assert(rest.subrange(0, code.len() as int) =~= code);
}

/// The code is read back from the page address that is written for it, for every code of a game
/// link without the word `LinkCode=` in it.
pub proof fn law_game_code_read_back(code: Seq<char>)
    requires
        !holds_text(code, "LinkCode="@),
    ensures
        game_code(web_address(code, false)) == code,
{
    reveal_strlit("LinkCode=");
    reveal_strlit("/Sols-RNG?privateServerLinkCode=");
    let link = web_address(code, false);
    assert(link.subrange(link.len() - code.len() - 9, link.len() - code.len()) =~= "LinkCode="@);
    assert(link.subrange(link.len() - code.len(), link.len() as int) =~= code);
    lemma_game_code(link, code);
}

/// The code is read back from the page address that is written for it, for every code of a share
/// link without the word `code=` and without an ampersand in it.
pub proof fn law_share_code_read_back(code: Seq<char>)
    requires
        !holds_text(code, "code="@),
        !code.contains('&'),
    ensures
        share_code(web_address(code, true)) == code,
{
    reveal_strlit("code=");
    reveal_strlit("https://www.roblox.com/share?code=");
    reveal_strlit("&type=Server");
    let link = web_address(code, true);
    assert(link.subrange(link.len() - code.len() - 17, link.len() - code.len() - 12) =~= "code="@);
    assert(link.subrange(link.len() - code.len() - 12, link.len() as int) =~= code + "&type=Server"@);
    lemma_share_code(link, code);
}

/// A text for which the grammar of game links stands ends in `privateServerLinkCode=` and 32 digits.
proof fn lemma_game_pieces(link: Seq<char>)
    requires
        spells(link_grammar(), link),
    ensures
        link.len() >= 54,
        link.subrange(link.len() - 54, link.len() - 32) == "privateServerLinkCode="@,
        all_digits(link.subrange(link.len() - 32, link.len() as int)),
{
    let grammar = link_grammar();
    let (choice, cuts) = choose|choice: int, cuts: Seq<int>|
        0 <= choice < grammar.len() && #[trigger] is_cut(grammar[choice], link, cuts);
    let pieces = grammar[0];
    assert(choice == 0);
    assert(0 <= cuts[4] <= cuts[5] <= link.len());
    let word = link.subrange(cuts[4], cuts[5]);
    let code = link.subrange(cuts[5], cuts[6]);
    assert(pieces[4].fits(word));
    assert(pieces[5].fits(code));
    assert(word.len() == 22) by {
        reveal_strlit("privateServerLinkCode=");
    }
}

/// The code in a text that ends in `privateServerLinkCode=` and 32 digits is those digits.
proof fn lemma_game_tail(link: Seq<char>)
    requires
        link.len() >= 54,
        link.subrange(link.len() - 54, link.len() - 32) == "privateServerLinkCode="@,
        all_digits(link.subrange(link.len() - 32, link.len() as int)),
    ensures
        game_code(link) == link.subrange(link.len() - 32, link.len() as int),
{
    let code = link.subrange(link.len() - 32, link.len() as int);
    let word = link.subrange(link.len() - 54, link.len() - 32);
    assert(word.subrange(13, 22) == "LinkCode="@) by {
        reveal_strlit("privateServerLinkCode=");
        reveal_strlit("LinkCode=");
        assert(word.subrange(13, 22) =~= "LinkCode="@);
    }
    assert(link.subrange(link.len() - 41, link.len() - 32) =~= word.subrange(13, 22));
    lemma_digits_hold_no_word(code);
    lemma_game_code(link, code);
}

/// Digits do not hold the word `LinkCode=`.
proof fn lemma_digits_hold_no_word(code: Seq<char>)
    requires
        all_digits(code),
    ensures
        !holds_text(code, "LinkCode="@),
{
    reveal_strlit("LinkCode=");
    if holds_text(code, "LinkCode="@) {
        let at = choose|at: int| stands_at(code, "LinkCode="@, at);
        assert(code.subrange(at, at + 9)[0] == code[at]);
    }
}

/// What the code of the first game link in a message is made of.
proof fn lemma_game_link(message: Seq<char>)
    requires
        found(link_grammar(), message),
    ensures
        ({
            let code = game_code(first_matched(link_grammar(), message).unwrap());
            &&& code.len() == 32
            &&& all_digits(code)
            &&& holds_text(message, code)
        }),
{
    lemma_first_match_exists(link_grammar(), message);
    let (from, to) = first_match(link_grammar(), message);
    let link = message.subrange(from, to);
    lemma_game_pieces(link);
    lemma_game_tail(link);
    let code = link.subrange(link.len() - 32, link.len() as int);
    assert(message.subrange(to - 32, to) =~= code);
    assert(stands_at(message, code, to - 32));
}

/// A text for which the grammar of share links stands holds `code=` and no line feed.
proof fn lemma_share_pieces(link: Seq<char>)
    requires
        spells(share_grammar(), link),
    ensures
        !link.contains('\n'),
        holds_text(link, "code="@),
{
    let grammar = share_grammar();
    let (choice, cuts) = choose|choice: int, cuts: Seq<int>|
        0 <= choice < grammar.len() && #[trigger] is_cut(grammar[choice], link, cuts);
    let pieces = grammar[0];
    assert(choice == 0);
    assert(0 <= cuts[0] <= cuts[1] && 0 <= cuts[2] <= cuts[3] && 0 <= cuts[4] <= cuts[5]);
    assert(pieces[0].fits(link.subrange(cuts[0], cuts[1])));
    assert(pieces[1].fits(link.subrange(cuts[1], cuts[2])));
    assert(pieces[2].fits(link.subrange(cuts[2], cuts[3])));
    assert(pieces[3].fits(link.subrange(cuts[3], cuts[4])));
    assert(pieces[4].fits(link.subrange(cuts[4], cuts[5])));
    lemma_share_texts();
    assert forall|k: int| 0 <= k < link.len() implies link[k] != '\n' by {
        if k < cuts[1] {
            let part = link.subrange(cuts[0], cuts[1]);
            assert(part.contains(part[k]));
        } else if k < cuts[2] {
            assert(Class::InLine.has(link.subrange(cuts[1], cuts[2])[k - cuts[1]]));
        } else if k < cuts[3] {
            let part = link.subrange(cuts[2], cuts[3]);
            assert(part.contains(part[k - cuts[2]]));
        } else if k < cuts[4] {
            assert(Class::InLine.has(link.subrange(cuts[3], cuts[4])[k - cuts[3]]));
        } else {
            let part = link.subrange(cuts[4], cuts[5]);
            assert(part.contains(part[k - cuts[4]]));
        }
    }
    let word = link.subrange(cuts[2], cuts[3]);
    assert(link.subrange(cuts[3] - 5, cuts[3]) =~= word.subrange(17, 22));
    assert(stands_at(link, "code="@, cuts[3] - 5));
}

/// What is used of the texts in the grammar of share links.
proof fn lemma_share_texts()
    ensures
        !"https://"@.contains('\n'),
        !"roblox.com/share?code="@.contains('\n'),
        !"type=Server"@.contains('\n'),
        "roblox.com/share?code="@.len() == 22,
        "roblox.com/share?code="@.subrange(17, 22) == "code="@,
        "code="@.len() == 5,
{
    reveal_strlit("https://");
    reveal_strlit("roblox.com/share?code=");
    reveal_strlit("type=Server");
    reveal_strlit("code=");
    assert("roblox.com/share?code="@.subrange(17, 22) =~= "code="@);
}

/// The code in a text that holds `code=` and no line feed.
proof fn lemma_share_tail(link: Seq<char>)
    requires
        !link.contains('\n'),
        holds_text(link, "code="@),
    ensures
        !share_code(link).contains('&'),
        !share_code(link).contains('\n'),
        !holds_text(share_code(link), "code="@),
        holds_text(link, share_code(link)),
{
    let word = "code="@;
    let some = choose|some: int| stands_at(link, word, some);
    let at = lemma_last_exists(link, word, some);
    lemma_after_last(link, word, at);
    let from = at + word.len();
    let rest = link.subrange(from, link.len() as int);
    lemma_position_bounds(rest, '&');
    let code = share_code(link);
    assert(code =~= rest.subrange(0, code.len() as int));
    assert(code =~= link.subrange(from, from + code.len()));
    assert forall|k: int| 0 <= k < code.len() implies code[k] != '\n' && code[k] != '&' by {
        assert(code[k] == rest[k]);
        assert(link.contains(link[from + k]));
        assert(rest[k] == link[from + k]);
    }
    if holds_text(code, word) {
        let inner = choose|inner: int| stands_at(code, word, inner);
        assert(link.subrange(from + inner, from + inner + word.len()) =~= code.subrange(
            inner,
            inner + word.len(),
        ));
        assert(stands_at(link, word, from + inner));
        assert(word.len() == 5) by {
            reveal_strlit("code=");
        }
    }
    assert(stands_at(link, code, from));
}

/// What the code of the first share link in a message is made of.
proof fn lemma_share_link(message: Seq<char>)
    requires
        found(share_grammar(), message),
    ensures
        ({
            let code = share_code(first_matched(share_grammar(), message).unwrap());
            &&& !code.contains('&')
            &&& !code.contains('\n')
            &&& !holds_text(code, "code="@)
            &&& holds_text(message, code)
        }),
{
    lemma_first_match_exists(share_grammar(), message);
    let (from, to) = first_match(share_grammar(), message);
    let link = message.subrange(from, to);
    lemma_share_pieces(link);
    lemma_share_tail(link);
    let code = share_code(link);
    let at = choose|at: int| stands_at(link, code, at);
    assert(message.subrange(from + at, from + at + code.len()) =~= link.subrange(at, at + code.len()));
    assert(stands_at(message, code, from + at));
}

/// The code of a share link holds no ampersand, no `code=` and no line feed, whatever the message.
pub proof fn law_share_code_is_plain(message: Seq<char>)
    ensures
        code_in(message) matches Some((code, true)) ==> {
            &&& !code.contains('&')
            &&& !code.contains('\n')
            &&& !holds_text(code, "code="@)
        },
{
    if found(share_grammar(), message) {
        lemma_share_link(message);
    }
}

/// A server code stands in the message that it was taken from.
pub proof fn law_code_stands_in_message(message: Seq<char>)
    ensures
        code_in(message) matches Some((code, _)) ==> holds_text(message, code),
{
    if found(link_grammar(), message) {
        lemma_game_link(message);
    } else if found(share_grammar(), message) {
        lemma_share_link(message);
    }
}

/// A message with a game link in it leads to the code of a game link, whatever share links are in
/// it; one with a share link only leads to the code of a share link; one with neither leads nowhere.
pub proof fn law_game_link_counts_first(message: Seq<char>)
    ensures
        found(link_grammar(), message) <==> (code_in(message) matches Some((_, false))),
        !found(link_grammar(), message) && found(share_grammar(), message) <==> (code_in(message) matches Some(
            (_, true),
        )),
{
}

/// The page address written for a code of 32 digits, sent as a message, leads to that code.
pub proof fn law_game_address_is_found(code: Seq<char>)
    requires
        code.len() == 32,
        all_digits(code),
    ensures
        code_in(web_address(code, false)) == Some((code, false)),
{
    let message = web_address(code, false);
    let pieces = link_grammar()[0];
    reveal_strlit("https://");
    reveal_strlit("https://www.roblox.com/games/");
    reveal_strlit("roblox.com/games/");
    reveal_strlit("15532962292");
    reveal_strlit("/");
    reveal_strlit("/Sols-RNG?privateServerLinkCode=");
    reveal_strlit("privateServerLinkCode=");
    let cuts = seq![0int, 8, 12, 41, 50, 72, 104];
    assert(message.subrange(0, 8) =~= "https://"@);
    assert(message.subrange(12, 41) =~= "roblox.com/games/"@ + GAME_ID@ + "/"@);
    assert(message.subrange(50, 72) =~= "privateServerLinkCode="@);
    assert(message.subrange(72, 104) =~= code);
    assert(pieces[1].fits(message.subrange(8, 12)));
    assert(pieces[3].fits(message.subrange(41, 50)));
    assert(is_cut(link_grammar()[0], message, cuts));
    assert(spells(link_grammar(), message));
    lemma_whole_match(link_grammar(), message);
    lemma_digits_hold_no_word(code);
    law_game_code_read_back(code);
}

/// The page address written for the code of a share link, sent as a message, leads to that code,
/// unless the code holds `code=`, an ampersand, a line feed or a game link.
pub proof fn law_share_address_is_found(code: Seq<char>)
    requires
        !holds_text(code, "code="@),
        !code.contains('&'),
        !code.contains('\n'),
        !found(link_grammar(), web_address(code, true)),
    ensures
        code_in(web_address(code, true)) == Some((code, true)),
{
    let message = web_address(code, true);
    let pieces = share_grammar()[0];
    reveal_strlit("https://");
    reveal_strlit("https://www.roblox.com/share?code=");
    reveal_strlit("roblox.com/share?code=");
    reveal_strlit("&type=Server");
    reveal_strlit("type=Server");
    let n = code.len() as int;
    let cuts = seq![0int, 8, 12, 34, 35 + n, 46 + n];
    assert(message.subrange(0, 8) =~= "https://"@);
    assert(message.subrange(12, 34) =~= "roblox.com/share?code="@);
    assert(message.subrange(35 + n, 46 + n) =~= "type=Server"@);
    assert(pieces[1].fits(message.subrange(8, 12)));
    let run = message.subrange(34, 35 + n);
    assert forall|k: int| 0 <= k < run.len() implies Class::InLine.has(#[trigger] run[k]) by {
        if k < n {
            assert(run[k] == code[k]);
        }
    }
    assert(is_cut(share_grammar()[0], message, cuts));
    assert(spells(share_grammar(), message));
    lemma_whole_match(share_grammar(), message);
    law_share_code_read_back(code);
}

/// The word before the code of a game link does not stand in the page address of a share link
/// whose code holds no equals sign.
proof fn lemma_share_address_is_no_game_link(code: Seq<char>)
    requires
        !code.contains('='),
    ensures
        !holds_text(web_address(code, true), "privateServerLinkCode="@),
{
    let address = web_address(code, true);
    let word = "privateServerLinkCode="@;
    let n = code.len() as int;
    reveal_strlit("https://www.roblox.com/share?code=");
    reveal_strlit("&type=Server");
    reveal_strlit("privateServerLinkCode=");
    if holds_text(address, word) {
        let at = choose|at: int| stands_at(address, word, at);
        let part = address.subrange(at, at + 22);
        assert(part[17] == 'C' && part[19] == 'd' && part[21] == '=');
        let last = at + 21;
        assert(address[last] == '=' && address[last - 2] == 'd' && address[last - 4] == 'C');
        if last < 34 {
            assert(address[last] == "https://www.roblox.com/share?code="@[last]);
            assert(last == 33);
            assert(address[29] == 'c');
        } else if last < 34 + n {
            assert(address[last] == code[last - 34]);
            assert(code.contains(code[last - 34]));
        } else {
            assert(address[last] == "&type=Server"@[last - 34 - n]);
            assert(last == 39 + n);
            assert(address[37 + n] == 'p');
        }
    }
}

/// The page address written for the code of a share link, sent as a message, leads to that code,
/// for every code without an equals sign, an ampersand and a line feed.
pub proof fn law_plain_share_address_is_found(code: Seq<char>)
    requires
        !code.contains('='),
        !code.contains('&'),
        !code.contains('\n'),
    ensures
        code_in(web_address(code, true)) == Some((code, true)),
{
    let message = web_address(code, true);
    lemma_share_address_is_no_game_link(code);
    if found(link_grammar(), message) {
        let word = "privateServerLinkCode="@;
        let (from, to) = choose|from: int, to: int| matches_at(link_grammar(), message, from, to);
        let link = message.subrange(from, to);
        lemma_game_pieces(link);
        assert(word.len() == 22) by {
            reveal_strlit("privateServerLinkCode=");
        }
        assert(message.subrange(to - 54, to - 32) =~= link.subrange(link.len() - 54, link.len() - 32));
        assert(stands_at(message, word, to - 54));
    }
    assert(!holds_text(code, "code="@)) by {
        reveal_strlit("code=");
        if holds_text(code, "code="@) {
            let at = choose|at: int| stands_at(code, "code="@, at);
            assert(code.subrange(at, at + 5)[4] == code[at + 4]);
            assert(code.contains(code[at + 4]));
        }
    }
    law_share_address_is_found(code);
}

/// The code of a game link is made of 32 digits, whatever the message.
pub proof fn law_game_code_is_digits(message: Seq<char>)
    ensures
        code_in(message) matches Some((code, false)) ==> code.len() == 32 && all_digits(code),
{
    if found(link_grammar(), message) {
        lemma_game_link(message);
    }
}

/// Every address that is written for a code carries the code.
pub proof fn law_addresses_carry_the_code(code: Seq<char>, share: bool)
    ensures
        holds_text(web_address(code, share), code),
        holds_text(emulator_line(code, share), code),
        holds_text(desktop_arguments(code, share)[3], code),
{
    let web = web_address(code, share);
    let line = emulator_line(code, share);
    let desktop = desktop_arguments(code, share)[3];
    if share {
        let at = "https://www.roblox.com/share?code="@.len() as int;
        assert(web.subrange(at, at + code.len()) =~= code);
        assert(stands_at(web, code, at));
        let at = "roblox://navigation/share_links?code="@.len() as int;
        assert(desktop.subrange(at, at + code.len()) =~= code);
        assert(stands_at(desktop, code, at));
        let from = "am start -a android.intent.action.VIEW "@.len() + at;
        assert(line.subrange(from, from + code.len()) =~= code);
        assert(stands_at(line, code, from));
    } else {
        let at = web.len() - code.len();
        assert(web.subrange(at, at + code.len()) =~= code);
        assert(stands_at(web, code, at));
        let at = desktop.len() - code.len();
        assert(desktop.subrange(at, at + code.len()) =~= code);
        assert(stands_at(desktop, code, at));
        let from = line.len() - "\n"@.len() - code.len();
        assert(line.subrange(from, from + code.len()) =~= code);
        assert(stands_at(line, code, from));
    }
}

/// What is written to an emulator's shell for a code taken from a message is one line, whatever
/// the message: a line feed stands at its end and nowhere else.
pub proof fn law_emulator_line_is_one_line(message: Seq<char>)
    ensures
        code_in(message) matches Some((code, share)) ==> {
            let line = emulator_line(code, share);
            &&& line.len() > 0
            &&& forall|i: int| 0 <= i < line.len() ==> (#[trigger] line[i] == '\n' <==> i == line.len() - 1)
        },
{
    if let Some((code, share)) = code_in(message) {
        law_game_code_is_digits(message);
        law_share_code_is_plain(message);
        assert forall|i: int| 0 <= i < code.len() implies #[trigger] code[i] != '\n' by {
            if share {
                assert(code.contains(code[i]));
            } else {
                assert(is_digit(code[i]));
            }
        }
        reveal_strlit("am start -a android.intent.action.VIEW ");
        reveal_strlit("roblox://navigation/share_links?code=");
        reveal_strlit("\\");
        reveal_strlit("&type=Server");
        reveal_strlit("roblox://placeID=");
        reveal_strlit("15532962292");
        reveal_strlit("&linkCode=");
        reveal_strlit("\n");
        let head = "am start -a android.intent.action.VIEW "@;
        let address = game_address(code, share, "\\"@);
        assert forall|i: int| 0 <= i < address.len() implies #[trigger] address[i] != '\n' by {}
        let line = emulator_line(code, share);
        assert forall|i: int| 0 <= i < line.len() implies (#[trigger] line[i] == '\n' <==> i == line.len() - 1) by {
            if i < head.len() {
                assert(line[i] == head[i]);
            } else if i < head.len() + address.len() {
                assert(line[i] == address[i - head.len()]);
            }
        }
    }
}

/// Whether a game link stands in a message from `from` to `to`, with the game's page at `page` and
/// the word before the code at `word`: all on one line, with 32 digits at its end.
pub open spec fn is_game_link(message: Seq<char>, from: int, page: int, word: int, to: int) -> bool {
    &&& stands_at(message, "https://"@, from)
    &&& from + 8 <= page
    &&& stands_at(message, "roblox.com/games/15532962292/"@, page)
    &&& page + 29 <= word
    &&& stands_at(message, "privateServerLinkCode="@, word)
    &&& to == word + 54
    &&& to <= message.len()
    &&& forall|k: int| word + 22 <= k < to ==> '0' <= #[trigger] message[k] <= '9'
    &&& forall|k: int| from <= k < to ==> #[trigger] message[k] != '\n'
}

/// Whether a game link stands in a message from `from` to `to`.
pub open spec fn game_link_at(message: Seq<char>, from: int, to: int) -> bool {
    exists|page: int, word: int| #[trigger] is_game_link(message, from, page, word, to)
}

/// Whether the game link from `from` to `to` is the first in a message: none starts before it, and
/// none that starts with it reaches further.
pub open spec fn is_first_game_link(message: Seq<char>, from: int, to: int) -> bool {
    &&& game_link_at(message, from, to)
    &&& forall|f: int, t: int| #[trigger] game_link_at(message, f, t) ==> from < f || (from == f && t <= to)
}

/// Whether a share link stands in a message from `from` to `to`, with the share page at `page`:
/// all on one line, with the kind of what is shared at its end.
pub open spec fn is_share_link(message: Seq<char>, from: int, page: int, to: int) -> bool {
    &&& stands_at(message, "https://"@, from)
    &&& from + 8 <= page
    &&& stands_at(message, "roblox.com/share?code="@, page)
    &&& page + 22 <= to - 11
    &&& stands_at(message, "type=Server"@, to - 11)
    &&& forall|k: int| from <= k < to ==> #[trigger] message[k] != '\n'
}

/// Whether a share link stands in a message from `from` to `to`.
pub open spec fn share_link_at(message: Seq<char>, from: int, to: int) -> bool {
    exists|page: int| #[trigger] is_share_link(message, from, page, to)
}

/// Whether the share link from `from` to `to` is the first in a message: none starts before it, and
/// none that starts with it reaches further.
pub open spec fn is_first_share_link(message: Seq<char>, from: int, to: int) -> bool {
    &&& share_link_at(message, from, to)
    &&& forall|f: int, t: int| #[trigger] share_link_at(message, f, t) ==> from < f || (from == f && t <= to)
}

/// Whether `code` is what stands in a link behind the last `code=`, which follows `before`, up to the
/// next ampersand, with which `rest` starts, or, where none comes, to the end.
pub open spec fn is_shared_code(link: Seq<char>, before: Seq<char>, code: Seq<char>, rest: Seq<char>) -> bool {
    &&& link == before + "code="@ + code + rest
    &&& rest.len() == 0 || rest[0] == '&'
    &&& !code.contains('&')
    &&& !holds_text(code + rest, "code="@)
}

/// Whether `code` is what stands in a link behind the last `code=`, up to the next ampersand or the
/// end.
pub open spec fn is_code_shared_by(link: Seq<char>, code: Seq<char>) -> bool {
    exists|before: Seq<char>, rest: Seq<char>| #[trigger] is_shared_code(link, before, code, rest)
}

/// What is used of the texts in the grammar of game links.
proof fn lemma_game_texts()
    ensures
        "https://"@.len() == 8,
        "roblox.com/games/15532962292/"@.len() == 29,
        "privateServerLinkCode="@.len() == 22,
        "roblox.com/games/"@ + GAME_ID@ + "/"@ == "roblox.com/games/15532962292/"@,
        forall|k: int| 0 <= k < 8 ==> #[trigger] "https://"@[k] != '\n',
        forall|k: int| 0 <= k < 29 ==> #[trigger] "roblox.com/games/15532962292/"@[k] != '\n',
        forall|k: int| 0 <= k < 22 ==> #[trigger] "privateServerLinkCode="@[k] != '\n',
{
    reveal_strlit("https://");
    reveal_strlit("roblox.com/games/");
    reveal_strlit("15532962292");
    reveal_strlit("/");
    reveal_strlit("roblox.com/games/15532962292/");
    reveal_strlit("privateServerLinkCode=");
    assert("roblox.com/games/"@ + GAME_ID@ + "/"@ =~= "roblox.com/games/15532962292/"@);
}

/// Where the grammar of game links stands for a part of a message, that part is a game link.
proof fn lemma_match_is_game_link(message: Seq<char>, from: int, to: int)
    requires
        matches_at(link_grammar(), message, from, to),
    ensures
        game_link_at(message, from, to),
{
    lemma_game_texts();
    let grammar = link_grammar();
    let pieces = grammar[0];
    let link = message.subrange(from, to);
    let (choice, cuts) = choose|choice: int, cuts: Seq<int>|
        0 <= choice < grammar.len() && #[trigger] is_cut(grammar[choice], link, cuts);
    assert(choice == 0);
    assert(0 <= cuts[0] <= cuts[1] && cuts[1] <= cuts[2] && cuts[2] <= cuts[3]);
    assert(cuts[3] <= cuts[4] && cuts[4] <= cuts[5] && cuts[5] <= cuts[6] <= link.len());
    let scheme = link.subrange(cuts[0], cuts[1]);
    let first = link.subrange(cuts[1], cuts[2]);
    let host = link.subrange(cuts[2], cuts[3]);
    let second = link.subrange(cuts[3], cuts[4]);
    let name = link.subrange(cuts[4], cuts[5]);
    let code = link.subrange(cuts[5], cuts[6]);
    assert(pieces[0].fits(scheme) && pieces[1].fits(first) && pieces[2].fits(host));
    assert(pieces[3].fits(second) && pieces[4].fits(name) && pieces[5].fits(code));
    let page = from + cuts[2];
    let word = from + cuts[4];
    assert(message.subrange(from, from + 8) =~= scheme);
    assert(message.subrange(page, page + 29) =~= host);
    assert(message.subrange(word, word + 22) =~= name);
    assert forall|k: int| word + 22 <= k < to implies '0' <= #[trigger] message[k] <= '9' by {
        assert(code[k - from - cuts[5]] == message[k]);
    }
    assert forall|k: int| from <= k < to implies #[trigger] message[k] != '\n' by {
        if k < from + cuts[1] {
            assert(scheme[k - from] == message[k]);
        } else if k < from + cuts[2] {
            assert(first[k - from - cuts[1]] == message[k]);
        } else if k < from + cuts[3] {
            assert(host[k - from - cuts[2]] == message[k]);
        } else if k < from + cuts[4] {
            assert(second[k - from - cuts[3]] == message[k]);
        } else if k < from + cuts[5] {
            assert(name[k - from - cuts[4]] == message[k]);
        } else {
            assert(code[k - from - cuts[5]] == message[k]);
        }
    }
    assert(is_game_link(message, from, page, word, to));
}

/// The grammar of game links stands for every game link.
proof fn lemma_game_link_is_match(message: Seq<char>, from: int, page: int, word: int, to: int)
    requires
        is_game_link(message, from, page, word, to),
    ensures
        matches_at(link_grammar(), message, from, to),
{
    lemma_game_texts();
    let pieces = link_grammar()[0];
    let link = message.subrange(from, to);
    let cuts = seq![0, 8, page - from, page - from + 29, word - from, word - from + 22, to - from];
    assert(link.subrange(0, 8) =~= message.subrange(from, from + 8));
    assert(link.subrange(cuts[2], cuts[3]) =~= message.subrange(page, page + 29));
    assert(link.subrange(cuts[4], cuts[5]) =~= message.subrange(word, word + 22));
    assert(pieces[1].fits(link.subrange(cuts[1], cuts[2])));
    assert(pieces[3].fits(link.subrange(cuts[3], cuts[4])));
    assert(pieces[5].fits(link.subrange(cuts[5], cuts[6])));
    assert(is_cut(link_grammar()[0], link, cuts));
    assert(spells(link_grammar(), link));
}

/// The grammar of game links stands for the parts of a message that are game links.
proof fn lemma_game_links(message: Seq<char>)
    ensures
        forall|from: int, to: int|
            matches_at(link_grammar(), message, from, to) <==> #[trigger] game_link_at(message, from, to),
        found(link_grammar(), message) <==> exists|from: int, to: int| game_link_at(message, from, to),
{
    assert forall|from: int, to: int|
        matches_at(link_grammar(), message, from, to) <==> #[trigger] game_link_at(message, from, to) by {
        if matches_at(link_grammar(), message, from, to) {
            lemma_match_is_game_link(message, from, to);
        }
        if game_link_at(message, from, to) {
            let (page, word) = choose|page: int, word: int|
                #[trigger] is_game_link(message, from, page, word, to);
            lemma_game_link_is_match(message, from, page, word, to);
        }
    }
    if found(link_grammar(), message) {
        let (from, to) = choose|from: int, to: int| matches_at(link_grammar(), message, from, to);
        assert(game_link_at(message, from, to));
    }
}

/// Where the grammar of share links stands for a part of a message, that part is a share link.
proof fn lemma_match_is_share_link(message: Seq<char>, from: int, to: int)
    requires
        matches_at(share_grammar(), message, from, to),
    ensures
        share_link_at(message, from, to),
{
    reveal_strlit("https://");
    reveal_strlit("type=Server");
    lemma_share_texts();
    let grammar = share_grammar();
    let pieces = grammar[0];
    let link = message.subrange(from, to);
    lemma_share_pieces(link);
    let (choice, cuts) = choose|choice: int, cuts: Seq<int>|
        0 <= choice < grammar.len() && #[trigger] is_cut(grammar[choice], link, cuts);
    assert(choice == 0);
    assert(0 <= cuts[0] <= cuts[1] && cuts[1] <= cuts[2] && cuts[2] <= cuts[3]);
    assert(cuts[3] <= cuts[4] && cuts[4] <= cuts[5] <= link.len());
    let scheme = link.subrange(cuts[0], cuts[1]);
    let host = link.subrange(cuts[2], cuts[3]);
    let kind = link.subrange(cuts[4], cuts[5]);
    assert(pieces[0].fits(scheme) && pieces[2].fits(host) && pieces[4].fits(kind));
    let page = from + cuts[2];
    assert(message.subrange(from, from + 8) =~= scheme);
    assert(message.subrange(page, page + 22) =~= host);
    assert(message.subrange(to - 11, to) =~= kind);
    assert forall|k: int| from <= k < to implies #[trigger] message[k] != '\n' by {
        assert(link.contains(link[k - from]));
    }
    assert(is_share_link(message, from, page, to));
}

/// The grammar of share links stands for every share link.
proof fn lemma_share_link_is_match(message: Seq<char>, from: int, page: int, to: int)
    requires
        is_share_link(message, from, page, to),
    ensures
        matches_at(share_grammar(), message, from, to),
{
    reveal_strlit("https://");
    reveal_strlit("type=Server");
    lemma_share_texts();
    let pieces = share_grammar()[0];
    let link = message.subrange(from, to);
    let cuts = seq![0, 8, page - from, page - from + 22, to - from - 11, to - from];
    assert(link.subrange(0, 8) =~= message.subrange(from, from + 8));
    assert(link.subrange(cuts[2], cuts[3]) =~= message.subrange(page, page + 22));
    assert(link.subrange(cuts[4], cuts[5]) =~= message.subrange(to - 11, to));
    assert(pieces[1].fits(link.subrange(cuts[1], cuts[2])));
    assert(pieces[3].fits(link.subrange(cuts[3], cuts[4])));
    assert(is_cut(share_grammar()[0], link, cuts));
    assert(spells(share_grammar(), link));
}

/// The grammar of share links stands for the parts of a message that are share links.
proof fn lemma_share_links(message: Seq<char>)
    ensures
        forall|from: int, to: int|
            matches_at(share_grammar(), message, from, to) <==> #[trigger] share_link_at(message, from, to),
        found(share_grammar(), message) <==> exists|from: int, to: int| share_link_at(message, from, to),
{
    assert forall|from: int, to: int|
        matches_at(share_grammar(), message, from, to) <==> #[trigger] share_link_at(message, from, to) by {
        if matches_at(share_grammar(), message, from, to) {
            lemma_match_is_share_link(message, from, to);
        }
        if share_link_at(message, from, to) {
            let page = choose|page: int| #[trigger] is_share_link(message, from, page, to);
            lemma_share_link_is_match(message, from, page, to);
        }
    }
    if found(share_grammar(), message) {
        let (from, to) = choose|from: int, to: int| matches_at(share_grammar(), message, from, to);
        assert(share_link_at(message, from, to));
    }
}

/// A message leads to a game link's code exactly where it holds a game link. The code is the 32
/// digits at the end of the link that starts first and, of those, reaches furthest.
pub proof fn law_first_game_link_gives_its_digits(message: Seq<char>)
    ensures
        (code_in(message) matches Some((_, false))) <==> exists|from: int, to: int| game_link_at(message, from, to),
        code_in(message) matches Some((code, false)) ==> exists|from: int, to: int|
            #[trigger] is_first_game_link(message, from, to) && code == message.subrange(to - 32, to),
{
    lemma_game_links(message);
    if found(link_grammar(), message) {
        lemma_first_match_exists(link_grammar(), message);
        let (from, to) = first_match(link_grammar(), message);
        let link = message.subrange(from, to);
        lemma_game_pieces(link);
        lemma_game_tail(link);
        assert(is_first_game_link(message, from, to));
        assert(message.subrange(to - 32, to) =~= link.subrange(link.len() - 32, link.len() as int));
    }
}

/// The code of a link with `code=` in it is all that stands behind the last one, up to the next
/// ampersand or to the end.
proof fn lemma_shared_code(link: Seq<char>)
    requires
        holds_text(link, "code="@),
    ensures
        is_code_shared_by(link, share_code(link)),
{
    let word = "code="@;
    let some = choose|some: int| stands_at(link, word, some);
    let at = lemma_last_exists(link, word, some);
    lemma_after_last(link, word, at);
    assert(word.len() == 5) by {
        reveal_strlit("code=");
    }
    let from = at + word.len();
    let tail = link.subrange(from, link.len() as int);
    lemma_position_bounds(tail, '&');
    let code = share_code(link);
    let before = link.subrange(0, at);
    let rest = tail.subrange(code.len() as int, tail.len() as int);
    assert(code =~= tail.subrange(0, code.len() as int));
    assert(code + rest =~= tail);
    assert(link =~= before + word + code + rest) by {
        assert(link.subrange(at, at + word.len()) == word);
        assert forall|k: int| 0 <= k < word.len() implies link[at + k] == #[trigger] word[k] by {
            assert(link.subrange(at, at + word.len())[k] == word[k]);
        }
    }
    if holds_text(tail, word) {
        let inner = choose|inner: int| stands_at(tail, word, inner);
        assert(link.subrange(from + inner, from + inner + word.len()) =~= tail.subrange(
            inner,
            inner + word.len(),
        ));
        assert(stands_at(link, word, from + inner));
    }
    assert(is_shared_code(link, before, code, rest));
}

/// The first share link in a message without a game link gives the code.
proof fn lemma_first_share_link(message: Seq<char>) -> (res: (int, int))
    requires
        !found(link_grammar(), message),
        found(share_grammar(), message),
    ensures
        is_first_share_link(message, res.0, res.1),
        holds_text(message.subrange(res.0, res.1), "code="@),
        code_in(message) == Some((share_code(message.subrange(res.0, res.1)), true)),
{
    lemma_share_links(message);
    lemma_first_match_exists(share_grammar(), message);
    let (from, to) = first_match(share_grammar(), message);
    lemma_share_pieces(message.subrange(from, to));
    assert(share_link_at(message, from, to));
    assert forall|f: int, t: int| #[trigger] share_link_at(message, f, t) implies from < f || (from == f && t
        <= to) by {
        assert(matches_at(share_grammar(), message, f, t));
    }
    (from, to)
}

/// A message leads to a share link's code exactly where it holds a share link and no game link; one
/// with neither leads nowhere.
pub proof fn law_share_link_counts_without_a_game_link(message: Seq<char>)
    ensures
        (code_in(message) matches Some((_, true))) <==> {
            &&& forall|from: int, to: int| !game_link_at(message, from, to)
            &&& exists|from: int, to: int| share_link_at(message, from, to)
        },
        code_in(message) is None <==> {
            &&& forall|from: int, to: int| !game_link_at(message, from, to)
            &&& forall|from: int, to: int| !share_link_at(message, from, to)
        },
{
    lemma_game_links(message);
    lemma_share_links(message);
}

/// The code of a share link that a message leads to is, in the share link that starts first and, of
/// those, reaches furthest, all that stands behind the last `code=`, up to the next ampersand.
pub proof fn law_first_share_link_gives_its_whole_code(message: Seq<char>)
    ensures
        code_in(message) matches Some((code, true)) ==> exists|from: int, to: int|
            #[trigger] is_first_share_link(message, from, to) && is_code_shared_by(message.subrange(from, to), code),
{
    if !found(link_grammar(), message) && found(share_grammar(), message) {
        let (from, to) = lemma_first_share_link(message);
        let link = message.subrange(from, to);
        lemma_shared_code(link);
        assert(is_code_shared_by(link, share_code(link)));
    }
}

/// The code of a game link is all that stands behind the last `LinkCode=`, and all of a text without
/// that word.
pub proof fn law_game_code_follows_the_last_word(before: Seq<char>, code: Seq<char>)
    ensures
        !holds_text(code, "LinkCode="@) ==> game_code(before + "LinkCode="@ + code) == code,
        !holds_text(before, "LinkCode="@) ==> game_code(before) == before,
{
    reveal_strlit("LinkCode=");
    if !holds_text(code, "LinkCode="@) {
        let link = before + "LinkCode="@ + code;
        assert(link.subrange(link.len() - code.len() - 9, link.len() - code.len()) =~= "LinkCode="@);
        assert(link.subrange(link.len() - code.len(), link.len() as int) =~= code);
        lemma_game_code(link, code);
    }
}

/// The code of a share link is all that stands behind the last `code=`, up to the next ampersand or
/// the end; in a text without that word it is all up to the first ampersand or the end.
pub proof fn law_share_code_follows_the_last_word(link: Seq<char>, code: Seq<char>)
    ensures
        holds_text(link, "code="@) ==> is_code_shared_by(link, share_code(link)),
        !holds_text(link, "code="@) && !code.contains('&') ==> {
            &&& forall|rest: Seq<char>| #[trigger] (code + rest) == link && (rest.len() == 0 || rest[0] == '&')
                ==> share_code(link) == code
        },
{
    if holds_text(link, "code="@) {
        lemma_shared_code(link);
    } else if !code.contains('&') {
        assert forall|rest: Seq<char>| #[trigger] (code + rest) == link && (rest.len() == 0 || rest[0]
            == '&') implies share_code(link) == code by {
            if rest.len() == 0 {
                assert(link =~= code);
                law_what_precedes_the_first_character(code, '&', rest);
            } else {
                let after = rest.subrange(1, rest.len() as int);
                assert(link =~= code + seq!['&'] + after);
                law_what_precedes_the_first_character(code, '&', after);
            }
        }
    }
}

/// Two places of a word whose first character does not come again in it do not overlap.
proof fn lemma_places_are_apart(s: Seq<char>, word: Seq<char>, a: int, b: int)
    requires
        word.len() > 0,
        forall|k: int| 0 < k < word.len() ==> #[trigger] word[k] != word[0],
        stands_at(s, word, a),
        stands_at(s, word, b),
        a < b,
    ensures
        a + word.len() <= b,
{
    if b < a + word.len() {
        assert(s.subrange(a, a + word.len())[b - a] == s[b]);
        assert(s.subrange(b, b + word.len())[0] == s[b]);
    }
}

/// A word that stands past the front of a text stands in what follows the front.
proof fn lemma_stands_behind(front: Seq<char>, back: Seq<char>, word: Seq<char>, at: int)
    requires
        stands_at(front + back, word, at),
        at >= front.len(),
    ensures
        stands_at(back, word, at - front.len()),
{
    let s = front + back;
    let inner = at - front.len();
    assert(back.subrange(inner, inner + word.len()) =~= s.subrange(at, at + word.len()));
}

/// A word that ends within the front of a text stands in the front.
proof fn lemma_stands_in_front(front: Seq<char>, back: Seq<char>, word: Seq<char>, at: int)
    requires
        stands_at(front + back, word, at),
        at + word.len() <= front.len(),
    ensures
        stands_at(front, word, at),
{
    let s = front + back;
    assert(front.subrange(at, at + word.len()) =~= s.subrange(at, at + word.len()));
}

/// In a text that goes on with `https://` after a front without it, no link starts in the front.
proof fn lemma_no_link_in_front(front: Seq<char>, back: Seq<char>)
    requires
        !holds_text(front, "https://"@),
        stands_at(back, "https://"@, 0),
    ensures
        forall|at: int| at < front.len() ==> !(#[trigger] stands_at(front + back, "https://"@, at)),
{
    let word = "https://"@;
    let s = front + back;
    let n = front.len() as int;
    reveal_strlit("https://");
    assert(s.subrange(n, n + 8) =~= back.subrange(0, 8));
    assert(stands_at(s, word, n));
    assert forall|at: int| at < front.len() implies !(#[trigger] stands_at(s, word, at)) by {
        if stands_at(s, word, at) {
            lemma_places_are_apart(s, word, at, n);
            lemma_stands_in_front(front, back, word, at);
        }
    }
}

/// The share link that stands in a message as a page address, with text around it that holds neither
/// the start nor the end of a link, is the first share link.
proof fn lemma_address_is_first_share_link(before: Seq<char>, code: Seq<char>, after: Seq<char>)
    requires
        !holds_text(before, "https://"@),
        !holds_text(after, "type=Server"@),
        !code.contains('\n'),
    ensures
        is_first_match(
            share_grammar(),
            before + web_address(code, true) + after,
            before.len() as int,
            (before.len() + web_address(code, true).len()) as int,
        ),
{
    let address = web_address(code, true);
    let message = before + address + after;
    let from = before.len() as int;
    let to = from + address.len();
    let n = code.len() as int;
    reveal_strlit("https://");
    reveal_strlit("https://www.roblox.com/share?code=");
    reveal_strlit("roblox.com/share?code=");
    reveal_strlit("&type=Server");
    reveal_strlit("type=Server");
    assert(address.len() == 46 + n);
    assert(message.subrange(from, from + 8) =~= "https://"@);
    assert(message.subrange(from + 12, from + 34) =~= "roblox.com/share?code="@);
    assert(message.subrange(to - 11, to) =~= "type=Server"@);
    assert forall|k: int| from <= k < to implies #[trigger] message[k] != '\n' by {
        assert(message[k] == address[k - from]);
        if 34 <= k - from < 34 + n {
            assert(address[k - from] == code[k - from - 34]);
            assert(code.contains(code[k - from - 34]));
        }
    }
    assert(is_share_link(message, from, from + 12, to));
    lemma_share_link_is_match(message, from, from + 12, to);
    assert(message =~= before + (address + after));
    assert((address + after).subrange(0, 8) =~= "https://"@);
    lemma_no_link_in_front(before, address + after);
    assert forall|i: int, j: int| #[trigger] matches_at(share_grammar(), message, i, j) implies from <= i by {
        lemma_match_is_share_link(message, i, j);
        assert(stands_at(message, "https://"@, i));
    }
    assert forall|j: int| #[trigger] matches_at(share_grammar(), message, from, j) implies j <= to by {
        lemma_match_is_share_link(message, from, j);
        assert(stands_at(message, "type=Server"@, j - 11));
        if j > to {
            lemma_places_are_apart(message, "type=Server"@, to - 11, j - 11);
            lemma_stands_behind(before + address, after, "type=Server"@, j - 11);
        }
    }
}

/// A page address written for the code of a share link leads to that code wherever it stands in a
/// message: text before it without `https://` and text after it without `type=Server` make no
/// difference, where no game link's word stands in the message.
pub proof fn law_share_address_is_found_within_a_message(before: Seq<char>, code: Seq<char>, after: Seq<char>)
    requires
        !holds_text(before, "https://"@),
        !holds_text(after, "type=Server"@),
        !holds_text(before + web_address(code, true) + after, "privateServerLinkCode="@),
        !holds_text(code, "code="@),
        !code.contains('&'),
        !code.contains('\n'),
    ensures
        code_in(before + web_address(code, true) + after) == Some((code, true)),
        code_in(web_address(code, true)) == Some((code, true)),
{
    let address = web_address(code, true);
    let message = before + address + after;
    lemma_address_is_first_share_link(before, code, after);
    lemma_first_match(share_grammar(), message, before.len() as int, (before.len() + address.len()) as int);
    assert(message.subrange(before.len() as int, (before.len() + address.len()) as int) =~= address);
    lemma_no_word_no_game_link(message);
    law_share_code_read_back(code);
    if holds_text(address, "privateServerLinkCode="@) {
        let at = choose|at: int| stands_at(address, "privateServerLinkCode="@, at);
        law_text_stands_where_it_is_written(address, "privateServerLinkCode="@, at);
        let (front, back) = choose|front: Seq<char>, back: Seq<char>|
            front.len() == at && address == #[trigger] (front + "privateServerLinkCode="@ + back);
        assert(message =~= (before + front) + "privateServerLinkCode="@ + (back + after));
        law_text_holds_what_it_is_made_of(message, "privateServerLinkCode="@);
    }
    lemma_no_word_no_game_link(address);
    law_share_address_is_found(code);
}

/// Without the word before its code there is no game link.
proof fn lemma_no_word_no_game_link(message: Seq<char>)
    requires
        !holds_text(message, "privateServerLinkCode="@),
    ensures
        !found(link_grammar(), message),
{
    lemma_game_links(message);
    if found(link_grammar(), message) {
        let (from, to) = choose|from: int, to: int| game_link_at(message, from, to);
        let (page, word) = choose|page: int, word: int| #[trigger] is_game_link(message, from, page, word, to);
        assert(stands_at(message, "privateServerLinkCode="@, word));
    }
}

/// The game link that stands in a message as a page address, with text around it that holds neither
/// the start of a link nor the word before its code, is the first game link.
proof fn lemma_address_is_first_game_link(before: Seq<char>, code: Seq<char>, after: Seq<char>)
    requires
        !holds_text(before, "https://"@),
        !holds_text(after, "privateServerLinkCode="@),
        code.len() == 32,
        all_digits(code),
    ensures
        is_first_match(
            link_grammar(),
            before + web_address(code, false) + after,
            before.len() as int,
            (before.len() + web_address(code, false).len()) as int,
        ),
{
    let address = web_address(code, false);
    let message = before + address + after;
    let from = before.len() as int;
    let to = from + address.len();
    reveal_strlit("https://");
    reveal_strlit("https://www.roblox.com/games/");
    reveal_strlit("15532962292");
    reveal_strlit("/Sols-RNG?privateServerLinkCode=");
    reveal_strlit("roblox.com/games/15532962292/");
    reveal_strlit("privateServerLinkCode=");
    let name = "privateServerLinkCode="@;
    assert(address.len() == 104);
    assert(message.subrange(from, from + 8) =~= "https://"@);
    assert(message.subrange(from + 12, from + 41) =~= "roblox.com/games/15532962292/"@);
    assert(message.subrange(from + 50, from + 72) =~= name);
    assert forall|k: int| from + 72 <= k < to implies '0' <= #[trigger] message[k] <= '9' by {
        assert(message[k] == code[k - from - 72]);
    }
    assert forall|k: int| from <= k < to implies #[trigger] message[k] != '\n' by {
        assert(message[k] == address[k - from]);
    }
    assert(is_game_link(message, from, from + 12, from + 50, to));
    lemma_game_link_is_match(message, from, from + 12, from + 50, to);
    assert(message =~= before + (address + after));
    assert((address + after).subrange(0, 8) =~= "https://"@);
    lemma_no_link_in_front(before, address + after);
    assert forall|i: int, j: int| #[trigger] matches_at(link_grammar(), message, i, j) implies from <= i by {
        lemma_match_is_game_link(message, i, j);
        assert(stands_at(message, "https://"@, i));
    }
    assert forall|j: int| #[trigger] matches_at(link_grammar(), message, from, j) implies j <= to by {
        lemma_match_is_game_link(message, from, j);
        let word = j - 54;
        assert(stands_at(message, name, word));
        if j > to {
            lemma_places_are_apart(message, name, from + 50, word);
            if word < to {
                assert(message.subrange(word, word + 22)[0] == message[word]);
            } else {
                lemma_stands_behind(before + address, after, name, word);
            }
        }
    }
}

/// A page address written for a code of 32 digits leads to that code wherever it stands in a message:
/// text before it without `https://` and text after it without `privateServerLinkCode=` make no
/// difference.
pub proof fn law_game_address_is_found_within_a_message(before: Seq<char>, code: Seq<char>, after: Seq<char>)
    requires
        !holds_text(before, "https://"@),
        !holds_text(after, "privateServerLinkCode="@),
        code.len() == 32,
        all_digits(code),
    ensures
        code_in(before + web_address(code, false) + after) == Some((code, false)),
        code_in(web_address(code, false)) == Some((code, false)),
{
    let address = web_address(code, false);
    let message = before + address + after;
    lemma_address_is_first_game_link(before, code, after);
    lemma_first_match(link_grammar(), message, before.len() as int, (before.len() + address.len()) as int);
    assert(message.subrange(before.len() as int, (before.len() + address.len()) as int) =~= address);
    lemma_digits_hold_no_word(code);
    law_game_code_read_back(code);
    law_game_address_is_found(code);
}

/// The page address is that of the kind of code, with the whole code in its place: at the end for a
/// game link, before the kind of what is shared for a share link.
pub proof fn law_page_address_is_that_of_the_code(code: Seq<char>)
    ensures
        web_address(code, false) == "https://www.roblox.com/games/15532962292/Sols-RNG?privateServerLinkCode="@
            + code,
        web_address(code, true) == "https://www.roblox.com/share?code="@ + code + "&type=Server"@,
{
    reveal_strlit("https://www.roblox.com/games/");
    reveal_strlit("15532962292");
    reveal_strlit("/Sols-RNG?privateServerLinkCode=");
    reveal_strlit("https://www.roblox.com/games/15532962292/Sols-RNG?privateServerLinkCode=");
    assert("https://www.roblox.com/games/"@ + GAME_ID@ + "/Sols-RNG?privateServerLinkCode="@
        =~= "https://www.roblox.com/games/15532962292/Sols-RNG?privateServerLinkCode="@);
}

/// The address that starts the game is that of the kind of code, whatever the code: for a game link
/// it names the place and ends in the code; for a share link the code stands between its name and
/// the kind of what is shared. The escape stands right before the ampersand and nowhere else.
pub proof fn law_game_address_is_that_of_the_code(code: Seq<char>, escape: Seq<char>)
    ensures
        game_address(code, false, escape) == "roblox://placeID=15532962292"@ + escape + "&linkCode="@ + code,
        game_address(code, false, seq![]) == "roblox://placeID=15532962292&linkCode="@ + code,
        game_address(code, true, escape) == "roblox://navigation/share_links?code="@ + code + escape
            + "&type=Server"@,
        game_address(code, true, seq![]) == "roblox://navigation/share_links?code="@ + code + "&type=Server"@,
{
    reveal_strlit("roblox://placeID=");
    reveal_strlit("15532962292");
    reveal_strlit("&linkCode=");
    reveal_strlit("roblox://placeID=15532962292");
    reveal_strlit("roblox://placeID=15532962292&linkCode=");
    assert("roblox://placeID="@ + GAME_ID@ =~= "roblox://placeID=15532962292"@);
    assert(game_address(code, false, seq![]) =~= "roblox://placeID=15532962292&linkCode="@ + code);
    assert(game_address(code, true, seq![]) =~= "roblox://navigation/share_links?code="@ + code
        + "&type=Server"@);
}

/// On the desktop `cmd` is told to start the address of the code's kind, the ampersand escaped by a
/// caret.
pub proof fn law_desktop_starts_the_address_of_the_code(code: Seq<char>)
    ensures
        desktop_arguments(code, false) == seq![
            "/C"@,
            "start"@,
            ""@,
            "roblox://placeID=15532962292^&linkCode="@ + code,
        ],
        desktop_arguments(code, true) == seq![
            "/C"@,
            "start"@,
            ""@,
            "roblox://navigation/share_links?code="@ + code + "^&type=Server"@,
        ],
{
    reveal_strlit("roblox://placeID=");
    reveal_strlit("15532962292");
    reveal_strlit("&linkCode=");
    reveal_strlit("^");
    reveal_strlit("&type=Server");
    reveal_strlit("^&type=Server");
    reveal_strlit("roblox://placeID=15532962292^&linkCode=");
    assert(game_address(code, false, "^"@) =~= "roblox://placeID=15532962292^&linkCode="@ + code);
    assert("^"@ + "&type=Server"@ =~= "^&type=Server"@);
    assert(game_address(code, true, "^"@) =~= "roblox://navigation/share_links?code="@ + code
        + "^&type=Server"@);
}

/// An emulator's shell is told to view the address of the code's kind, the ampersand escaped by a
/// backslash, in one line.
pub proof fn law_emulator_starts_the_address_of_the_code(code: Seq<char>)
    ensures
        emulator_line(code, false)
            == "am start -a android.intent.action.VIEW roblox://placeID=15532962292\\&linkCode="@ + code + "\n"@,
        emulator_line(code, true)
            == "am start -a android.intent.action.VIEW roblox://navigation/share_links?code="@ + code
            + "\\&type=Server\n"@,
{
    reveal_strlit("am start -a android.intent.action.VIEW ");
    reveal_strlit("roblox://placeID=");
    reveal_strlit("roblox://navigation/share_links?code=");
    reveal_strlit("15532962292");
    reveal_strlit("&linkCode=");
    reveal_strlit("\\");
    reveal_strlit("\n");
    reveal_strlit("&type=Server");
    reveal_strlit("\\&type=Server\n");
    reveal_strlit("am start -a android.intent.action.VIEW roblox://placeID=15532962292\\&linkCode=");
    reveal_strlit("am start -a android.intent.action.VIEW roblox://navigation/share_links?code=");
    assert("am start -a android.intent.action.VIEW "@ + "roblox://placeID="@ + GAME_ID@ + "\\"@ + "&linkCode="@
        =~= "am start -a android.intent.action.VIEW roblox://placeID=15532962292\\&linkCode="@);
    assert("am start -a android.intent.action.VIEW "@ + "roblox://navigation/share_links?code="@
        =~= "am start -a android.intent.action.VIEW roblox://navigation/share_links?code="@);
    assert("\\"@ + "&type=Server"@ + "\n"@ =~= "\\&type=Server\n"@);
    assert(emulator_line(code, false)
        =~= "am start -a android.intent.action.VIEW "@ + "roblox://placeID="@ + GAME_ID@ + "\\"@ + "&linkCode="@
        + code + "\n"@);
    assert(emulator_line(code, true)
        =~= "am start -a android.intent.action.VIEW "@ + "roblox://navigation/share_links?code="@ + code + (
    "\\"@ + "&type=Server"@ + "\n"@));
}

/// Two servers have the same address only where their codes and the kinds of their codes are the
/// same: from the page's address, the desktop's arguments and the emulator's line alike, the kind
/// and the code can be told.
pub proof fn law_addresses_tell_servers_apart(a: Seq<char>, shared_a: bool, b: Seq<char>, shared_b: bool)
    ensures
        web_address(a, shared_a) == web_address(b, shared_b) <==> a == b && shared_a == shared_b,
        desktop_arguments(a, shared_a) == desktop_arguments(b, shared_b) <==> a == b && shared_a == shared_b,
        emulator_line(a, shared_a) == emulator_line(b, shared_b) <==> a == b && shared_a == shared_b,
{
    lemma_same_middle_page(a, shared_a, b, shared_b);
    lemma_same_middle_started(a, shared_a, b, shared_b, "^"@, seq![], seq![]);
    lemma_same_middle_started(a, shared_a, b, shared_b, "\\"@, "am start -a android.intent.action.VIEW "@, "\n"@);
    let desktop_a = desktop_arguments(a, shared_a);
    let desktop_b = desktop_arguments(b, shared_b);
    if desktop_a == desktop_b {
        assert(desktop_a[3] == desktop_b[3]);
        assert(seq![] + desktop_a[3] + seq![] =~= desktop_a[3]);
        assert(seq![] + desktop_b[3] + seq![] =~= desktop_b[3]);
    }
}

/// Texts with the same head and tail are the same only where their middles are.
proof fn lemma_same_middle(head: Seq<char>, a: Seq<char>, b: Seq<char>, tail: Seq<char>)
    requires
        head + a + tail == head + b + tail,
    ensures
        a == b,
{
    let s = head + a + tail;
    let t = head + b + tail;
    assert(s.len() == head.len() + a.len() + tail.len() && t.len() == head.len() + b.len() + tail.len());
    assert(s.subrange(head.len() as int, (head.len() + a.len()) as int) =~= a);
    assert(t.subrange(head.len() as int, (head.len() + b.len()) as int) =~= b);
}

/// Page addresses that are the same have the same kind and code.
proof fn lemma_same_middle_page(a: Seq<char>, shared_a: bool, b: Seq<char>, shared_b: bool)
    ensures
        web_address(a, shared_a) == web_address(b, shared_b) ==> a == b && shared_a == shared_b,
{
    let s = web_address(a, shared_a);
    let t = web_address(b, shared_b);
    if s == t {
        reveal_strlit("https://www.roblox.com/games/");
        reveal_strlit("https://www.roblox.com/share?code=");
        assert(s[23] == if shared_a { "https://www.roblox.com/share?code="@[23] } else { "https://www.roblox.com/games/"@[23] });
        assert(t[23] == if shared_b { "https://www.roblox.com/share?code="@[23] } else { "https://www.roblox.com/games/"@[23] });
        assert("https://www.roblox.com/share?code="@[23] == 's' && "https://www.roblox.com/games/"@[23] == 'g');
        if shared_a {
            lemma_same_middle("https://www.roblox.com/share?code="@, a, b, "&type=Server"@);
        } else {
            let head = "https://www.roblox.com/games/"@ + GAME_ID@ + "/Sols-RNG?privateServerLinkCode="@;
            assert(s =~= head + a + seq![] && t =~= head + b + seq![]);
            lemma_same_middle(head, a, b, seq![]);
        }
    }
}

/// Addresses that start the game and are the same have the same kind and code.
proof fn lemma_same_middle_started(
    a: Seq<char>,
    shared_a: bool,
    b: Seq<char>,
    shared_b: bool,
    escape: Seq<char>,
    head: Seq<char>,
    tail: Seq<char>,
)
    ensures
        head + game_address(a, shared_a, escape) + tail == head + game_address(b, shared_b, escape) + tail ==> a
            == b && shared_a == shared_b,
{
    let s = game_address(a, shared_a, escape);
    let t = game_address(b, shared_b, escape);
    if head + s + tail == head + t + tail {
        lemma_same_middle(head, s, t, tail);
        reveal_strlit("roblox://placeID=");
        reveal_strlit("roblox://navigation/share_links?code=");
        assert(s[9] == if shared_a { "roblox://navigation/share_links?code="@[9] } else { "roblox://placeID="@[9] });
        assert(t[9] == if shared_b { "roblox://navigation/share_links?code="@[9] } else { "roblox://placeID="@[9] });
        assert("roblox://navigation/share_links?code="@[9] == 'n' && "roblox://placeID="@[9] == 'p');
        if shared_a {
            let end = escape + "&type=Server"@;
            let start = "roblox://navigation/share_links?code="@;
            assert(s =~= start + a + end && t =~= start + b + end);
            lemma_same_middle(start, a, b, end);
        } else {
            let start = "roblox://placeID="@ + GAME_ID@ + escape + "&linkCode="@;
            assert(s =~= start + a + seq![] && t =~= start + b + seq![]);
            lemma_same_middle(start, a, b, seq![]);
        }
    }
}

} // verus!
