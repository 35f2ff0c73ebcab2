//! The settings of a run, as the configuration file gives them.

use crate::biome::law_biomes_are_these;
use crate::text::{law_lower_case_changes_capitals_only, lowered, same, to_lowercase};
use vstd::prelude::*;
use vstd::utf8::is_ascii_chars;

verus! {

/// The configuration type of `configparser`.
#[verifier::external_type_specification]
#[verifier::external_body]
pub struct ExIni(configparser::ini::Ini);

/// What a configuration holds: its sections, and in each the keys with their values.
pub uninterp spec fn ini_contents(ini: configparser::ini::Ini) -> Map<
    Seq<char>,
    Map<Seq<char>, Option<Seq<char>>>,
>;

/// Whether a configuration was made with the default options: names in any case, comments behind
/// `;` and `#`, values on one line.
pub uninterp spec fn ini_is_default(ini: configparser::ini::Ini) -> bool;

/// What `configparser::ini::Ini::read` reads from a text under the default options; none where it
/// refuses the text.
pub uninterp spec fn ini_in(text: Seq<char>) -> Option<Map<Seq<char>, Map<Seq<char>, Option<Seq<char>>>>>;

/// What a run finds in its configuration file; nothing where there is none or it is refused.
pub open spec fn contents_of(text: Option<Seq<char>>) -> Map<
    Seq<char>,
    Map<Seq<char>, Option<Seq<char>>>,
> {
    match text {
        Some(text) => match ini_in(text) {
            Some(contents) => contents,
            None => Map::empty(),
        },
        None => Map::empty(),
    }
}

/// The value of a key in a section.
pub open spec fn ini_value(
    contents: Map<Seq<char>, Map<Seq<char>, Option<Seq<char>>>>,
    section: Seq<char>,
    key: Seq<char>,
) -> Option<Seq<char>> {
    let section = lowered(section);
    let key = lowered(key);
    if contents.dom().contains(section) && contents[section].dom().contains(key) {
        contents[section][key]
    } else {
        None
    }
}

/// Calls `configparser::ini::Ini::new`: an empty configuration with the default options.
#[verifier::external_body]
fn ini_new() -> (res: configparser::ini::Ini)
    ensures
        ini_is_default(res),
        ini_contents(res) == contents_of(None),
{
    configparser::ini::Ini::new()
}

/// Calls `configparser::ini::Ini::read`, which puts what it reads from the text in the place of
/// what the configuration held, or leaves that as it is and fails.
#[verifier::external_body]
fn ini_read(ini: &mut configparser::ini::Ini, text: &str) -> (res: bool)
    requires
        ini_is_default(*old(ini)),
    ensures
        ini_is_default(*final(ini)),
        match ini_in(text@) {
            Some(contents) => res && ini_contents(*final(ini)) == contents,
            None => !res && ini_contents(*final(ini)) == ini_contents(*old(ini)),
        },
{
    ini.read(text.to_string()).is_ok()
}

/// Calls `configparser::ini::Ini::get`, which looks a value up by the names of its section and its
/// key in lower case.
#[verifier::external_body]
fn ini_get(ini: &configparser::ini::Ini, section: &str, key: &str) -> (res: Option<String>)
    requires
        ini_is_default(*ini),
    ensures
        match res {
            Some(value) => ini_value(ini_contents(*ini), section@, key@) == Some(value@),
            None => ini_value(ini_contents(*ini), section@, key@) is None,
        },
{
    ini.get(section, key)
}

/// The settings of a run. What the configuration does not give is absent.
pub struct Settings {
    pub discord_token: Option<String>,
    pub webhook_link: Option<String>,
    pub discord_user_id: Option<String>,
    pub ldplayer_path: Option<String>,
    pub use_ldplayer: Option<String>,
    /// One for each biome.
    pub toggles: [Option<String>; 6],
}

/// The text in a value that may be absent.
pub open spec fn text_of(value: Option<String>) -> Option<Seq<char>> {
    match value {
        Some(text) => Some(text@),
        None => None,
    }
}

/// The text of a value; an empty one where the value is absent.
pub open spec fn text_or_empty(value: Option<String>) -> Seq<char> {
    match value {
        Some(text) => text@,
        None => Seq::empty(),
    }
}

/// Whether a value switches something on: only `true` does, in any case.
pub open spec fn is_on(value: Option<String>) -> bool {
    match value {
        Some(text) => lowered(text@) == "true"@,
        None => false,
    }
}

impl Settings {
    /// Whether the settings are those that `contents` gives.
    pub open spec fn are_those_of(
        self,
        contents: Map<Seq<char>, Map<Seq<char>, Option<Seq<char>>>>,
    ) -> bool {
        &&& text_of(self.discord_token) == ini_value(contents, "Authentication"@, "Discord Token"@)
        &&& text_of(self.webhook_link) == ini_value(contents, "Webhook"@, "Webhook Link"@)
        &&& text_of(self.discord_user_id) == ini_value(contents, "Webhook"@, "Discord User ID"@)
        &&& text_of(self.ldplayer_path) == ini_value(contents, "Technical"@, "LDPlayer Path"@)
        &&& text_of(self.use_ldplayer) == ini_value(contents, "Technical"@, "Use LDPlayer"@)
        &&& forall|i: int|
            0 <= i < 6 ==> text_of(#[trigger] self.toggles@[i]) == ini_value(
                contents,
                "Toggles"@,
                crate::biome::words()[i],
            )
    }

    /// Reads the settings from the text of the configuration file. Where there is no text, or it
    /// is no configuration, every setting is absent.
    pub fn read(text: Option<&str>) -> (res: Self)
        ensures
            res.are_those_of(contents_of(match text {
                Some(text) => Some(text@),
                None => None,
            })),
    {
        let mut ini = ini_new();
        if let Some(text) = text {
            ini_read(&mut ini, text);
        }
        Settings {
            discord_token: ini_get(&ini, "Authentication", "Discord Token"),
            webhook_link: ini_get(&ini, "Webhook", "Webhook Link"),
            discord_user_id: ini_get(&ini, "Webhook", "Discord User ID"),
            ldplayer_path: ini_get(&ini, "Technical", "LDPlayer Path"),
            use_ldplayer: ini_get(&ini, "Technical", "Use LDPlayer"),
            toggles: [
                ini_get(&ini, "Toggles", "Corruption"),
                ini_get(&ini, "Toggles", "Jester"),
                ini_get(&ini, "Toggles", "Rin"),
                ini_get(&ini, "Toggles", "Glitched"),
                ini_get(&ini, "Toggles", "Dreamspace"),
                ini_get(&ini, "Toggles", "Cyberspace"),
            ],
        }
    }
}

/// The text of a value; an empty one where the value is absent.
pub fn value_or_empty(value: &Option<String>) -> (res: String)
    ensures
        res@ == text_or_empty(*value),
{
    match value {
        Some(text) => text.clone(),
        None => String::new(),
    }
}

/// Whether a value switches something on.
pub fn switched_on(value: &Option<String>) -> (res: bool)
    ensures
        res == is_on(*value),
{
    match value {
        Some(text) => same(to_lowercase(text.as_str()).as_str(), "true"),
        None => false,
    }
}

/// The text of a value that is there is all of it; that of an absent one is empty.
pub proof fn law_values_are_taken_whole(text: String)
    ensures
        text_of(Some(text)) == Some(text@),
        text_of(None) is None,
        text_or_empty(Some(text)) == text@,
        text_or_empty(None).len() == 0,
{
}

/// What switches something on: a text that is `true` in lower case. Of texts in ASCII that is one of
/// four letters, `t`, `r`, `u` and `e`, each small or capital. An absent value switches nothing on.
pub proof fn law_only_true_switches_on(text: String)
    ensures
        is_on(Some(text)) <==> lowered(text@) == "true"@,
        is_ascii_chars(text@) ==> (is_on(Some(text)) <==> {
            &&& text@.len() == 4
            &&& text@[0] == 't' || text@[0] == 'T'
            &&& text@[1] == 'r' || text@[1] == 'R'
            &&& text@[2] == 'u' || text@[2] == 'U'
            &&& text@[3] == 'e' || text@[3] == 'E'
        }),
        !is_on(None),
{
    reveal_strlit("true");
    if is_ascii_chars(text@) {
        law_lower_case_changes_capitals_only(text@);
        let s = text@;
        let low = lowered(s);
        if is_on(Some(text)) {
            assert(low[0] == 't' && low[1] == 'r' && low[2] == 'u' && low[3] == 'e');
        }
        if s.len() == 4 && (s[0] == 't' || s[0] == 'T') && (s[1] == 'r' || s[1] == 'R') && (s[2] == 'u' || s[2]
            == 'U') && (s[3] == 'e' || s[3] == 'E') {
            assert(low =~= "true"@);
        }
    }
}

/// What a run finds in its configuration file is what is read from the text; without a text, and where
/// the text is refused, it is nothing.
pub proof fn law_contents_are_those_of_the_file(text: Seq<char>)
    ensures
        ini_in(text) matches Some(contents) ==> contents_of(Some(text)) == contents,
        ini_in(text) is None ==> contents_of(Some(text)) =~= Map::empty(),
        contents_of(None) =~= Map::empty(),
{
}

/// The value that a configuration holds under a section and a key, both named in lower case.
pub open spec fn held(
    contents: Map<Seq<char>, Map<Seq<char>, Option<Seq<char>>>>,
    section: Seq<char>,
    key: Seq<char>,
) -> Option<Seq<char>> {
    if contents.dom().contains(section) && contents[section].dom().contains(key) {
        contents[section][key]
    } else {
        None
    }
}

/// Each setting is what the configuration holds under its own section and key, and absent where the
/// configuration holds nothing there.
pub proof fn law_settings_stand_under_their_keys(
    settings: Settings,
    contents: Map<Seq<char>, Map<Seq<char>, Option<Seq<char>>>>,
)
    requires
        settings.are_those_of(contents),
    ensures
        text_of(settings.discord_token) == held(contents, "authentication"@, "discord token"@),
        text_of(settings.webhook_link) == held(contents, "webhook"@, "webhook link"@),
        text_of(settings.discord_user_id) == held(contents, "webhook"@, "discord user id"@),
        text_of(settings.ldplayer_path) == held(contents, "technical"@, "ldplayer path"@),
        text_of(settings.use_ldplayer) == held(contents, "technical"@, "use ldplayer"@),
        text_of(settings.toggles@[0]) == held(contents, "toggles"@, "corruption"@),
        text_of(settings.toggles@[1]) == held(contents, "toggles"@, "jester"@),
        text_of(settings.toggles@[2]) == held(contents, "toggles"@, "rin"@),
        text_of(settings.toggles@[3]) == held(contents, "toggles"@, "glitched"@),
        text_of(settings.toggles@[4]) == held(contents, "toggles"@, "dreamspace"@),
        text_of(settings.toggles@[5]) == held(contents, "toggles"@, "cyberspace"@),
{
    lemma_names_in_lower_case();
    law_biomes_are_these(0);
    law_biomes_are_these(1);
    law_biomes_are_these(2);
    law_biomes_are_these(3);
    law_biomes_are_these(4);
    law_biomes_are_these(5);
}

/// The names of sections and keys in lower case.
proof fn lemma_names_in_lower_case()
    ensures
        lowered("Authentication"@) == "authentication"@,
        lowered("Discord Token"@) == "discord token"@,
        lowered("Webhook"@) == "webhook"@,
        lowered("Webhook Link"@) == "webhook link"@,
        lowered("Discord User ID"@) == "discord user id"@,
        lowered("Technical"@) == "technical"@,
        lowered("LDPlayer Path"@) == "ldplayer path"@,
        lowered("Use LDPlayer"@) == "use ldplayer"@,
        lowered("Toggles"@) == "toggles"@,
{
    reveal_strlit("Authentication");
    reveal_strlit("authentication");
    reveal_strlit("Discord Token");
    reveal_strlit("discord token");
    reveal_strlit("Webhook");
    reveal_strlit("webhook");
    reveal_strlit("Webhook Link");
    reveal_strlit("webhook link");
    reveal_strlit("Discord User ID");
    reveal_strlit("discord user id");
    reveal_strlit("Technical");
    reveal_strlit("technical");
    reveal_strlit("LDPlayer Path");
    reveal_strlit("ldplayer path");
    reveal_strlit("Use LDPlayer");
    reveal_strlit("use ldplayer");
    reveal_strlit("Toggles");
    reveal_strlit("toggles");
    assert(lowered("Authentication"@) =~= "authentication"@);
    assert(lowered("Discord Token"@) =~= "discord token"@);
    assert(lowered("Webhook"@) =~= "webhook"@);
    assert(lowered("Webhook Link"@) =~= "webhook link"@);
    assert(lowered("Discord User ID"@) =~= "discord user id"@);
    assert(lowered("Technical"@) =~= "technical"@);
    assert(lowered("LDPlayer Path"@) =~= "ldplayer path"@);
    assert(lowered("Use LDPlayer"@) =~= "use ldplayer"@);
    assert(lowered("Toggles"@) =~= "toggles"@);
}

} // verus!
