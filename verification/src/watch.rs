//! Watching the game's log, to leave a server whose biome is not the one that was announced.

use crate::biome::{law_biomes_are_these, target_word, target_words, words};
use crate::json::{as_text, json_in, json_of, member, parse, Json};
use crate::text::{
    contains_text, find_char, holds_text, is_white, law_what_precedes_the_first_character,
    law_white_space_around_is_dropped, lemma_position_bounds, lowered, position_of, same,
    to_lowercase, trim, trimmed,
};
use vstd::prelude::*;

verus! {

/// The line that has an emulator's shell print the lines of its log that tell the biome.
pub const LOGCAT_LINE: &'static str = "logcat -T 1 | grep  --line-buffered -F 'BloxstrapRPC'\n";

/// How long to wait at the end of a log file, in milliseconds.
pub const END_OF_LOG_PAUSE: u64 = 200;

/// Where the game runs.
#[derive(Clone, Copy, Debug, PartialEq, Eq, Structural)]
pub enum Place {
    Emulator,
    Desktop,
}

/// What reading a line from a log came to.
#[derive(Debug)]
pub enum Reading {
    /// There is nothing more to read.
    End,
    /// A line.
    Line(String),
    /// Reading failed.
    Failed,
}

/// What to do after a reading.
#[derive(Debug, PartialEq, Eq)]
pub enum LogAction {
    /// Read the next line.
    Continue,
    /// Wait for so many milliseconds, then read on.
    Wait(u64),
    /// Stop watching.
    Stop,
    /// The game is in this biome, the right one: stop watching.
    Keep(String),
    /// The game is in this biome, a wrong one: close the game and stop watching.
    Close(String),
}

/// What a `LogAction` stands for.
pub enum LogDecision {
    Continue,
    Wait(u64),
    Stop,
    Keep(Seq<char>),
    Close(Seq<char>),
}

impl View for LogAction {
    type V = LogDecision;

    open spec fn view(&self) -> LogDecision {
        match self {
            LogAction::Continue => LogDecision::Continue,
            LogAction::Wait(millis) => LogDecision::Wait(*millis),
            LogAction::Stop => LogDecision::Stop,
            LogAction::Keep(biome) => LogDecision::Keep(biome@),
            LogAction::Close(biome) => LogDecision::Close(biome@),
        }
    }
}

/// The biome that a status report names.
pub open spec fn reported_biome(report: Json) -> Option<Seq<char>> {
    report.member("data"@).member("largeImage"@).member("hoverText"@).text()
}

/// The part of a line in which a status report may stand: from its first brace to its end, without
/// white space at the ends of the line.
pub open spec fn report_part(line: Seq<char>) -> Option<Seq<char>> {
    let line = trimmed(line);
    match position_of(line, '{') {
        Some(at) => Some(line.subrange(at, line.len() as int)),
        None => None,
    }
}

/// The biome that a line of the log names.
pub open spec fn biome_in(line: Seq<char>) -> Option<Seq<char>> {
    match report_part(line) {
        Some(part) => match json_in(part) {
            Some(report) => reported_biome(report),
            None => None,
        },
        None => None,
    }
}

/// What follows from the biome that the game is in, where that is known.
pub open spec fn decision_on(biome: Option<Seq<char>>, choice_id: int) -> LogDecision {
    match biome {
        Some(biome) => if lowered(biome) == target_words()[choice_id] {
            LogDecision::Keep(biome)
        } else {
            LogDecision::Close(biome)
        },
        None => LogDecision::Continue,
    }
}

/// What follows from a reading.
pub open spec fn decision_after(place: Place, reading: Reading, choice_id: int) -> LogDecision {
    match (reading, place) {
        (Reading::End, Place::Emulator) => LogDecision::Stop,
        (Reading::End, Place::Desktop) => LogDecision::Wait(END_OF_LOG_PAUSE),
        (Reading::Failed, _) => LogDecision::Stop,
        (Reading::Line(line), Place::Emulator) => decision_on(biome_in(line@), choice_id),
        (Reading::Line(line), Place::Desktop) => if holds_text(trimmed(line@), "BloxstrapRPC"@) {
            decision_on(biome_in(line@), choice_id)
        } else {
            LogDecision::Continue
        },
    }
}

/// The biome that a status report names.
fn read_report(report: &serde_json::Value) -> (res: Option<String>)
    ensures
        match res {
            Some(biome) => reported_biome(json_of(*report)) == Some(biome@),
            None => reported_biome(json_of(*report)) is None,
        },
{
    match as_text(member(member(member(report, "data"), "largeImage"), "hoverText")) {
        Some(biome) => Some(biome.to_owned()),
        None => None,
    }
}

/// The part of a line in which a status report may stand.
pub fn find_report(line: &str) -> (res: Option<String>)
    ensures
        match res {
            Some(part) => report_part(line@) == Some(part@),
            None => report_part(line@) is None,
        },
{
    let line = trim(line);
    match find_char(line, '{') {
        Some(at) => {
            proof {
                lemma_position_bounds(line@, '{');
            }
            let end: usize = line.unicode_len();
            Some(line.substring_char(at, end).to_owned())
        },
        None => None,
    }
}

/// The biome that a line of the log names.
pub fn read_biome(line: &str) -> (res: Option<String>)
    ensures
        match res {
            Some(biome) => biome_in(line@) == Some(biome@),
            None => biome_in(line@) is None,
        },
{
    match find_report(line) {
        Some(part) => match parse(part.as_str()) {
            Some(report) => read_report(&report),
            None => None,
        },
        None => None,
    }
}

/// Decides on the biome that the game is in, where that is known.
pub fn judge(biome: Option<String>, choice_id: usize) -> (res: LogAction)
    requires
        choice_id < 6,
    ensures
        res@ == decision_on(
            match biome {
                Some(biome) => Some(biome@),
                None => None,
            },
            choice_id as int,
        ),
{
    match biome {
        Some(biome) => {
            if same(to_lowercase(biome.as_str()).as_str(), target_word(choice_id).as_str()) {
                LogAction::Keep(biome)
            } else {
                LogAction::Close(biome)
            }
        },
        None => LogAction::Continue,
    }
}

/// Decides what to do after a reading from the log of a game that was started for a biome.
pub fn check_logs(place: Place, reading: &Reading, choice_id: usize) -> (res: LogAction)
    requires
        choice_id < 6,
    ensures
        res@ == decision_after(place, *reading, choice_id as int),
{
    match (reading, place) {
        (Reading::End, Place::Emulator) => LogAction::Stop,
        (Reading::End, Place::Desktop) => LogAction::Wait(END_OF_LOG_PAUSE),
        (Reading::Failed, _) => LogAction::Stop,
        (Reading::Line(line), Place::Emulator) => judge(read_biome(line.as_str()), choice_id),
        (Reading::Line(line), Place::Desktop) => {
            if contains_text(trim(line.as_str()), "BloxstrapRPC") {
                judge(read_biome(line.as_str()), choice_id)
            } else {
                LogAction::Continue
            }
        },
    }
}

/// The arguments that close the game: of `adb` on an emulator, of `cmd` on the desktop.
pub open spec fn closing_arguments(place: Place) -> Seq<Seq<char>> {
    match place {
        Place::Emulator => seq!["shell"@, "am"@, "force-stop"@, "com.roblox.client"@],
        Place::Desktop => seq!["/C"@, "taskkill"@, "/IM"@, "RobloxPlayerBeta.exe"@, "/F"@],
    }
}

/// Writes the arguments that close the game.
pub fn close_game(place: Place) -> (res: Vec<String>)
    ensures
        res@.map_values(|argument: String| argument@) == closing_arguments(place),
{
    let res = match place {
        Place::Emulator => vec![
            "shell".to_owned(),
            "am".to_owned(),
            "force-stop".to_owned(),
            "com.roblox.client".to_owned(),
        ],
        Place::Desktop => vec![
            "/C".to_owned(),
            "taskkill".to_owned(),
            "/IM".to_owned(),
            "RobloxPlayerBeta.exe".to_owned(),
            "/F".to_owned(),
        ],
    };
    assert(res@.map_values(|argument: String| argument@) =~= closing_arguments(place));
    res
}

/// A file in the directory of logs.
#[derive(Debug)]
pub struct LogFile {
    /// What follows the last dot of its name.
    pub extension: Option<String>,
    /// When it was written last, in nanoseconds from the start of 1970; absent where unknown.
    pub modified: Option<i128>,
}

impl LogFile {
    /// Whether the file is a log.
    pub open spec fn is_log(self) -> bool {
        match self.extension {
            Some(extension) => extension@ == "log"@,
            None => false,
        }
    }

    /// Whether the file was written before another. A file of which that is unknown comes first.
    pub open spec fn is_older_than(self, other: LogFile) -> bool {
        match (self.modified, other.modified) {
            (None, None) => false,
            (None, Some(_)) => true,
            (Some(_), None) => false,
            (Some(a), Some(b)) => a < b,
        }
    }
}

/// Whether `at` is the rank of the log that was written last; of several, of the last of them.
pub open spec fn is_latest_log(files: Seq<LogFile>, at: int) -> bool {
    &&& 0 <= at < files.len()
    &&& files[at].is_log()
    &&& forall|i: int| 0 <= i < files.len() && (#[trigger] files[i]).is_log() ==> !files[at].is_older_than(files[i])
    &&& forall|i: int| at < i < files.len() && (#[trigger] files[i]).is_log() ==> files[i].is_older_than(files[at])
}

/// Whether the file is a log.
fn file_is_log(file: &LogFile) -> (res: bool)
    ensures
        res == file.is_log(),
{
    match &file.extension {
        Some(extension) => same(extension.as_str(), "log"),
        None => false,
    }
}

/// Whether one file was written before another.
fn file_is_older(a: &LogFile, b: &LogFile) -> (res: bool)
    ensures
        res == a.is_older_than(*b),
{
    match (a.modified, b.modified) {
        (None, None) => false,
        (None, Some(_)) => true,
        (Some(_), None) => false,
        (Some(x), Some(y)) => x < y,
    }
}

/// Finds the log that was written last.
pub fn latest_log(files: &Vec<LogFile>) -> (res: Option<usize>)
    ensures
        match res {
            Some(at) => is_latest_log(files@, at as int),
            None => forall|i: int| 0 <= i < files@.len() ==> !(#[trigger] files@[i]).is_log(),
        },
{
    let mut best: Option<usize> = None;
    for i in 0..files.len()
        invariant
            match best {
                Some(at) => is_latest_log(files@.take(i as int), at as int),
                None => forall|j: int| 0 <= j < i ==> !(#[trigger] files@[j]).is_log(),
            },
    {
        let ghost seen = files@.take(i as int);
        let ghost next = files@.take(i + 1);
        assert(forall|j: int| 0 <= j < i ==> seen[j] == files@[j] && next[j] == files@[j]);
        assert(next[i as int] == files@[i as int]);
        if file_is_log(&files[i]) {
            match best {
                Some(at) => {
                    assert(seen[at as int] == files@[at as int]);
                    if !file_is_older(&files[i], &files[at]) {
                        best = Some(i);
                    }
                },
                None => {
                    best = Some(i);
                },
            }
        }
        assert(best matches Some(at) ==> is_latest_log(next, at as int));
    }
    assert(files@.take(files@.len() as int) =~= files@);
    best
}

/// The game is closed only on a line that names a biome other than the announced one. On a line
/// that names the announced one, in whatever case, it is not closed. On an emulator every line
/// that names another biome closes it.
pub proof fn law_only_a_wrong_biome_is_closed(place: Place, reading: Reading, choice_id: int)
    ensures
        decision_after(place, reading, choice_id) matches LogDecision::Close(biome) ==> {
            &&& reading matches Reading::Line(line)
            &&& biome_in(line@) == Some(biome)
            &&& lowered(biome) != target_words()[choice_id]
        },
        reading matches Reading::Line(line) ==> (biome_in(line@) matches Some(biome) ==> {
            &&& lowered(biome) == target_words()[choice_id] ==> !(decision_after(
                place,
                reading,
                choice_id,
            ) is Close)
            &&& place is Emulator && lowered(biome) != target_words()[choice_id] ==> decision_after(
                place,
                reading,
                choice_id,
            ) == LogDecision::Close(biome)
        }),
{
}

/// Whether watching goes on after a decision.
pub open spec fn goes_on(decision: LogDecision) -> bool {
    decision is Continue || decision is Wait
}

/// What watching comes to over a row of readings: the first decision after which it does not go
/// on; none where it goes on after all of them.
pub open spec fn outcome(place: Place, readings: Seq<Reading>, choice_id: int) -> Option<LogDecision>
    decreases readings.len(),
{
    if readings.len() == 0 {
        None
    } else if goes_on(decision_after(place, readings[0], choice_id)) {
        outcome(place, readings.subrange(1, readings.len() as int), choice_id)
    } else {
        Some(decision_after(place, readings[0], choice_id))
    }
}

/// Watching comes to the decision on the first reading after which it does not go on, whatever is
/// read later. So the game is closed at most once.
pub proof fn law_first_decision_is_the_outcome(place: Place, readings: Seq<Reading>, choice_id: int, at: int)
    requires
        0 <= at < readings.len(),
        forall|i: int| 0 <= i < at ==> goes_on(decision_after(place, #[trigger] readings[i], choice_id)),
        !goes_on(decision_after(place, readings[at], choice_id)),
    ensures
        outcome(place, readings, choice_id) == Some(decision_after(place, readings[at], choice_id)),
    decreases at,
{
    if at > 0 {
        let rest = readings.subrange(1, readings.len() as int);
        assert(goes_on(decision_after(place, readings[0], choice_id)));
        assert forall|i: int| 0 <= i < at - 1 implies goes_on(
            decision_after(place, #[trigger] rest[i], choice_id),
        ) by {
            assert(rest[i] == readings[i + 1]);
        }
        law_first_decision_is_the_outcome(place, rest, choice_id, at - 1);
    }
}

/// Watching comes to nothing exactly where it goes on after every reading.
pub proof fn law_watching_goes_on_without_a_decision(place: Place, readings: Seq<Reading>, choice_id: int)
    ensures
        outcome(place, readings, choice_id) is None <==> forall|i: int|
            0 <= i < readings.len() ==> goes_on(decision_after(place, #[trigger] readings[i], choice_id)),
    decreases readings.len(),
{
    if readings.len() > 0 {
        let rest = readings.subrange(1, readings.len() as int);
        law_watching_goes_on_without_a_decision(place, rest, choice_id);
        assert(forall|i: int| 0 <= i < rest.len() ==> rest[i] == readings[i + 1]);
        if outcome(place, readings, choice_id) is None {
            assert forall|i: int| 0 <= i < readings.len() implies goes_on(
                decision_after(place, #[trigger] readings[i], choice_id),
            ) by {
                if i > 0 {
                    assert(rest[i - 1] == readings[i]);
                }
            }
        } else if goes_on(decision_after(place, readings[0], choice_id)) {
            let i = choose|i: int|
                0 <= i < rest.len() && !goes_on(decision_after(place, #[trigger] rest[i], choice_id));
            assert(!goes_on(decision_after(place, readings[i + 1], choice_id)));
        }
    }
}

/// A line that an emulator's shell lets through is judged on the desktop as on the emulator.
pub proof fn law_places_agree_on_reports(line: String, choice_id: int)
    requires
        holds_text(trimmed(line@), "BloxstrapRPC"@),
    ensures
        decision_after(Place::Desktop, Reading::Line(line), choice_id) == decision_after(
            Place::Emulator,
            Reading::Line(line),
            choice_id,
        ),
{
}

/// One log only is the latest.
pub proof fn law_latest_log_is_one(files: Seq<LogFile>, a: int, b: int)
    requires
        is_latest_log(files, a),
        is_latest_log(files, b),
    ensures
        a == b,
{
    if a < b {
        assert(files[b].is_older_than(files[a]));
    } else if b < a {
        assert(files[a].is_older_than(files[b]));
    }
}

/// A line that names a biome always ends the watch, on an emulator and, where it is tagged, on the
/// desktop: the game stays open where the name is that of the announced biome, in whatever case, and
/// is closed otherwise.
pub proof fn law_named_biome_ends_the_watch(place: Place, line: String, biome: Seq<char>, choice_id: int)
    requires
        0 <= choice_id < 6,
        place is Emulator || holds_text(trimmed(line@), "BloxstrapRPC"@),
        biome_in(line@) == Some(biome),
    ensures
        decision_after(place, Reading::Line(line), choice_id) == LogDecision::Keep(biome) <==> lowered(biome)
            == lowered(words()[choice_id]),
        decision_after(place, Reading::Line(line), choice_id) == LogDecision::Close(biome) <==> lowered(biome)
            != lowered(words()[choice_id]),
        !goes_on(decision_after(place, Reading::Line(line), choice_id)),
{
    law_biomes_are_these(choice_id);
}

/// A biome is judged by its name alone: the game stays open exactly in the announced biome, whatever
/// that is, is closed in any other, and nothing is decided while the biome is not known.
pub proof fn law_right_biome_is_kept(biome: Seq<char>, choice_id: int)
    requires
        0 <= choice_id < 6,
    ensures
        decision_on(Some(biome), choice_id) == LogDecision::Keep(biome) <==> lowered(biome) == lowered(
            words()[choice_id],
        ),
        decision_on(Some(biome), choice_id) == LogDecision::Close(biome) <==> lowered(biome) != lowered(
            words()[choice_id],
        ),
        decision_on(None, choice_id) == LogDecision::Continue,
{
    law_biomes_are_these(choice_id);
}

/// Each biome is kept where it was announced, by its own name, and closed where another was.
pub proof fn law_biome_is_kept_where_announced(name: int, choice_id: int)
    requires
        0 <= name < 6,
        0 <= choice_id < 6,
    ensures
        decision_on(Some(words()[name]), choice_id) == (if name == choice_id {
            LogDecision::Keep(words()[name])
        } else {
            LogDecision::Close(words()[name])
        }),
{
    law_biomes_are_these(name);
    law_biomes_are_these(choice_id);
    reveal_strlit("corruption");
    reveal_strlit("jester");
    reveal_strlit("rin");
    reveal_strlit("glitched");
    reveal_strlit("dreamspace");
    reveal_strlit("cyberspace");
    assert("corruption"@[0] == 'c' && "jester"@[0] == 'j' && "rin"@[0] == 'r');
    assert("glitched"@[0] == 'g' && "dreamspace"@[0] == 'd' && "cyberspace"@[0] == 'c');
    assert("corruption"@[1] == 'o' && "cyberspace"@[1] == 'y');
}

/// A line that names no biome, and on the desktop one without the tag, is passed over: the next line
/// is read.
pub proof fn law_other_lines_are_passed_over(place: Place, line: String, choice_id: int)
    requires
        biome_in(line@) is None || (place is Desktop && !holds_text(trimmed(line@), "BloxstrapRPC"@)),
    ensures
        decision_after(place, Reading::Line(line), choice_id) == LogDecision::Continue,
{
}

/// At its end a log file is read on after a fifth of a second and the log of an emulator no more; a
/// log that cannot be read is not read on.
pub proof fn law_end_of_the_log(choice_id: int)
    ensures
        decision_after(Place::Desktop, Reading::End, choice_id) == LogDecision::Wait(200),
        decision_after(Place::Emulator, Reading::End, choice_id) == LogDecision::Stop,
        decision_after(Place::Desktop, Reading::Failed, choice_id) == LogDecision::Stop,
        decision_after(Place::Emulator, Reading::Failed, choice_id) == LogDecision::Stop,
{
}

/// Nothing of an action is lost in what it stands for.
pub proof fn law_log_actions_stand_for_themselves(biome: String, millis: u64)
    ensures
        LogAction::Continue@ == LogDecision::Continue,
        LogAction::Wait(millis)@ == LogDecision::Wait(millis),
        LogAction::Stop@ == LogDecision::Stop,
        LogAction::Keep(biome)@ == LogDecision::Keep(biome@),
        LogAction::Close(biome)@ == LogDecision::Close(biome@),
{
}

/// The white space that a text starts with, and the rest of the text.
proof fn lemma_white_front(s: Seq<char>) -> (res: (Seq<char>, Seq<char>))
    ensures
        s == res.0 + res.1,
        forall|i: int| 0 <= i < res.0.len() ==> is_white(#[trigger] res.0[i]),
        res.1.len() > 0 ==> !is_white(res.1[0]),
    decreases s.len(),
{
    if s.len() > 0 && is_white(s[0]) {
        let rest = s.subrange(1, s.len() as int);
        let (white, text) = lemma_white_front(rest);
        let front = seq![s[0]] + white;
        assert(s =~= front + text) by {
            assert(s =~= seq![s[0]] + rest);
        }
        assert forall|i: int| 0 <= i < front.len() implies is_white(#[trigger] front[i]) by {
            if i > 0 {
                assert(front[i] == white[i - 1]);
            }
        }
        (front, text)
    } else {
        assert(s =~= Seq::<char>::empty() + s);
        (Seq::empty(), s)
    }
}

/// The report in a line is what stands from the first brace on, up to white space at the end of the
/// line, whatever stands before; and the biome is the text that the report holds as hover text of the
/// large image in its data. Where the report is no JSON, or has no text there, no biome is named.
pub proof fn law_biome_is_read_from_the_report(before: Seq<char>, report: Seq<char>, after: Seq<char>)
    requires
        !before.contains('{'),
        report.len() > 0,
        report[0] == '{',
        !is_white(report.last()),
        forall|i: int| 0 <= i < after.len() ==> is_white(#[trigger] after[i]),
    ensures
        report_part(before + report + after) == Some(report),
        json_in(report) is None ==> biome_in(before + report + after) is None,
        json_in(report) matches Some(json) ==> match json.member("data"@).member("largeImage"@).member(
            "hoverText"@,
        ) {
            Json::Text(biome) => biome_in(before + report + after) == Some(biome),
            _ => biome_in(before + report + after) is None,
        },
{
    let line = before + report + after;
    let (white, text) = lemma_white_front(before);
    let kept = text + report;
    assert(line =~= white + kept + after);
    if text.len() > 0 {
        assert(kept[0] == text[0]);
    } else {
        assert(kept[0] == report[0]);
    }
    assert(kept.last() == report.last());
    law_white_space_around_is_dropped(white, kept, after);
    assert(!text.contains('{')) by {
        if text.contains('{') {
            let i = choose|i: int| 0 <= i < text.len() && text[i] == '{';
            assert(before[white.len() + i] == '{');
        }
    }
    let rest = report.subrange(1, report.len() as int);
    assert(kept =~= text + seq!['{'] + rest);
    law_what_precedes_the_first_character(text, '{', rest);
    assert(kept.subrange(text.len() as int, kept.len() as int) =~= report);
}

/// What is left of a text without white space at its ends stands in the text.
proof fn lemma_trimmed_is_a_part(s: Seq<char>, c: char)
    requires
        !s.contains(c),
    ensures
        !trimmed(s).contains(c),
    decreases s.len(),
{
    if s.len() > 0 && is_white(s[0]) {
        let rest = s.subrange(1, s.len() as int);
        assert forall|i: int| 0 <= i < rest.len() implies rest[i] != c by {
            assert(s.contains(s[i + 1]));
        }
        lemma_trimmed_is_a_part(rest, c);
    } else if s.len() > 0 && is_white(s.last()) {
        let rest = s.drop_last();
        assert forall|i: int| 0 <= i < rest.len() implies rest[i] != c by {
            assert(s.contains(s[i]));
        }
        lemma_trimmed_is_a_part(rest, c);
    }
}

/// A line without a brace holds no report and names no biome.
pub proof fn law_line_without_a_brace_names_nothing(line: Seq<char>)
    requires
        !line.contains('{'),
    ensures
        report_part(line) is None,
        biome_in(line) is None,
{
    lemma_trimmed_is_a_part(line, '{');
}

/// The latest log is a file with the extension `log`; no other such file was written after it, and
/// none that comes later in the list was written with it. A file of which it is not known when it was
/// written counts as older than any of which it is.
pub proof fn law_latest_log_is_the_newest(files: Seq<LogFile>, at: int)
    ensures
        is_latest_log(files, at) <==> {
            &&& 0 <= at < files.len()
            &&& files[at].extension is Some && files[at].extension->0@ == "log"@
            &&& forall|i: int|
                0 <= i < files.len() && (#[trigger] files[i]).extension is Some && files[i].extension->0@ == "log"@
                    && files[i].modified is Some && i != at ==> {
                    &&& files[at].modified is Some
                    &&& files[i].modified->0 <= files[at].modified->0
                    &&& i > at ==> files[i].modified->0 < files[at].modified->0
                }
            &&& forall|i: int|
                at < i < files.len() && (#[trigger] files[i]).extension is Some && files[i].extension->0@ == "log"@
                    ==> files[at].modified is Some
        },
        forall|i: int|
            (#[trigger] files[i]).is_log() <==> files[i].extension is Some && files[i].extension->0@ == "log"@,
{
}

} // verus!
