//! The course of a session with the gateway: what to do next, after each thing that happens.

use crate::biome::channels;
use crate::gateway::{
    heartbeat, heartbeat_after, heartbeat_interval, heartbeat_payload, identify, identify_payload,
    read_event, subscribe, subscription_payload, ChatEvent,
};
use crate::json::{json_in, written, Json};
use crate::pattern::{all_matched, emulator_grammar, find_devices};
use crate::settings::{is_on, text_of, text_or_empty, value_or_empty};
use crate::sniper::{
    channel_number, choices_for, law_message_goes_to_its_channel, read_channel_number, Sniper,
};
use crate::text::{number_in, same};
use vstd::prelude::*;

verus! {

/// What is said where no biome is switched on.
pub const NOTHING_ON: &'static str = "At least one option has to be True.";

/// How long to wait before connecting again after a failure to connect, in milliseconds.
pub const RECONNECT_PAUSE: u64 = 5000;

/// Where a session stands.
#[derive(Clone, Copy, Debug, PartialEq, Eq, Structural)]
pub enum Phase {
    /// Nothing was done yet.
    Starting,
    /// There is nothing to do.
    Ended,
    /// The list of devices is awaited.
    Listing,
    /// Shells are being opened on emulators.
    Opening,
    /// A connection is being made.
    Connecting,
    /// Another try to connect is put off.
    Pausing,
    /// The first message of the gateway is awaited.
    Greeting,
    /// Messages come in and heartbeats go out.
    Streaming,
}

/// What happened.
#[derive(Debug)]
pub enum Event {
    /// The session was started.
    Started,
    /// The list of devices came, or the program that prints it could not be started.
    Devices(Option<String>),
    /// The shells were opened, as far as they could be.
    ShellsOpened,
    /// The connection was made.
    Connected,
    /// The connection could not be made.
    ConnectFailed,
    /// The pause is over.
    PauseOver,
    /// The gateway was greeted, and its first message came: its text, where it was one.
    First(Option<String>),
    /// A heartbeat is due.
    Tick,
    /// A heartbeat was sent, or could not be sent.
    HeartbeatSent(bool),
    /// A text came in.
    Text(String),
    /// Something else came in.
    Other,
    /// The connection was closed, or reading from it failed.
    Closed,
}

/// What to do next.
#[derive(Debug, PartialEq, Eq)]
pub enum Action {
    /// Say this and end.
    Refuse(String),
    /// Have the list of devices printed.
    ListDevices,
    /// Open a shell on each of these emulators.
    OpenShells(Vec<String>),
    /// Connect to the gateway.
    Connect,
    /// Wait for so many milliseconds.
    Pause(u64),
    /// Send both texts, whether or not the first could be sent, and read the first message.
    Greet(String, String),
    /// Start to send a heartbeat every so many milliseconds, and wait for what comes.
    Stream(u64),
    /// Send this heartbeat.
    SendHeartbeat(String),
    /// Process this message for each of these choices, and wait for what comes.
    Dispatch(Vec<usize>, String),
    /// Wait for what comes.
    Await,
}

/// What an `Action` stands for.
pub enum Decision {
    Refuse(Seq<char>),
    ListDevices,
    OpenShells(Seq<Seq<char>>),
    Connect,
    Pause(u64),
    Greet(Seq<char>, Seq<char>),
    Stream(u64),
    SendHeartbeat(Seq<char>),
    Dispatch(Seq<usize>, Seq<char>),
    Await,
}

impl View for Action {
    type V = Decision;

    open spec fn view(&self) -> Decision {
        match self {
            Action::Refuse(notice) => Decision::Refuse(notice@),
            Action::ListDevices => Decision::ListDevices,
            Action::OpenShells(devices) => Decision::OpenShells(
                devices@.map_values(|name: String| name@),
            ),
            Action::Connect => Decision::Connect,
            Action::Pause(millis) => Decision::Pause(*millis),
            Action::Greet(identify, subscribe) => Decision::Greet(identify@, subscribe@),
            Action::Stream(millis) => Decision::Stream(*millis),
            Action::SendHeartbeat(payload) => Decision::SendHeartbeat(payload@),
            Action::Dispatch(choices, content) => Decision::Dispatch(choices@, content@),
            Action::Await => Decision::Await,
        }
    }
}

/// What to do about an event of which the kind, the channel and the content are given.
pub open spec fn decision_on_event(
    active: Seq<usize>,
    kind: Option<Seq<char>>,
    channel_id: Option<Seq<char>>,
    content: Option<Seq<char>>,
) -> Decision {
    if kind == Some("MESSAGE_CREATE"@) {
        Decision::Dispatch(
            choices_for(active, channel_number(channel_id), 6),
            match content {
                Some(text) => text,
                None => Seq::empty(),
            },
        )
    } else {
        Decision::Await
    }
}

/// What to do about a text from the gateway.
pub open spec fn decision_on_text(active: Seq<usize>, text: Seq<char>) -> Decision {
    match json_in(text) {
        Some(event) => decision_on_event(
            active,
            event.member("t"@).text(),
            event.member("d"@).member("channel_id"@).text(),
            event.member("d"@).member("content"@).text(),
        ),
        None => Decision::Await,
    }
}

/// Where a session goes from a phase on something that happened, and what to do then. What cannot
/// happen in a phase changes nothing.
pub open spec fn next(sniper: Sniper, phase: Phase, event: Event) -> (Phase, Decision) {
    match (phase, event) {
        (Phase::Starting, Event::Started) => if sniper.activated_index@.len() == 0 {
            (Phase::Ended, Decision::Refuse(NOTHING_ON@))
        } else if is_on(sniper.settings.use_ldplayer) {
            (Phase::Listing, Decision::ListDevices)
        } else {
            (Phase::Connecting, Decision::Connect)
        },
        (Phase::Listing, Event::Devices(Some(output))) => {
            let devices = all_matched(emulator_grammar(), output@);
            if devices.len() == 0 {
                (Phase::Connecting, Decision::Connect)
            } else {
                (Phase::Opening, Decision::OpenShells(devices))
            }
        },
        (Phase::Listing, Event::Devices(None)) => (Phase::Connecting, Decision::Connect),
        (Phase::Opening, Event::ShellsOpened) => (Phase::Connecting, Decision::Connect),
        (Phase::Connecting, Event::Connected) => (
            Phase::Greeting,
            Decision::Greet(
                written(identify_payload(text_or_empty(sniper.settings.discord_token))),
                written(subscription_payload()),
            ),
        ),
        (Phase::Connecting, Event::ConnectFailed) => (Phase::Pausing, Decision::Pause(RECONNECT_PAUSE)),
        (Phase::Pausing, Event::PauseOver) => (Phase::Connecting, Decision::Connect),
        (Phase::Greeting, Event::First(text)) => (
            Phase::Streaming,
            Decision::Stream(heartbeat_after(text_of(text))),
        ),
        (Phase::Streaming, Event::Tick) => (
            Phase::Streaming,
            Decision::SendHeartbeat(written(heartbeat_payload())),
        ),
        (Phase::Streaming, Event::HeartbeatSent(true)) => (Phase::Streaming, Decision::Await),
        (Phase::Streaming, Event::HeartbeatSent(false)) => (Phase::Connecting, Decision::Connect),
        (Phase::Streaming, Event::Text(text)) => (
            Phase::Streaming,
            decision_on_text(sniper.activated_index@, text@),
        ),
        (Phase::Streaming, Event::Other) => (Phase::Streaming, Decision::Await),
        (Phase::Streaming, Event::Closed) => (Phase::Connecting, Decision::Connect),
        _ => (phase, Decision::Await),
    }
}

/// The arguments with which `adb` opens a shell on a device.
pub open spec fn shell_arguments(device: Seq<char>) -> Seq<Seq<char>> {
    seq!["-s"@, device, "shell"@]
}

/// Writes the arguments with which `adb` prints the list of devices.
pub fn list_devices() -> (res: Vec<String>)
    ensures
        res@.map_values(|argument: String| argument@) == seq!["devices"@],
{
    let res = vec!["devices".to_owned()];
    assert(res@.map_values(|argument: String| argument@) =~= seq!["devices"@]);
    res
}

/// Writes the arguments with which `adb` opens a shell on a device.
pub fn open_shell(device: &str) -> (res: Vec<String>)
    ensures
        res@.map_values(|argument: String| argument@) == shell_arguments(device@),
{
    let res = vec!["-s".to_owned(), device.to_owned(), "shell".to_owned()];
    assert(res@.map_values(|argument: String| argument@) =~= shell_arguments(device@));
    res
}

impl Sniper {
    /// Decides what to do about an event of the gateway.
    pub fn dispatch(&self, event: ChatEvent) -> (res: Action)
        ensures
            res@ == decision_on_event(
                self.activated_index@,
                text_of(event.kind),
                text_of(event.channel_id),
                text_of(event.content),
            ),
    {
        let is_message = match &event.kind {
            Some(kind) => same(kind.as_str(), "MESSAGE_CREATE"),
            None => false,
        };
        if is_message {
            let choices = self.route(read_channel_number(&event.channel_id));
            Action::Dispatch(choices, value_or_empty(&event.content))
        } else {
            Action::Await
        }
    }

    /// Runs a session on by one thing that happened: says where it goes, and what to do then.
    pub fn run(&self, phase: Phase, event: &Event) -> (res: (Phase, Action))
        ensures
            (res.0, res.1@) == next(*self, phase, *event),
            res.1 matches Action::Greet(identify, subscribe) ==> {
                &&& json_in(identify@) == Some(identify_payload(text_or_empty(self.settings.discord_token)))
                &&& json_in(subscribe@) == Some(subscription_payload())
            },
            res.1 matches Action::SendHeartbeat(payload) ==> json_in(payload@) == Some(heartbeat_payload()),
    {
        match (phase, event) {
            (Phase::Starting, Event::Started) => {
                if self.activated_index.len() == 0 {
                    (Phase::Ended, Action::Refuse(NOTHING_ON.to_owned()))
                } else if self.uses_ldplayer() {
                    (Phase::Listing, Action::ListDevices)
                } else {
                    (Phase::Connecting, Action::Connect)
                }
            },
            (Phase::Listing, Event::Devices(Some(output))) => {
                let devices = find_devices(output.as_str());
                if devices.len() == 0 {
                    (Phase::Connecting, Action::Connect)
                } else {
                    (Phase::Opening, Action::OpenShells(devices))
                }
            },
            (Phase::Listing, Event::Devices(None)) => (Phase::Connecting, Action::Connect),
            (Phase::Opening, Event::ShellsOpened) => (Phase::Connecting, Action::Connect),
            (Phase::Connecting, Event::Connected) => {
                let token = value_or_empty(&self.settings.discord_token);
                (Phase::Greeting, Action::Greet(identify(token.as_str()), subscribe()))
            },
            (Phase::Connecting, Event::ConnectFailed) => (Phase::Pausing, Action::Pause(RECONNECT_PAUSE)),
            (Phase::Pausing, Event::PauseOver) => (Phase::Connecting, Action::Connect),
            (Phase::Greeting, Event::First(text)) => {
                let millis: u64 = match text {
                    Some(text) => heartbeat_interval(Some(text.as_str())),
                    None => heartbeat_interval(None),
                };
                (Phase::Streaming, Action::Stream(millis))
            },
            (Phase::Streaming, Event::Tick) => (Phase::Streaming, Action::SendHeartbeat(heartbeat())),
            (Phase::Streaming, Event::HeartbeatSent(true)) => (Phase::Streaming, Action::Await),
            (Phase::Streaming, Event::HeartbeatSent(false)) => (Phase::Connecting, Action::Connect),
            (Phase::Streaming, Event::Text(text)) => {
                let action = match read_event(text.as_str()) {
                    Some(event) => self.dispatch(event),
                    None => Action::Await,
                };
                (Phase::Streaming, action)
            },
            (Phase::Streaming, Event::Other) => (Phase::Streaming, Action::Await),
            (Phase::Streaming, Event::Closed) => (Phase::Connecting, Action::Connect),
            _ => (phase, Action::Await),
        }
    }
}

/// Messages are processed only while the session is streaming, only where the gateway reports a
/// new message, and only for choices that are active and announced in the channel of the message.
pub proof fn law_only_new_messages_are_processed(sniper: Sniper, phase: Phase, event: Event)
    ensures
        next(sniper, phase, event).1 matches Decision::Dispatch(choices, content) ==> {
            &&& phase is Streaming
            &&& event matches Event::Text(text)
            &&& json_in(text@) matches Some(report)
            &&& report.member("t"@).text() == Some("MESSAGE_CREATE"@)
            &&& forall|choice_id: usize|
                choices.contains(choice_id) ==> choice_id < 6 && sniper.activated_index@.contains(choice_id)
                    && channels()[choice_id as int] == channel_number(
                    report.member("d"@).member("channel_id"@).text(),
                )
        },
{
    if let Event::Text(text) = event {
        if let Some(report) = json_in(text@) {
            law_message_goes_to_its_channel(
                sniper.activated_index@,
                channel_number(report.member("d"@).member("channel_id"@).text()),
            );
        }
    }
}

/// A session that is streaming goes on streaming or connects anew at once; it connects anew
/// exactly where the connection was closed or a heartbeat could not be sent.
pub proof fn law_lost_connection_is_made_anew(sniper: Sniper, event: Event)
    ensures
        next(sniper, Phase::Streaming, event) == (Phase::Connecting, Decision::Connect) || next(
            sniper,
            Phase::Streaming,
            event,
        ).0 is Streaming,
        next(sniper, Phase::Streaming, event).0 is Connecting <==> event is Closed || event == Event::HeartbeatSent(
            false,
        ),
{
}

/// A session ends only at its start, and exactly where no choice is active.
pub proof fn law_session_ends_only_where_nothing_is_on(sniper: Sniper, phase: Phase, event: Event)
    requires
        !(phase is Ended),
    ensures
        next(sniper, phase, event).0 is Ended <==> phase is Starting && event is Started
            && sniper.activated_index@.len() == 0,
        next(sniper, phase, event).0 is Ended <==> next(sniper, phase, event).1 == Decision::Refuse(NOTHING_ON@),
{
}

/// The gateway is greeted once for each connection that is made, before any heartbeat goes out or
/// any message is processed: a greeting comes only from a connection just made, and streaming
/// only after a greeting.
pub proof fn law_greeting_comes_first(sniper: Sniper, phase: Phase, event: Event)
    ensures
        next(sniper, phase, event).1 is Greet <==> phase is Connecting && event is Connected,
        next(sniper, phase, event).0 is Greeting <==> (phase is Connecting && event is Connected) || (
        phase is Greeting && !(event is First)),
        next(sniper, phase, event).0 is Streaming ==> (phase is Greeting && event is First) || phase is Streaming,
        next(sniper, phase, event).1 is SendHeartbeat ==> phase is Streaming && event is Tick,
{
}

/// Where a session stands after the first `count` things that happened to it.
pub open spec fn phase_after(sniper: Sniper, events: Seq<Event>, count: int) -> Phase
    decreases count,
{
    if count <= 0 {
        Phase::Starting
    } else {
        next(sniper, phase_after(sniper, events, count - 1), events[count - 1]).0
    }
}

/// What a session does about the thing that happened to it at `at`.
pub open spec fn decision_at(sniper: Sniper, events: Seq<Event>, at: int) -> Decision {
    next(sniper, phase_after(sniper, events, at), events[at]).1
}

/// Whether the gateway was greeted at `at`, and no connection was asked for between then and `end`.
pub open spec fn greeted_at(sniper: Sniper, events: Seq<Event>, at: int, end: int) -> bool {
    &&& 0 <= at < end
    &&& decision_at(sniper, events, at) is Greet
    &&& forall|i: int| at < i < end ==> !(#[trigger] decision_at(sniper, events, i) is Connect)
}

proof fn lemma_greeted(sniper: Sniper, events: Seq<Event>, end: int)
    requires
        0 <= end <= events.len(),
        phase_after(sniper, events, end) is Greeting || phase_after(sniper, events, end) is Streaming,
    ensures
        exists|at: int| greeted_at(sniper, events, at, end),
    decreases end,
{
    if decision_at(sniper, events, end - 1) is Greet {
        assert(greeted_at(sniper, events, end - 1, end));
    } else {
        let before = end - 1;
        lemma_greeted(sniper, events, before);
        let at = choose|at: int| greeted_at(sniper, events, at, before);
        assert(greeted_at(sniper, events, at, end));
    }
}

/// Whatever happens to a session, in whatever order: before a heartbeat goes out or a message is
/// processed the gateway was greeted, on the connection that was made last.
pub proof fn law_nothing_is_sent_before_a_greeting(sniper: Sniper, events: Seq<Event>, end: int)
    requires
        0 <= end < events.len(),
        decision_at(sniper, events, end) is SendHeartbeat || decision_at(sniper, events, end) is Dispatch,
    ensures
        exists|at: int| greeted_at(sniper, events, at, end),
{
    lemma_greeted(sniper, events, end);
}

/// Shells are opened only on emulators that the list of devices names, and only where the game
/// runs on emulators.
pub proof fn law_shells_are_opened_on_listed_emulators(sniper: Sniper, phase: Phase, event: Event)
    ensures
        next(sniper, phase, event).1 matches Decision::OpenShells(devices) ==> {
            &&& phase is Listing
            &&& event matches Event::Devices(Some(output))
            &&& devices == all_matched(emulator_grammar(), output@)
            &&& devices.len() > 0
        },
        next(sniper, phase, event).0 is Listing ==> phase is Listing || is_on(sniper.settings.use_ldplayer),
{
}

/// Of every new message the whole content is processed, or none where it has none, while the session is
/// streaming: for each active choice that is announced in the channel of the message, in order, and
/// for no other.
pub proof fn law_whole_content_is_processed(sniper: Sniper, text: String, report: Json)
    requires
        json_in(text@) == Some(report),
        report.member("t"@) == Json::Text("MESSAGE_CREATE"@),
    ensures
        next(sniper, Phase::Streaming, Event::Text(text)).0 is Streaming,
        next(sniper, Phase::Streaming, Event::Text(text)).1 matches Decision::Dispatch(choices, content) && {
            &&& match report.member("d"@).member("content"@) {
                Json::Text(whole) => content == whole,
                _ => content.len() == 0,
            }
            &&& forall|choice_id: usize|
                #[trigger] choices.contains(choice_id) <==> {
                    &&& choice_id < 6
                    &&& sniper.activated_index@.contains(choice_id)
                    &&& report.member("d"@).member("channel_id"@) matches Json::Text(channel)
                    &&& number_in(channel) == Some(channels()[choice_id as int])
                }
            &&& forall|i: int, j: int| 0 <= i < j < choices.len() ==> choices[i] < choices[j]
        },
{
    let channel_id = report.member("d"@).member("channel_id"@).text();
    law_message_goes_to_its_channel(sniper.activated_index@, channel_number(channel_id));
}

/// An event that reports a new message has its whole content processed, whatever the content; any other
/// event has nothing processed.
pub proof fn law_event_is_processed_whole(
    active: Seq<usize>,
    kind: Option<Seq<char>>,
    channel_id: Option<Seq<char>>,
    content: Option<Seq<char>>,
)
    ensures
        kind == Some("MESSAGE_CREATE"@) <==> decision_on_event(active, kind, channel_id, content) is Dispatch,
        kind != Some("MESSAGE_CREATE"@) <==> decision_on_event(active, kind, channel_id, content) is Await,
        decision_on_event(active, kind, channel_id, content) matches Decision::Dispatch(choices, processed) ==> {
            &&& content matches Some(whole) ==> processed == whole
            &&& content is None ==> processed.len() == 0
            &&& forall|choice_id: usize|
                #[trigger] choices.contains(choice_id) <==> {
                    &&& choice_id < 6
                    &&& active.contains(choice_id)
                    &&& channel_id matches Some(channel)
                    &&& number_in(channel) == Some(channels()[choice_id as int])
                }
            &&& forall|i: int, j: int| 0 <= i < j < choices.len() ==> choices[i] < choices[j]
        },
{
    law_message_goes_to_its_channel(active, channel_number(channel_id));
}

/// A text that is no JSON, or reports anything but a new message, is passed over.
pub proof fn law_other_reports_are_passed_over(sniper: Sniper, text: String)
    requires
        json_in(text@) matches Some(report) ==> report.member("t"@) != Json::Text("MESSAGE_CREATE"@),
    ensures
        next(sniper, Phase::Streaming, Event::Text(text)) == (Phase::Streaming, Decision::Await),
{
}

/// How a session starts: it is refused with a notice where no choice is active; otherwise the emulators
/// are listed where the game runs on them, and the connection is made at once where it does not.
pub proof fn law_session_starts_where_something_is_on(sniper: Sniper)
    ensures
        sniper.activated_index@.len() == 0 ==> next(sniper, Phase::Starting, Event::Started) == (
            Phase::Ended,
            Decision::Refuse("At least one option has to be True."@),
        ),
        sniper.activated_index@.len() > 0 && is_on(sniper.settings.use_ldplayer) ==> next(
            sniper,
            Phase::Starting,
            Event::Started,
        ) == (Phase::Listing, Decision::ListDevices),
        sniper.activated_index@.len() > 0 && !is_on(sniper.settings.use_ldplayer) ==> next(
            sniper,
            Phase::Starting,
            Event::Started,
        ) == (Phase::Connecting, Decision::Connect),
{
}

/// Shells are opened on all emulators that are listed, then the connection is made; it is made at once
/// where none is listed or the list cannot be had.
pub proof fn law_listed_emulators_get_shells(sniper: Sniper, output: String)
    ensures
        all_matched(emulator_grammar(), output@).len() > 0 ==> next(
            sniper,
            Phase::Listing,
            Event::Devices(Some(output)),
        ) == (Phase::Opening, Decision::OpenShells(all_matched(emulator_grammar(), output@))),
        all_matched(emulator_grammar(), output@).len() == 0 ==> next(
            sniper,
            Phase::Listing,
            Event::Devices(Some(output)),
        ) == (Phase::Connecting, Decision::Connect),
        next(sniper, Phase::Listing, Event::Devices(None)) == (Phase::Connecting, Decision::Connect),
        next(sniper, Phase::Opening, Event::ShellsOpened) == (Phase::Connecting, Decision::Connect),
{
}

/// Once connected, the client is identified by the whole token, empty where there is none, and then
/// subscribed. A failure to connect is followed by a pause of five seconds and another try.
pub proof fn law_connection_is_greeted_or_tried_again(sniper: Sniper)
    ensures
        sniper.settings.discord_token matches Some(token) ==> next(sniper, Phase::Connecting, Event::Connected) == (
            Phase::Greeting,
            Decision::Greet(written(identify_payload(token@)), written(subscription_payload())),
        ),
        sniper.settings.discord_token is None ==> next(sniper, Phase::Connecting, Event::Connected) == (
            Phase::Greeting,
            Decision::Greet(written(identify_payload(seq![])), written(subscription_payload())),
        ),
        next(sniper, Phase::Connecting, Event::ConnectFailed) == (Phase::Pausing, Decision::Pause(5000)),
        next(sniper, Phase::Pausing, Event::PauseOver) == (Phase::Connecting, Decision::Connect),
{
}

/// After the greeting a heartbeat goes out as often as the first message says, whatever number it gives,
/// and every 41 seconds where it gives none. Each time one is due it is sent.
pub proof fn law_heartbeats_are_sent_as_told(sniper: Sniper, text: String)
    ensures
        json_in(text@) matches Some(hello) ==> match hello.member("d"@).member("heartbeat_interval"@) {
            Json::Unsigned(millis) => next(sniper, Phase::Greeting, Event::First(Some(text))) == (
                Phase::Streaming,
                Decision::Stream(millis),
            ),
            _ => next(sniper, Phase::Greeting, Event::First(Some(text))) == (
                Phase::Streaming,
                Decision::Stream(41000),
            ),
        },
        json_in(text@) is None ==> next(sniper, Phase::Greeting, Event::First(Some(text))) == (
            Phase::Streaming,
            Decision::Stream(41000),
        ),
        next(sniper, Phase::Greeting, Event::First(None)) == (Phase::Streaming, Decision::Stream(41000)),
        next(sniper, Phase::Streaming, Event::Tick) == (
            Phase::Streaming,
            Decision::SendHeartbeat(written(heartbeat_payload())),
        ),
        next(sniper, Phase::Streaming, Event::HeartbeatSent(true)) == (Phase::Streaming, Decision::Await),
        next(sniper, Phase::Streaming, Event::HeartbeatSent(false)) == (Phase::Connecting, Decision::Connect),
        next(sniper, Phase::Streaming, Event::Other) == (Phase::Streaming, Decision::Await),
        next(sniper, Phase::Streaming, Event::Closed) == (Phase::Connecting, Decision::Connect),
{
}

/// Whether a thing can happen to a session in a phase.
pub open spec fn is_in_place(phase: Phase, event: Event) -> bool {
    ||| phase is Starting && event is Started
    ||| phase is Listing && event is Devices
    ||| phase is Opening && event is ShellsOpened
    ||| phase is Connecting && (event is Connected || event is ConnectFailed)
    ||| phase is Pausing && event is PauseOver
    ||| phase is Greeting && event is First
    ||| phase is Streaming && (event is Tick || event is HeartbeatSent || event is Text || event is Other
        || event is Closed)
}

/// A thing that cannot happen in a phase changes nothing: the session stays in the phase and waits.
pub proof fn law_what_is_out_of_place_changes_nothing(sniper: Sniper, phase: Phase, event: Event)
    requires
        !is_in_place(phase, event),
    ensures
        next(sniper, phase, event) == (phase, Decision::Await),
{
}

/// Nothing of an action is lost in what it stands for.
pub proof fn law_actions_stand_for_themselves(
    first: String,
    second: String,
    devices: Vec<String>,
    choices: Vec<usize>,
    millis: u64,
    i: int,
)
    ensures
        Action::Refuse(first)@ == Decision::Refuse(first@),
        Action::ListDevices@ == Decision::ListDevices,
        Action::OpenShells(devices)@ matches Decision::OpenShells(names) && names.len() == devices@.len() && (0 <= i
            < names.len() ==> names[i] == devices@[i]@),
        Action::Connect@ == Decision::Connect,
        Action::Pause(millis)@ == Decision::Pause(millis),
        Action::Greet(first, second)@ == Decision::Greet(first@, second@),
        Action::Stream(millis)@ == Decision::Stream(millis),
        Action::SendHeartbeat(first)@ == Decision::SendHeartbeat(first@),
        Action::Dispatch(choices, first)@ == Decision::Dispatch(choices@, first@),
        Action::Await@ == Decision::Await,
{
}

/// A shell is opened on the very device that is named.
pub proof fn law_shell_is_opened_on_the_device(device: Seq<char>)
    ensures
        shell_arguments(device).len() == 3,
        shell_arguments(device)[0] == "-s"@,
        shell_arguments(device)[1] == device,
        shell_arguments(device)[2] == "shell"@,
{
}

} // verus!
