//! What is said to the gateway and what it says.

use crate::json::{
    array, as_text, as_unsigned, boolean, elements_of, entries_of, entry, json_in, json_of,
    lemma_member_of_object, lemma_object_of_three, lemma_object_of_two, lemma_plain_object, member,
    members_of, null, object, object_of, parse, string, unsigned, write_value, written, Json,
};
use crate::settings::text_of;
use vstd::prelude::*;

verus! {

/// The address of the gateway.
pub const GATEWAY_URL: &'static str = "wss://gateway.discord.gg/?v=10&encoding=json";

/// The guild whose messages are followed.
pub const GUILD_ID: &'static str = "1186570213077041233";

/// How often to send a heartbeat where the gateway does not say, in milliseconds.
pub const DEFAULT_HEARTBEAT: u64 = 41000;

/// The payload that identifies a client by its token.
pub open spec fn identify_payload(token: Seq<char>) -> Json {
    object_of(
        seq![
            ("op"@, Json::Unsigned(2)),
            (
                "d"@,
                object_of(
                    seq![
                        ("token"@, Json::Text(token)),
                        (
                            "properties"@,
                            object_of(
                                seq![
                                    ("$os"@, Json::Text("windows"@)),
                                    ("$browser"@, Json::Text("chrome"@)),
                                    ("$device"@, Json::Text("pc"@)),
                                ],
                            ),
                        ),
                    ],
                ),
            ),
        ],
    )
}

/// The payload that subscribes to the guild.
pub open spec fn subscription_payload() -> Json {
    object_of(
        seq![
            ("op"@, Json::Unsigned(14)),
            (
                "d"@,
                object_of(
                    seq![
                        ("guild_id"@, Json::Text(GUILD_ID@)),
                        ("channels_ranges"@, object_of(seq![])),
                        ("typing"@, Json::Bool(true)),
                        ("threads"@, Json::Bool(false)),
                        ("activities"@, Json::Bool(false)),
                        ("members"@, Json::Array(seq![])),
                        ("thread_member_lists"@, Json::Array(seq![])),
                    ],
                ),
            ),
        ],
    )
}

/// The payload of a heartbeat.
pub open spec fn heartbeat_payload() -> Json {
    object_of(seq![("op"@, Json::Unsigned(1)), ("d"@, Json::Null)])
}

/// What the first message of the gateway says of heartbeats, in milliseconds.
pub open spec fn heartbeat_in(hello: Json) -> Option<u64> {
    hello.member("d"@).member("heartbeat_interval"@).unsigned()
}

/// What the gateway says of heartbeats, in milliseconds; the default where it says nothing.
pub open spec fn heartbeat_or_default(told: Option<u64>) -> u64 {
    match told {
        Some(millis) => millis,
        None => DEFAULT_HEARTBEAT,
    }
}

/// How often to send a heartbeat after the first message of the gateway, in milliseconds. A first
/// message that is no text, or says nothing of it, leaves the default.
pub open spec fn heartbeat_after(first: Option<Seq<char>>) -> u64 {
    match first {
        Some(text) => match json_in(text) {
            Some(hello) => heartbeat_or_default(heartbeat_in(hello)),
            None => DEFAULT_HEARTBEAT,
        },
        None => DEFAULT_HEARTBEAT,
    }
}

/// What an event of the gateway says, as far as it is read.
#[derive(Debug)]
pub struct ChatEvent {
    /// What happened.
    pub kind: Option<String>,
    /// The channel that it happened in.
    pub channel_id: Option<String>,
    /// What was written.
    pub content: Option<String>,
}

impl ChatEvent {
    /// Whether the event says what `event` says.
    pub open spec fn is_that_of(self, event: Json) -> bool {
        &&& text_of(self.kind) == event.member("t"@).text()
        &&& text_of(self.channel_id) == event.member("d"@).member("channel_id"@).text()
        &&& text_of(self.content) == event.member("d"@).member("content"@).text()
    }
}

/// What is sent to identify a client by its token.
pub fn identify(token: &str) -> (res: String)
    ensures
        res@ == written(identify_payload(token@)),
        json_in(res@) == Some(identify_payload(token@)),
{
    let members = vec![
        entry("$os", string("windows")),
        entry("$browser", string("chrome")),
        entry("$device", string("pc")),
    ];
    assert(entries_of(members@) =~= seq![
        ("$os"@, Json::Text("windows"@)),
        ("$browser"@, Json::Text("chrome"@)),
        ("$device"@, Json::Text("pc"@)),
    ]);
    proof {
        reveal_strlit("$os");
        reveal_strlit("$browser");
        reveal_strlit("$device");
        assert("$os"@.len() == 3 && "$browser"@.len() == 8 && "$device"@.len() == 7);
        lemma_plain_object(entries_of(members@), 97);
    }
    let properties = object(members);
    let ghost properties_json = json_of(properties);
    let members = vec![entry("token", string(token)), entry("properties", properties)];
    assert(entries_of(members@) =~= seq![
        ("token"@, Json::Text(token@)),
        ("properties"@, properties_json),
    ]);
    proof {
        reveal_strlit("token");
        reveal_strlit("properties");
        assert("token"@.len() == 5 && "properties"@.len() == 10);
        lemma_plain_object(entries_of(members@), 98);
    }
    let data = object(members);
    let ghost data_json = json_of(data);
    let members = vec![entry("op", unsigned(2)), entry("d", data)];
    assert(entries_of(members@) =~= seq![("op"@, Json::Unsigned(2)), ("d"@, data_json)]);
    proof {
        reveal_strlit("op");
        reveal_strlit("d");
        assert("op"@.len() == 2 && "d"@.len() == 1);
        lemma_plain_object(entries_of(members@), 99);
    }
    write_value(&object(members))
}

/// What is sent to subscribe to the guild.
pub fn subscribe() -> (res: String)
    ensures
        res@ == written(subscription_payload()),
        json_in(res@) == Some(subscription_payload()),
{
    let nothing: Vec<(String, serde_json::Value)> = vec![];
    assert(entries_of(nothing@) =~= seq![]);
    proof {
        lemma_plain_object(entries_of(nothing@), 97);
    }
    let no_values: Vec<serde_json::Value> = vec![];
    assert(elements_of(no_values@) =~= seq![]);
    let no_lists: Vec<serde_json::Value> = vec![];
    assert(elements_of(no_lists@) =~= seq![]);
    let members = vec![
        entry("guild_id", string(GUILD_ID)),
        entry("channels_ranges", object(nothing)),
        entry("typing", boolean(true)),
        entry("threads", boolean(false)),
        entry("activities", boolean(false)),
        entry("members", array(no_values)),
        entry("thread_member_lists", array(no_lists)),
    ];
    assert(entries_of(members@) =~= seq![
        ("guild_id"@, Json::Text(GUILD_ID@)),
        ("channels_ranges"@, object_of(seq![])),
        ("typing"@, Json::Bool(true)),
        ("threads"@, Json::Bool(false)),
        ("activities"@, Json::Bool(false)),
        ("members"@, Json::Array(seq![])),
        ("thread_member_lists"@, Json::Array(seq![])),
    ]);
    proof {
        reveal_strlit("guild_id");
        reveal_strlit("channels_ranges");
        reveal_strlit("typing");
        reveal_strlit("threads");
        reveal_strlit("activities");
        reveal_strlit("members");
        reveal_strlit("thread_member_lists");
        assert("guild_id"@.len() == 8 && "channels_ranges"@.len() == 15 && "typing"@.len() == 6);
        assert("threads"@.len() == 7 && "activities"@.len() == 10 && "members"@.len() == 7);
        assert("thread_member_lists"@.len() == 19);
        assert("threads"@[0] != "members"@[0]);
        lemma_plain_object(entries_of(members@), 98);
    }
    let data = object(members);
    let ghost data_json = json_of(data);
    let members = vec![entry("op", unsigned(14)), entry("d", data)];
    assert(entries_of(members@) =~= seq![("op"@, Json::Unsigned(14)), ("d"@, data_json)]);
    proof {
        reveal_strlit("op");
        reveal_strlit("d");
        assert("op"@.len() == 2 && "d"@.len() == 1);
        lemma_plain_object(entries_of(members@), 99);
    }
    write_value(&object(members))
}

/// What is sent as a heartbeat.
pub fn heartbeat() -> (res: String)
    ensures
        res@ == written(heartbeat_payload()),
        json_in(res@) == Some(heartbeat_payload()),
{
    let members = vec![entry("op", unsigned(1)), entry("d", null())];
    assert(entries_of(members@) =~= seq![("op"@, Json::Unsigned(1)), ("d"@, Json::Null)]);
    proof {
        reveal_strlit("op");
        reveal_strlit("d");
        assert("op"@.len() == 2 && "d"@.len() == 1);
        lemma_plain_object(entries_of(members@), 99);
    }
    write_value(&object(members))
}

/// What the first message of the gateway says of heartbeats, in milliseconds.
fn read_heartbeat(hello: &serde_json::Value) -> (res: Option<u64>)
    ensures
        res == heartbeat_in(json_of(*hello)),
{
    as_unsigned(member(member(hello, "d"), "heartbeat_interval"))
}

/// How often to send a heartbeat, given what the first message of the gateway says of it.
pub fn heartbeat_told(told: Option<u64>) -> (res: u64)
    ensures
        res == heartbeat_or_default(told),
{
    told.unwrap_or(DEFAULT_HEARTBEAT)
}

/// How often to send a heartbeat after the first message of the gateway, in milliseconds.
pub fn heartbeat_interval(first: Option<&str>) -> (res: u64)
    ensures
        res == heartbeat_after(
            match first {
                Some(text) => Some(text@),
                None => None,
            },
        ),
{
    let told = match first {
        Some(text) => match parse(text) {
            Some(hello) => read_heartbeat(&hello),
            None => None,
        },
        None => None,
    };
    heartbeat_told(told)
}

/// The text of a value, as the library's own.
fn owned_text(value: &serde_json::Value) -> (res: Option<String>)
    ensures
        text_of(res) == json_of(*value).text(),
{
    match as_text(value) {
        Some(text) => Some(text.to_owned()),
        None => None,
    }
}

impl ChatEvent {
    /// Takes what is read of an event.
    fn from_value(event: &serde_json::Value) -> (res: Self)
        ensures
            res.is_that_of(json_of(*event)),
    {
        let data = member(event, "d");
        ChatEvent {
            kind: owned_text(member(event, "t")),
            channel_id: owned_text(member(data, "channel_id")),
            content: owned_text(member(data, "content")),
        }
    }
}

/// Reads an event of the gateway; none where the text is no JSON.
pub fn read_event(text: &str) -> (res: Option<ChatEvent>)
    ensures
        match json_in(text@) {
            Some(event) => res is Some && res->0.is_that_of(event),
            None => res is None,
        },
{
    match parse(text) {
        Some(event) => Some(ChatEvent::from_value(&event)),
        None => None,
    }
}

/// The gateway finds the token in the payload that identifies a client.
pub proof fn law_identify_carries_the_token(token: Seq<char>)
    ensures
        identify_payload(token).member("op"@).unsigned() == Some(2u64),
        identify_payload(token).member("d"@).member("token"@).text() == Some(token),
{
    let properties = object_of(
        seq![
            ("$os"@, Json::Text("windows"@)),
            ("$browser"@, Json::Text("chrome"@)),
            ("$device"@, Json::Text("pc"@)),
        ],
    );
    let data = seq![("token"@, Json::Text(token)), ("properties"@, properties)];
    let members = seq![("op"@, Json::Unsigned(2)), ("d"@, object_of(data))];
    reveal_strlit("op");
    reveal_strlit("d");
    reveal_strlit("token");
    reveal_strlit("properties");
    assert("op"@.len() == 2 && "d"@.len() == 1);
    assert("token"@.len() == 5 && "properties"@.len() == 10);
    lemma_member_of_object(members, 0);
    lemma_member_of_object(members, 1);
    lemma_member_of_object(data, 0);
}

/// The payload that identifies a client holds the whole token, the kind of client, and nothing else.
pub proof fn law_identify_says_no_more(token: Seq<char>)
    ensures
        identify_payload(token) == Json::Object(
            map![
                "op"@ => Json::Unsigned(2),
                "d"@ => Json::Object(
                    map![
                        "token"@ => Json::Text(token),
                        "properties"@ => Json::Object(
                            map![
                                "$os"@ => Json::Text("windows"@),
                                "$browser"@ => Json::Text("chrome"@),
                                "$device"@ => Json::Text("pc"@),
                            ],
                        ),
                    ],
                ),
            ],
        ),
{
    let properties = seq![
        ("$os"@, Json::Text("windows"@)),
        ("$browser"@, Json::Text("chrome"@)),
        ("$device"@, Json::Text("pc"@)),
    ];
    lemma_object_of_three(properties);
    let data = seq![("token"@, Json::Text(token)), ("properties"@, object_of(properties))];
    lemma_object_of_two(data);
    let members = seq![("op"@, Json::Unsigned(2)), ("d"@, object_of(data))];
    lemma_object_of_two(members);
}

/// The payload of a heartbeat holds its operation, no data, and nothing else.
pub proof fn law_heartbeat_says_no_more()
    ensures
        heartbeat_payload() == Json::Object(map!["op"@ => Json::Unsigned(1), "d"@ => Json::Null]),
{
    lemma_object_of_two(seq![("op"@, Json::Unsigned(1)), ("d"@, Json::Null)]);
}

/// The payload that subscribes to the guild asks for what happens in that guild, for typing, and for
/// nothing else.
pub proof fn law_subscription_is_to_the_guild()
    ensures
        subscription_payload() == Json::Object(
            map![
                "op"@ => Json::Unsigned(14),
                "d"@ => Json::Object(
                    map![
                        "guild_id"@ => Json::Text("1186570213077041233"@),
                        "channels_ranges"@ => Json::Object(map![]),
                        "typing"@ => Json::Bool(true),
                        "threads"@ => Json::Bool(false),
                        "activities"@ => Json::Bool(false),
                        "members"@ => Json::Array(seq![]),
                        "thread_member_lists"@ => Json::Array(seq![]),
                    ],
                ),
            ],
        ),
{
    let data = seq![
        ("guild_id"@, Json::Text(GUILD_ID@)),
        ("channels_ranges"@, object_of(seq![])),
        ("typing"@, Json::Bool(true)),
        ("threads"@, Json::Bool(false)),
        ("activities"@, Json::Bool(false)),
        ("members"@, Json::Array(seq![])),
        ("thread_member_lists"@, Json::Array(seq![])),
    ];
    let front = data.take(3);
    assert(data.drop_last().drop_last().drop_last().drop_last() =~= front);
    lemma_object_of_three(front);
    reveal_with_fuel(members_of, 5);
    let members = seq![("op"@, Json::Unsigned(14)), ("d"@, object_of(data))];
    lemma_object_of_two(members);
    assert(members_of(seq![]) =~= Map::<Seq<char>, Json>::empty());
}

/// The heartbeat goes out as often as the gateway says in its first message, whatever number that is;
/// where the first message is no text, no JSON, or gives no whole number there, every 41 seconds.
pub proof fn law_heartbeat_keeps_the_pace_told(first: Seq<char>, told: u64)
    ensures
        json_in(first) matches Some(hello) ==> match hello.member("d"@).member("heartbeat_interval"@) {
            Json::Unsigned(millis) => heartbeat_after(Some(first)) == millis,
            _ => heartbeat_after(Some(first)) == 41000,
        },
        json_in(first) is None ==> heartbeat_after(Some(first)) == 41000,
        heartbeat_after(None) == 41000,
        heartbeat_or_default(Some(told)) == told,
        heartbeat_or_default(None) == 41000,
{
}

/// What is read of an event is the whole text of its kind, its channel and its content, each where it
/// is a text.
pub proof fn law_event_is_read_whole(event: ChatEvent, report: Json)
    requires
        event.is_that_of(report),
    ensures
        match report.member("t"@) {
            Json::Text(kind) => event.kind is Some && event.kind->0@ == kind,
            _ => event.kind is None,
        },
        match report.member("d"@).member("channel_id"@) {
            Json::Text(channel) => event.channel_id is Some && event.channel_id->0@ == channel,
            _ => event.channel_id is None,
        },
        match report.member("d"@).member("content"@) {
            Json::Text(content) => event.content is Some && event.content->0@ == content,
            _ => event.content is None,
        },
{
}

} // verus!
