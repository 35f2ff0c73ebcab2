use weii_joins::gateway::{heartbeat, heartbeat_interval, heartbeat_told, identify, read_event, subscribe, ChatEvent};
use weii_joins::session::{list_devices, open_shell, Action, Event, Phase};
use weii_joins::settings::{switched_on, Settings};
use weii_joins::sniper::{Launch, Sniper};
use weii_joins::webhook::{is_refusal, send_webhook_notification};

const CODE: &str = "12345678901234567890123456789012";

const CONFIG: &str = "[Authentication]
Discord Token = tok\"en
[Webhook]
Webhook Link = https://example.com/hook
discord user id = 99
[Technical]
LDPlayer Path = C:/LDPlayer
Use LDPlayer = TRUE ; on
[Toggles]
Corruption = True
Jester = false
Rin = true
Cyberspace = yes
";

fn sniper() -> Sniper {
    let mut sniper = Sniper::new(Some(CONFIG));
    assert!(sniper.activate());
    sniper
}

#[test]
fn settings_are_read() {
    let settings = Settings::read(Some(CONFIG));
    assert_eq!(settings.discord_token, Some("tok\"en".to_string()));
    assert_eq!(settings.webhook_link, Some("https://example.com/hook".to_string()));
    assert_eq!(settings.discord_user_id, Some("99".to_string()));
    assert_eq!(settings.ldplayer_path, Some("C:/LDPlayer".to_string()));
    assert_eq!(settings.use_ldplayer, Some("TRUE".to_string()));
    assert_eq!(settings.toggles[0], Some("True".to_string()));
    assert_eq!(settings.toggles[3], None);
    assert_eq!(settings.toggles[5], Some("yes".to_string()));
}

#[test]
fn a_refused_configuration_gives_no_settings() {
    for text in [Some("[Toggles\nRin = true"), Some("[Toggles]\nRin = true\n= 3"), Some(""), None] {
        let settings = Settings::read(text);
        assert_eq!(settings.discord_token, None);
        assert!(settings.toggles.iter().all(|toggle| toggle.is_none()));
    }
}

#[test]
fn only_true_switches_on() {
    assert!(switched_on(&Some("tRuE".to_string())));
    assert!(!switched_on(&Some("yes".to_string())));
    assert!(!switched_on(&Some("true ".to_string())));
    assert!(!switched_on(&Some("".to_string())));
    assert!(!switched_on(&None));
}

#[test]
fn choices_that_are_on_become_active() {
    let mut sniper = Sniper::new(Some(CONFIG));
    assert!(sniper.activated_index.is_empty());
    assert!(sniper.activate());
    assert_eq!(sniper.activated_index, vec![0, 2]);
    assert!(sniper.uses_ldplayer());
}

#[test]
fn nothing_on_is_refused() {
    let mut sniper = Sniper::new(None);
    assert!(!sniper.activate());
    assert!(sniper.activated_index.is_empty());
    assert_eq!(
        sniper.run(Phase::Starting, &Event::Started),
        (Phase::Ended, Action::Refuse("At least one option has to be True.".to_string()))
    );
}

#[test]
fn messages_about_a_biome_are_processed() {
    let sniper = sniper();
    let mut share = true;
    let message =
        format!("CORRUPTION https://www.roblox.com/games/15532962292/x?privateServerLinkCode={}", CODE);
    assert_eq!(sniper.process_message(&message, 0, &mut share), Some(CODE.to_string()));
    assert!(!share);
    share = true;
    assert_eq!(sniper.process_message(&message, 2, &mut share), None);
    assert!(share);
    assert_eq!(sniper.process_message("corruption, no link", 0, &mut share), None);
    assert!(share);
}

#[test]
fn game_is_started_where_it_runs() {
    assert_eq!(
        sniper().handle_server_join("7", false),
        Launch::Emulator(
            "am start -a android.intent.action.VIEW roblox://placeID=15532962292\\&linkCode=7\n".to_string()
        )
    );
    assert_eq!(
        Sniper::new(None).handle_server_join("7", true),
        Launch::Desktop(vec![
            "/C".to_string(),
            "start".to_string(),
            "".to_string(),
            "roblox://navigation/share_links?code=7^&type=Server".to_string(),
        ])
    );
}

#[test]
fn payloads_are_written() {
    assert_eq!(
        identify("tok\"en"),
        "{\"d\":{\"properties\":{\"$browser\":\"chrome\",\"$device\":\"pc\",\"$os\":\"windows\"},\"token\":\"tok\\\"en\"},\"op\":2}"
    );
    assert_eq!(
        subscribe(),
        "{\"d\":{\"activities\":false,\"channels_ranges\":{},\"guild_id\":\"1186570213077041233\",\"members\":[],\"thread_member_lists\":[],\"threads\":false,\"typing\":true},\"op\":14}"
    );
    assert_eq!(heartbeat(), "{\"d\":null,\"op\":1}");
}

#[test]
fn heartbeat_interval_is_read() {
    assert_eq!(heartbeat_interval(Some("{\"op\":10,\"d\":{\"heartbeat_interval\":41250}}")), 41250);
    assert_eq!(heartbeat_interval(Some("{\"d\":{\"heartbeat_interval\":-1}}")), 41000);
    assert_eq!(heartbeat_interval(Some("{\"d\":{\"heartbeat_interval\":1.5}}")), 41000);
    assert_eq!(heartbeat_interval(Some("{\"d\":{\"heartbeat_interval\":\"5\"}}")), 41000);
    assert_eq!(heartbeat_interval(Some("{\"d\":null}")), 41000);
    assert_eq!(heartbeat_interval(Some("not json")), 41000);
    assert_eq!(heartbeat_interval(None), 41000);
}

#[test]
fn events_are_read() {
    let event = read_event("{\"t\":\"MESSAGE_CREATE\",\"d\":{\"channel_id\":\"5\",\"content\":\"hi\"}}").unwrap();
    assert_eq!(event.kind, Some("MESSAGE_CREATE".to_string()));
    assert_eq!(event.channel_id, Some("5".to_string()));
    assert_eq!(event.content, Some("hi".to_string()));
    let event = read_event("{\"t\":null,\"d\":{\"channel_id\":5}}").unwrap();
    assert_eq!(event.kind, None);
    assert_eq!(event.channel_id, None);
    assert_eq!(event.content, None);
    assert!(read_event("{").is_none());
}

fn event(kind: &str, channel_id: Option<&str>) -> ChatEvent {
    ChatEvent {
        kind: Some(kind.to_string()),
        channel_id: channel_id.map(|text| text.to_string()),
        content: Some("hi".to_string()),
    }
}

#[test]
fn messages_go_to_the_choices_of_their_channel() {
    let mut sniper = sniper();
    sniper.activated_index = vec![0, 1, 2, 5];
    assert_eq!(sniper.route(1282542323590496277), vec![0, 5]);
    assert_eq!(sniper.route(1282543762425516083), vec![1, 2]);
    assert!(sniper.route(0).is_empty());
    assert_eq!(
        sniper.dispatch(event("MESSAGE_CREATE", Some("+1282543762425516083"))),
        Action::Dispatch(vec![1, 2], "hi".to_string())
    );
    assert_eq!(
        sniper.dispatch(event("MESSAGE_CREATE", Some("channel"))),
        Action::Dispatch(Vec::new(), "hi".to_string())
    );
    assert_eq!(
        sniper.dispatch(event("MESSAGE_CREATE", None)),
        Action::Dispatch(Vec::new(), "hi".to_string())
    );
    assert_eq!(sniper.dispatch(event("MESSAGE_UPDATE", Some("1282543762425516083"))), Action::Await);
}

#[test]
fn session_runs_its_course() {
    let sniper = sniper();
    assert_eq!(sniper.run(Phase::Starting, &Event::Started), (Phase::Listing, Action::ListDevices));
    assert_eq!(
        sniper.run(Phase::Listing, &Event::Devices(Some("emulator-5554\tdevice".to_string()))),
        (Phase::Opening, Action::OpenShells(vec!["emulator-5554".to_string()]))
    );
    assert_eq!(
        sniper.run(Phase::Listing, &Event::Devices(Some("".to_string()))),
        (Phase::Connecting, Action::Connect)
    );
    assert_eq!(sniper.run(Phase::Listing, &Event::Devices(None)), (Phase::Connecting, Action::Connect));
    assert_eq!(sniper.run(Phase::Opening, &Event::ShellsOpened), (Phase::Connecting, Action::Connect));
    assert_eq!(
        sniper.run(Phase::Connecting, &Event::Connected),
        (Phase::Greeting, Action::Greet(identify("tok\"en"), subscribe()))
    );
    assert_eq!(sniper.run(Phase::Connecting, &Event::ConnectFailed), (Phase::Pausing, Action::Pause(5000)));
    assert_eq!(sniper.run(Phase::Pausing, &Event::PauseOver), (Phase::Connecting, Action::Connect));
    assert_eq!(
        sniper.run(Phase::Greeting, &Event::First(Some("{\"d\":{\"heartbeat_interval\":7}}".to_string()))),
        (Phase::Streaming, Action::Stream(7))
    );
    assert_eq!(sniper.run(Phase::Greeting, &Event::First(None)), (Phase::Streaming, Action::Stream(41000)));
}

#[test]
fn session_streams_and_reconnects() {
    let sniper = sniper();
    let streaming = Phase::Streaming;
    assert_eq!(sniper.run(streaming, &Event::Tick), (streaming, Action::SendHeartbeat(heartbeat())));
    assert_eq!(sniper.run(streaming, &Event::HeartbeatSent(true)), (streaming, Action::Await));
    assert_eq!(sniper.run(streaming, &Event::HeartbeatSent(false)), (Phase::Connecting, Action::Connect));
    assert_eq!(sniper.run(streaming, &Event::Closed), (Phase::Connecting, Action::Connect));
    assert_eq!(sniper.run(streaming, &Event::Other), (streaming, Action::Await));
    assert_eq!(sniper.run(streaming, &Event::Text("?".to_string())), (streaming, Action::Await));
    let text = "{\"t\":\"MESSAGE_CREATE\",\"d\":{\"channel_id\":\"1282543762425516083\",\"content\":\"rin\"}}";
    assert_eq!(
        sniper.run(streaming, &Event::Text(text.to_string())),
        (streaming, Action::Dispatch(vec![2], "rin".to_string()))
    );
    assert_eq!(sniper.run(Phase::Connecting, &Event::Tick), (Phase::Connecting, Action::Await));
}

#[test]
fn without_emulators_the_session_connects_at_once() {
    let mut sniper = Sniper::new(Some("[Toggles]\nGlitched = true"));
    assert!(sniper.activate());
    assert_eq!(sniper.run(Phase::Starting, &Event::Started), (Phase::Connecting, Action::Connect));
}

#[test]
fn notification_is_written() {
    let settings = Settings::read(Some(CONFIG));
    let notification = send_webhook_notification(&settings, 2, "42", true, "10:20:30").unwrap();
    assert_eq!(notification.url, "https://example.com/hook");
    assert_eq!(
        notification.body,
        "{\"content\":\"<@99>\",\"embeds\":[{\"color\":16749056,\"fields\":[{\"name\":\"Rin Link:\",\"value\":\"https://www.roblox.com/share?code=42&type=Server\"}],\"footer\":{\"text\":\"weii joins\"},\"title\":\"[10:20:30] Rin Link Sniped!\"}]}"
    );
}

#[test]
fn without_a_webhook_there_is_no_notification() {
    assert!(send_webhook_notification(&Settings::read(None), 2, "42", true, "10:20:30").is_none());
    assert!(send_webhook_notification(&Settings::read(None), 6, "42", true, "10:20:30").is_none());
    let empty = Settings::read(Some("[Webhook]\nWebhook Link =\n"));
    assert!(send_webhook_notification(&empty, 2, "42", true, "10:20:30").is_none());
}

#[test]
fn refusals_are_told_by_status() {
    assert!(is_refusal(400));
    assert!(is_refusal(503));
    assert!(!is_refusal(399));
    assert!(!is_refusal(204));
}

#[test]
fn what_is_sent_reads_back() {
    let read: serde_json::Value = serde_json::from_str(&identify("a\n\u{7f}\u{1f600}\\")).unwrap();
    assert_eq!(read["op"].as_u64(), Some(2));
    assert_eq!(read["d"]["token"].as_str(), Some("a\n\u{7f}\u{1f600}\\"));
    assert_eq!(read["d"]["properties"]["$os"].as_str(), Some("windows"));
    let read: serde_json::Value = serde_json::from_str(&subscribe()).unwrap();
    assert_eq!(read["d"]["guild_id"].as_str(), Some("1186570213077041233"));
    let settings = Settings::read(Some(CONFIG));
    let notification = send_webhook_notification(&settings, 0, CODE, false, "t").unwrap();
    let read: serde_json::Value = serde_json::from_str(&notification.body).unwrap();
    let address = read["embeds"][0]["fields"][0]["value"].as_str().unwrap();
    let mut share = true;
    assert_eq!(weii_joins::link::extract_server_code(address, &mut share), Some(CODE.to_string()));
    assert!(!share);
}

#[test]
fn heartbeat_is_what_the_gateway_tells() {
    assert_eq!(heartbeat_told(Some(9)), 9);
    assert_eq!(heartbeat_told(None), 41000);
}

#[test]
fn devices_are_listed_and_shells_opened() {
    assert_eq!(list_devices(), vec!["devices"]);
    assert_eq!(open_shell("emulator-5554"), vec!["-s", "emulator-5554", "shell"]);
}
