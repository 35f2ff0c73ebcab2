use weii_joins::watch::{
    check_logs, close_game, find_report, judge, latest_log, read_biome, LogAction, LogFile, Place, Reading,
    LOGCAT_LINE,
};

fn line(text: &str) -> Reading {
    Reading::Line(text.to_string())
}

fn report(biome: &str) -> String {
    format!(
        "2024 [BloxstrapRPC] {{\"command\":\"SetRichPresence\",\"data\":{{\"largeImage\":{{\"hoverText\":\"{}\"}}}}}}\r\n",
        biome
    )
}

#[test]
fn report_starts_at_the_first_brace() {
    assert_eq!(find_report("  x {a} {b} \u{a0}\n"), Some("{a} {b}".to_string()));
    assert_eq!(find_report("x"), None);
    assert_eq!(find_report("\t{"), Some("{".to_string()));
}

#[test]
fn biome_is_read_from_a_report() {
    assert_eq!(read_biome(&report("GLITCHED")), Some("GLITCHED".to_string()));
    assert_eq!(read_biome("{\"data\":{\"largeImage\":{\"hoverText\":7}}}"), None);
    assert_eq!(read_biome("{\"data\":{\"largeImage\":null}}"), None);
    assert_eq!(read_biome("{\"data\":[]}"), None);
    assert_eq!(read_biome("{not json}"), None);
    assert_eq!(read_biome("no report"), None);
    assert_eq!(
        read_biome("{\"data\":{\"largeImage\":{\"hoverText\":\"RAIN\"}}}\u{a0}"),
        Some("RAIN".to_string())
    );
}

#[test]
fn right_biome_is_kept() {
    assert_eq!(check_logs(Place::Emulator, &line(&report("GLITCHED")), 3), LogAction::Keep("GLITCHED".to_string()));
    assert_eq!(check_logs(Place::Desktop, &line(&report("Glitched")), 3), LogAction::Keep("Glitched".to_string()));
    assert_eq!(judge(Some("cyberSPACE".to_string()), 5), LogAction::Keep("cyberSPACE".to_string()));
}

#[test]
fn wrong_biome_is_closed() {
    assert_eq!(check_logs(Place::Emulator, &line(&report("NORMAL")), 3), LogAction::Close("NORMAL".to_string()));
    assert_eq!(check_logs(Place::Desktop, &line(&report("NORMAL")), 3), LogAction::Close("NORMAL".to_string()));
    assert_eq!(judge(Some("".to_string()), 0), LogAction::Close("".to_string()));
}

#[test]
fn lines_without_a_biome_are_passed_over() {
    assert_eq!(check_logs(Place::Emulator, &line("hello\n"), 0), LogAction::Continue);
    assert_eq!(check_logs(Place::Desktop, &line("hello\n"), 0), LogAction::Continue);
    let unmarked = report("NORMAL").replace("BloxstrapRPC", "Other");
    assert_eq!(check_logs(Place::Desktop, &line(&unmarked), 0), LogAction::Continue);
    assert_eq!(check_logs(Place::Emulator, &line(&unmarked), 0), LogAction::Close("NORMAL".to_string()));
}

#[test]
fn end_and_failure_depend_on_the_place() {
    assert_eq!(check_logs(Place::Emulator, &Reading::End, 0), LogAction::Stop);
    assert_eq!(check_logs(Place::Desktop, &Reading::End, 0), LogAction::Wait(200));
    assert_eq!(check_logs(Place::Emulator, &Reading::Failed, 0), LogAction::Stop);
    assert_eq!(check_logs(Place::Desktop, &Reading::Failed, 0), LogAction::Stop);
}

#[test]
fn game_is_closed_by_its_name() {
    assert_eq!(close_game(Place::Emulator), vec!["shell", "am", "force-stop", "com.roblox.client"]);
    assert_eq!(close_game(Place::Desktop), vec!["/C", "taskkill", "/IM", "RobloxPlayerBeta.exe", "/F"]);
    assert_eq!(LOGCAT_LINE, "logcat -T 1 | grep  --line-buffered -F 'BloxstrapRPC'\n");
}

fn file(extension: Option<&str>, modified: Option<i128>) -> LogFile {
    LogFile { extension: extension.map(|text| text.to_string()), modified }
}

#[test]
fn latest_log_is_chosen() {
    let files = vec![
        file(Some("log"), Some(5)),
        file(Some("txt"), Some(50)),
        file(Some("log"), Some(9)),
        file(Some("log"), None),
        file(None, Some(70)),
        file(Some("log"), Some(9)),
        file(Some("LOG"), Some(80)),
        file(Some("log"), Some(-3)),
    ];
    assert_eq!(latest_log(&files), Some(5));
    assert_eq!(latest_log(&vec![file(Some("log"), None), file(Some("log"), None)]), Some(1));
    assert_eq!(latest_log(&vec![file(Some("txt"), Some(1))]), None);
    assert_eq!(latest_log(&Vec::new()), None);
}

#[test]
fn the_first_decision_ends_the_watch() {
    let readings = vec![
        Reading::End,
        line("hello\n"),
        line(&report("NORMAL")),
        line(&report("GLITCHED")),
        Reading::Failed,
    ];
    let mut decisions = Vec::new();
    for reading in &readings {
        let action = check_logs(Place::Desktop, reading, 3);
        let ends = !matches!(action, LogAction::Continue | LogAction::Wait(_));
        decisions.push(action);
        if ends {
            break;
        }
    }
    assert_eq!(
        decisions,
        vec![LogAction::Wait(200), LogAction::Continue, LogAction::Close("NORMAL".to_string())]
    );
}
