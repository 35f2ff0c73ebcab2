use weii_joins::biome::{channel, color, should_process_message, target_word, word};
use weii_joins::link::{
    extract_server_code, join_ldplayer, join_windows, read_game_code, read_share_code, write_web_address,
};
use weii_joins::pattern::find_devices;

const CODE: &str = "12345678901234567890123456789012";
const OTHER: &str = "99999999999999999999999999999999";

fn game_link(code: &str) -> String {
    format!("https://www.roblox.com/games/15532962292/Sols-RNG?privateServerLinkCode={}", code)
}

#[test]
fn game_link_is_found() {
    let mut share = true;
    let message = format!("glitched!! {} hurry", game_link(CODE));
    assert_eq!(extract_server_code(&message, &mut share), Some(CODE.to_string()));
    assert!(!share);
}

#[test]
fn share_link_is_found() {
    let mut share = false;
    let message = "jester https://www.roblox.com/share?code=abc123&type=Server now";
    assert_eq!(extract_server_code(message, &mut share), Some("abc123".to_string()));
    assert!(share);
}

#[test]
fn no_link_leaves_the_flag() {
    for start in [true, false] {
        let mut share = start;
        assert_eq!(extract_server_code("nothing here", &mut share), None);
        assert_eq!(share, start);
    }
}

#[test]
fn game_link_counts_before_share_link() {
    let mut share = true;
    let message = format!("https://www.roblox.com/share?code=abc&type=Server\n{}", game_link(CODE));
    assert_eq!(extract_server_code(&message, &mut share), Some(CODE.to_string()));
    assert!(!share);
}

#[test]
fn of_several_links_in_a_line_the_last_counts() {
    let mut share = false;
    let message = format!("{} {} end", game_link(CODE), game_link(OTHER));
    assert_eq!(extract_server_code(&message, &mut share), Some(OTHER.to_string()));
    let message = "https://roblox.com/share?code=one&type=Server https://roblox.com/share?code=two&type=Server.";
    assert_eq!(extract_server_code(message, &mut share), Some("two".to_string()));
    assert!(share);
}

#[test]
fn of_links_in_several_lines_the_first_counts() {
    let mut share = false;
    let message = format!("{}\n{}", game_link(CODE), game_link(OTHER));
    assert_eq!(extract_server_code(&message, &mut share), Some(CODE.to_string()));
}

#[test]
fn a_link_does_not_go_over_the_end_of_a_line() {
    let mut share = false;
    let message = format!("https://www.roblox.com/games/15532962292/\nprivateServerLinkCode={}", CODE);
    assert_eq!(extract_server_code(&message, &mut share), None);
}

#[test]
fn too_few_digits_and_other_games_are_no_link() {
    let mut share = true;
    assert_eq!(extract_server_code(&game_link("123"), &mut share), None);
    let other_game = format!("https://www.roblox.com/games/1/x?privateServerLinkCode={}", CODE);
    assert_eq!(extract_server_code(&other_game, &mut share), None);
    assert!(share);
}

#[test]
fn only_32_digits_are_taken() {
    let mut share = true;
    let message = format!("{}777", game_link(CODE));
    assert_eq!(extract_server_code(&message, &mut share), Some(CODE.to_string()));
}

#[test]
fn codes_are_read_back_from_page_addresses() {
    assert_eq!(write_web_address(CODE, false), game_link(CODE));
    assert_eq!(write_web_address("abc", true), "https://www.roblox.com/share?code=abc&type=Server");
    assert_eq!(read_game_code(&write_web_address("any code", false)), "any code");
    assert_eq!(read_share_code(&write_web_address("any code", true)), "any code");
    let mut share = true;
    assert_eq!(extract_server_code(&write_web_address(CODE, false), &mut share), Some(CODE.to_string()));
    assert!(!share);
    assert_eq!(extract_server_code(&write_web_address("a b", true), &mut share), Some("a b".to_string()));
    assert!(share);
}

#[test]
fn a_share_code_with_an_ampersand_is_cut() {
    assert_eq!(read_share_code(&write_web_address("a&b", true)), "a");
    assert_eq!(read_share_code(&write_web_address("acode=b", true)), "b");
}

#[test]
fn game_is_started_on_an_emulator() {
    assert_eq!(
        join_ldplayer("42", false),
        "am start -a android.intent.action.VIEW roblox://placeID=15532962292\\&linkCode=42\n"
    );
    assert_eq!(
        join_ldplayer("42", true),
        "am start -a android.intent.action.VIEW roblox://navigation/share_links?code=42\\&type=Server\n"
    );
}

#[test]
fn game_is_started_on_the_desktop() {
    assert_eq!(
        join_windows("42", false),
        vec!["/C", "start", "", "roblox://placeID=15532962292^&linkCode=42"]
    );
    assert_eq!(
        join_windows("42", true),
        vec!["/C", "start", "", "roblox://navigation/share_links?code=42^&type=Server"]
    );
}

#[test]
fn each_biome_is_noticed_by_its_name() {
    for choice_id in 0..6 {
        assert!(should_process_message(word(choice_id), choice_id));
        assert!(should_process_message(&format!("A {} HERE", word(choice_id).to_uppercase()), choice_id));
        assert_eq!(target_word(choice_id), word(choice_id).to_lowercase());
    }
}

#[test]
fn biomes_are_noticed_by_other_spellings() {
    assert!(should_process_message("corrruup", 0));
    assert!(should_process_message("corup\nx", 0));
    assert!(!should_process_message("cup", 0));
    assert!(!should_process_message("co\nup", 0));
    assert!(!should_process_message("coup", 0));
    assert!(should_process_message("coxup", 0));
    assert!(should_process_message("jesst", 1));
    assert!(!should_process_message("jest", 1));
    assert!(should_process_message("a string", 2));
    assert!(!should_process_message("ri n", 2));
    assert!(should_process_message("glxch", 3));
    assert!(!should_process_message("glch", 3));
    assert!(should_process_message("ds", 4));
    assert!(should_process_message("drexms", 4));
    assert!(should_process_message("dreams", 4));
    assert!(!should_process_message("drms", 4));
    assert!(should_process_message("cyxers", 5));
    assert!(should_process_message("cybxes", 5));
    assert!(!should_process_message("cyes", 5));
    assert!(!should_process_message("cs", 5));
}

#[test]
fn biomes_have_their_channels_and_colors() {
    assert_eq!(channel(0), 1282542323590496277);
    assert_eq!(channel(1), 1282543762425516083);
    assert_eq!(channel(2), 1282543762425516083);
    assert_eq!(channel(5), 1282542323590496277);
    assert_eq!(color(2), 16749056);
    assert_eq!(color(5), 3093247);
}

#[test]
fn emulators_are_found_in_a_list() {
    let output = "List of devices attached\nemulator-5554\tdevice\nemulator-5556emulator-55581\nphone\temulator-12\n";
    assert_eq!(find_devices(output), vec!["emulator-5554", "emulator-5556", "emulator-5558"]);
    assert!(find_devices("List of devices attached\n").is_empty());
}

#[test]
fn a_name_is_about_its_own_biome_only() {
    for name in 0..6 {
        for choice_id in 0..6 {
            assert_eq!(should_process_message(word(name), choice_id), name == choice_id);
        }
    }
}

#[test]
fn text_around_a_message_makes_no_difference() {
    for (choice_id, message) in ["coxup", "jesst", "RIN", "glxch", "ds", "cyxers"].iter().enumerate() {
        for (before, after) in [("", ""), ("a\n", "\nb"), ("x", "y"), ("\u{3a3}", "\u{3a3} \u{df}")] {
            assert!(should_process_message(&format!("{}{}{}", before, message, after), choice_id));
        }
    }
}

#[test]
fn plain_share_codes_are_found() {
    for code in ["", "abc123", "a/b?c games/15532962292/", "privateServerLinkCode"] {
        let mut share = false;
        assert_eq!(extract_server_code(&write_web_address(code, true), &mut share), Some(code.to_string()));
        assert!(share);
    }
}
