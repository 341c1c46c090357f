use steam_icon_recover::cli::Cli;
use steam_icon_recover::extractors::{extract_game_id, extract_icon_id, icon_id_in_output, oracle_args, OracleReply, ResolveError};
use steam_icon_recover::fetch::{cache_file_name, icon_name, icon_url, plan_fetch, FetchStep};
use steam_icon_recover::record::{scan_record, RecordOutcome};
use steam_icon_recover::text::{join_path_exec, split_field, trim};

fn lines(v: &[&str]) -> Vec<String> {
    v.iter().map(|s| s.to_string()).collect()
}

#[test]
fn record_without_header_is_rejected() {
    let r = scan_record(&lines(&["[Other Section]", "Exec=steam steam://rungameid/1", "Icon=steam"]));
    assert_eq!(r, RecordOutcome::Rejected);
}

#[test]
fn empty_record_is_rejected() {
    assert_eq!(scan_record(&Vec::new()), RecordOutcome::Rejected);
}

#[test]
fn header_is_compared_after_trimming() {
    let r = scan_record(&lines(&["  [Desktop Entry]\t", "Exec=steam steam://rungameid/77"]));
    assert_eq!(r, RecordOutcome::Found("77".to_string()));
}

#[test]
fn header_on_second_line_is_rejected() {
    let r = scan_record(&lines(&["", "[Desktop Entry]", "Exec=steam steam://rungameid/77"]));
    assert_eq!(r, RecordOutcome::Rejected);
}

#[test]
fn scenario_record_to_url_and_cache_name() {
    let r = scan_record(&lines(&[
        "[Desktop Entry]",
        "Exec=/usr/bin/steam steam://rungameid/12345",
        "Icon=steam",
    ]));
    let id = match r {
        RecordOutcome::Found(id) => id,
        other => panic!("unexpected outcome {:?}", other),
    };
    assert_eq!(id, "12345");
    let token = extract_icon_id(&OracleReply::Stub).unwrap();
    assert_eq!(token, "abc123");
    assert_eq!(
        icon_url(&id, &token),
        "https://cdn.steamstatic.com/steamcommunity/public/images/apps/12345/abc123.ico"
    );
    assert_eq!(cache_file_name(&icon_name(&id)), "steam_icon_12345.ico");
}

#[test]
fn own_icon_before_exec_halts() {
    let r = scan_record(&lines(&[
        "[Desktop Entry]",
        "Icon=/usr/share/pixmaps/game.png",
        "Exec=steam steam://rungameid/42",
    ]));
    assert_eq!(r, RecordOutcome::IconPresent);
}

#[test]
fn own_icon_after_exec_halts() {
    let r = scan_record(&lines(&[
        "[Desktop Entry]",
        "Exec=steam steam://rungameid/42",
        "Icon = mygame ",
    ]));
    assert_eq!(r, RecordOutcome::IconPresent);
}

#[test]
fn first_icon_field_decides() {
    let r = scan_record(&lines(&[
        "[Desktop Entry]",
        "Icon=steam",
        "Exec=steam steam://rungameid/42",
        "Icon=other",
    ]));
    assert_eq!(r, RecordOutcome::Found("42".to_string()));
}

#[test]
fn exec_without_identifier_halts() {
    let r = scan_record(&lines(&["[Desktop Entry]", "Exec=/usr/bin/firefox", "Exec=steam steam://rungameid/5"]));
    assert_eq!(r, RecordOutcome::NoIdentifier);
}

#[test]
fn first_exec_field_decides() {
    let r = scan_record(&lines(&[
        "[Desktop Entry]",
        "Exec=steam steam://rungameid/5",
        "Exec=steam steam://rungameid/6",
    ]));
    assert_eq!(r, RecordOutcome::Found("5".to_string()));
}

#[test]
fn record_without_exec_has_no_identifier() {
    let r = scan_record(&lines(&["[Desktop Entry]", "Name=Game", "Icon=steam"]));
    assert_eq!(r, RecordOutcome::NoIdentifier);
}

#[test]
fn malformed_lines_are_skipped() {
    let r = scan_record(&lines(&["[Desktop Entry]", "garbage line", "Exec=steam steam://rungameid/9"]));
    assert_eq!(r, RecordOutcome::Found("9".to_string()));
}

#[test]
fn game_id_is_the_whole_digit_run() {
    assert_eq!(extract_game_id("/usr/bin/steam steam://rungameid/12345 -silent"), Some("12345".to_string()));
    assert_eq!(extract_game_id("steam steam://rungameid/7a"), Some("7".to_string()));
}

#[test]
fn game_id_leftmost_match_wins() {
    assert_eq!(
        extract_game_id("steam steam://rungameid/ steam steam://rungameid/3 steam steam://rungameid/4"),
        Some("3".to_string())
    );
}

#[test]
fn game_id_absent_without_pattern() {
    assert_eq!(extract_game_id("/usr/bin/firefox %u"), None);
    assert_eq!(extract_game_id("steam steam://rungameid/"), None);
    assert_eq!(extract_game_id("steamsteam://rungameid/12"), None);
    assert_eq!(extract_game_id(""), None);
}

#[test]
fn stub_oracle_gives_fixed_token() {
    assert_eq!(extract_icon_id(&OracleReply::Stub), Ok("abc123".to_string()));
}

#[test]
fn token_read_from_oracle_output() {
    let out = b"\"common\"\n{\n\t\t\"clienticon\"\t\t\"9102f4v4h3491h8\"\n}\n".to_vec();
    let reply = OracleReply::Exited { success: true, stdout: out };
    assert_eq!(extract_icon_id(&reply), Ok("9102f4v4h3491h8".to_string()));
}

#[test]
fn oracle_not_started() {
    assert_eq!(extract_icon_id(&OracleReply::NotStarted), Err(ResolveError::OracleExecution));
}

#[test]
fn oracle_failure_status() {
    let reply = OracleReply::Exited { success: false, stdout: b"\"clienticon\" \"x\"".to_vec() };
    assert_eq!(extract_icon_id(&reply), Err(ResolveError::OracleFailure));
}

#[test]
fn oracle_output_not_text() {
    let reply = OracleReply::Exited { success: true, stdout: vec![0xff, 0xfe, 0x22] };
    assert_eq!(extract_icon_id(&reply), Err(ResolveError::OracleOutput));
}

#[test]
fn oracle_output_without_token() {
    let reply = OracleReply::Exited { success: true, stdout: b"\"clienticon\" \"\"\n\"clienticon\"\"x\"".to_vec() };
    assert_eq!(extract_icon_id(&reply), Err(ResolveError::TokenNotFound));
}

#[test]
fn token_needs_whitespace_and_quotes() {
    assert_eq!(icon_id_in_output("\"clienticon\" \"abc\""), Some("abc".to_string()));
    assert_eq!(icon_id_in_output("\"clienticon\"\"abc\""), None);
    assert_eq!(icon_id_in_output("\"clienticon\" \"abc"), None);
    assert_eq!(icon_id_in_output("\"clienticon\"\n\"ab c\" \"clienticon\" \"z\""), Some("ab c".to_string()));
}

#[test]
fn oracle_arguments() {
    assert_eq!(
        oracle_args("440"),
        vec!["+login", "anonymous", "+app_info_print", "440", "+quit"]
    );
}

#[test]
fn cached_container_is_used_unchanged() {
    let bytes = vec![0u8, 0, 1, 0, 0, 0, 7, 9];
    let step = plan_fetch("https://example.invalid/x.ico".to_string(), Some(bytes.clone()));
    assert_eq!(step, FetchStep::UseCached(bytes));
}

#[test]
fn missing_cache_downloads() {
    let step = plan_fetch("https://example.invalid/x.ico".to_string(), None);
    assert_eq!(step, FetchStep::Download("https://example.invalid/x.ico".to_string()));
}

#[test]
fn names_and_url() {
    assert_eq!(icon_name("440"), "steam_icon_440");
    assert_eq!(cache_file_name("steam_icon_440"), "steam_icon_440.ico");
    assert_eq!(
        icon_url("440", "tok"),
        "https://cdn.steamstatic.com/steamcommunity/public/images/apps/440/tok.ico"
    );
}

#[test]
fn trim_removes_unicode_whitespace() {
    assert_eq!(trim(" \t a b \u{3000}\n"), "a b");
    assert_eq!(trim("   "), "");
    assert_eq!(trim(""), "");
}

#[test]
fn field_split_at_first_equals() {
    assert_eq!(split_field(" Exec = a=b "), Some(("Exec".to_string(), "a=b".to_string())));
    assert_eq!(split_field("=x"), Some(("".to_string(), "x".to_string())));
    assert_eq!(split_field("no separator"), None);
}

#[test]
fn path_join() {
    assert_eq!(join_path_exec("/a/16x16", "n"), "/a/16x16/n");
    assert_eq!(join_path_exec("/a/16x16/", "n"), "/a/16x16/n");
    assert_eq!(join_path_exec("", "n"), "n");
}

#[test]
fn dir_defaults_under_home() {
    let cli = Cli { file: None, dir: None };
    assert_eq!(cli.get_dir("/home/u"), "/home/u/.local/share/applications/");
    let cli = Cli { file: None, dir: Some("/tmp/apps".to_string()) };
    assert_eq!(cli.get_dir("/home/u"), "/tmp/apps");
}
