use basalt::registry::{
    blacklist_backfill_contents, blacklist_seed_contents, has_active_blacklist_entries,
    is_name_blacklisted, parse_entries_from_text, read_blacklisted_names, serialize_entries,
    DEFAULT_BLACKLIST_TEMPLATE,
};
use basalt::runners::RunnerKind;
use basalt::types::GameEntry;

#[test]
fn registry_parser_supports_current_and_legacy_rows() {
    let contents = "\
MattMC\tbash\t/home/me/Games/MattMC/run-mattmc.sh
Legacy Bash\t/home/me/game.sh
Steam Game\tsteam\t12345
Bad Runner\tmissing\tignored
\tsteam\tno-name

";

    let entries = parse_entries_from_text(contents);

    assert_eq!(entries.len(), 3);
    assert_eq!(entries[0].name, "MattMC");
    assert_eq!(entries[0].runner_kind, RunnerKind::Bash);
    assert_eq!(
        entries[0].launch_target,
        "/home/me/Games/MattMC/run-mattmc.sh"
    );
    assert_eq!(entries[1].name, "Legacy Bash");
    assert_eq!(entries[1].runner_kind, RunnerKind::Bash);
    assert_eq!(entries[1].launch_target, "/home/me/game.sh");
    assert_eq!(entries[2].runner_kind, RunnerKind::Steam);
    assert_eq!(entries[2].launch_target, "12345");
}

#[test]
fn registry_serializer_writes_runner_kind_column() {
    let entries = vec![GameEntry {
        name: "Steam Game".to_string(),
        runner_kind: RunnerKind::Steam,
        launch_target: "12345".to_string(),
    }];

    assert_eq!(serialize_entries(&entries), "Steam Game\tsteam\t12345\n");
}

#[test]
fn registry_round_trip_keeps_entries() {
    let entries = vec![
        GameEntry {
            name: "A".to_string(),
            runner_kind: RunnerKind::Bash,
            launch_target: "/a.sh".to_string(),
        },
        GameEntry {
            name: "[NES] Zelda".to_string(),
            runner_kind: RunnerKind::Emulator,
            launch_target: "retroarch|nes|/roms/zelda.nes".to_string(),
        },
    ];
    let text = serialize_entries(&entries);
    let back = parse_entries_from_text(&text);
    assert_eq!(back.len(), 2);
    assert_eq!(back[0].name, "A");
    assert_eq!(back[1].runner_kind, RunnerKind::Emulator);
    assert_eq!(back[1].launch_target, "retroarch|nes|/roms/zelda.nes");
}

#[test]
fn registry_parser_strips_carriage_returns() {
    let entries = parse_entries_from_text("Game\tsteam\t42\r\n");
    assert_eq!(entries.len(), 1);
    assert_eq!(entries[0].launch_target, "42");
}

#[test]
fn blacklist_reads_lowercased_names_and_skips_comments() {
    let names = read_blacklisted_names("# comment\n  Foo Bar  \n\nbaz\n");
    assert_eq!(names, vec!["foo bar".to_string(), "baz".to_string()]);
    assert!(has_active_blacklist_entries("x\n"));
    assert!(!has_active_blacklist_entries("# only comments\n\n"));
}

#[test]
fn blacklist_matches_names_in_any_case() {
    let names = vec!["steamworks common redistributables".to_string()];
    assert!(is_name_blacklisted("Steamworks Common Redistributables", &names));
    assert!(!is_name_blacklisted("Portal", &names));
}

#[test]
fn blacklist_seed_and_backfill() {
    assert_eq!(blacklist_seed_contents(None), DEFAULT_BLACKLIST_TEMPLATE);
    assert_eq!(blacklist_seed_contents(Some("a\n".to_string())), "a\n");
    assert_eq!(
        blacklist_backfill_contents(DEFAULT_BLACKLIST_TEMPLATE, Some("b\n".to_string())),
        Some("b\n".to_string())
    );
    assert_eq!(blacklist_backfill_contents("# nothing\n", Some("b\n".to_string())), None);
    assert_eq!(blacklist_backfill_contents("c\n", Some("b\n".to_string())), None);
}
