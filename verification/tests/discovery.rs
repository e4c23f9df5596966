use basalt::discovery::{
    build_entry_name, discover_mattmc_entry, discover_steam_entries, discovery_plan,
    extract_vdf_value, is_app_manifest_name, merge_emulator_entries, parse_steam_libraryfolders,
    parse_steam_manifest, rom_entry, steam_game_target, SteamManifest,
};
use basalt::runners::RunnerKind;
use basalt::types::{DiscoverResult, DiscoverRunner, GameEntry};

fn entry(name: &str, kind: RunnerKind, target: &str) -> GameEntry {
    GameEntry { name: name.to_string(), runner_kind: kind, launch_target: target.to_string() }
}

#[test]
fn discovery_runs_the_requested_sources() {
    assert_eq!(discovery_plan(&[DiscoverRunner::Steam]), (false, true, false));
    assert_eq!(
        discovery_plan(&[DiscoverRunner::Emulators, DiscoverRunner::Mattmc]),
        (true, false, true)
    );
    assert_eq!(discovery_plan(&[]), (false, false, false));
}

#[test]
fn rom_entries_are_named_after_system_and_file() {
    assert_eq!(build_entry_name("nes", "/roms/nes/Super Mario.nes"), "[NES] Super Mario");
    let e = rom_entry("nes", "/roms/nes/zelda.nes", "/real/zelda.nes").unwrap().unwrap();
    assert_eq!(e.name, "[NES] zelda");
    assert_eq!(e.runner_kind, RunnerKind::Emulator);
    assert_eq!(e.launch_target, "retroarch|nes|/real/zelda.nes");
    assert!(rom_entry("nes", "/roms/nes/notes.txt", "/roms/nes/notes.txt").unwrap().is_none());
}

#[test]
fn emulator_merge_adds_updates_and_drops_stale_entries() {
    let existing = vec![
        entry("[NES] old", RunnerKind::Emulator, "retroarch|nes|/old.nes"),
        entry("[NES] zelda", RunnerKind::Bash, "/zelda.sh"),
        entry("[GBA] same", RunnerKind::Emulator, "retroarch|gba|/same.gba"),
        entry("Script", RunnerKind::Bash, "/s.sh"),
    ];
    let discovered = vec![
        entry("[NES] zelda", RunnerKind::Emulator, "retroarch|nes|/zelda.nes"),
        entry("[GBA] same", RunnerKind::Emulator, "retroarch|gba|/same.gba"),
        entry("[SNES] new", RunnerKind::Emulator, "retroarch|snes|/new.sfc"),
    ];
    let merge = merge_emulator_entries(&discovered, &existing);
    assert_eq!(merge.report.found, 3);
    assert_eq!(merge.report.added, 1);
    assert_eq!(merge.report.updated, 1);
    assert_eq!(merge.report.already_exists, 1);
    assert!(merge.changed);
    assert_eq!(merge.removed_names, vec!["[NES] old".to_string()]);
    let names: Vec<&str> = merge.entries.iter().map(|e| e.name.as_str()).collect();
    assert_eq!(names, vec!["[NES] zelda", "[GBA] same", "Script", "[SNES] new"]);
    assert_eq!(merge.entries[0].launch_target, "retroarch|nes|/zelda.nes");
    assert_eq!(merge.entries[0].runner_kind, RunnerKind::Emulator);
}

#[test]
fn moved_roms_are_dropped_then_added_again() {
    let existing = vec![entry("[NES] zelda", RunnerKind::Emulator, "retroarch|nes|/old/zelda.nes")];
    let discovered = vec![entry("[NES] zelda", RunnerKind::Emulator, "retroarch|nes|/zelda.nes")];
    let merge = merge_emulator_entries(&discovered, &existing);
    assert_eq!(merge.removed_names, vec!["[NES] zelda".to_string()]);
    assert_eq!(merge.report.added, 1);
    assert_eq!(merge.entries.len(), 1);
}

#[test]
fn vdf_values_are_read_from_quoted_pairs() {
    let line: Vec<char> = "\t\"appid\"\t\t\"440\"".chars().collect();
    assert_eq!(extract_vdf_value(&line, "appid"), Some("440".to_string()));
    assert_eq!(extract_vdf_value(&line, "name"), None);
    let manifest = "\"AppState\"\n{\n\t\"appid\"\t\t\"440\"\n\t\"name\"\t\t\"Team Fortress 2\"\n}\n";
    assert_eq!(
        parse_steam_manifest(manifest),
        Some(("440".to_string(), "Team Fortress 2".to_string()))
    );
    assert_eq!(parse_steam_manifest("\"appid\" \"1\"\n"), None);
    let folders = "\"0\"\n{\n\t\"path\"\t\t\"D:\\\\Games\\\\Steam\"\n}\n";
    assert_eq!(parse_steam_libraryfolders(folders), vec!["D:\\Games\\Steam".to_string()]);
    assert!(is_app_manifest_name("appmanifest_440.acf"));
    assert!(!is_app_manifest_name("libraryfolders.vdf"));
    assert_eq!(steam_game_target("440"), "steam://rungameid/440");
}

#[test]
fn steam_discovery_counts_added_and_existing_games() {
    let existing = vec![entry("Portal", RunnerKind::Steam, "400")];
    let manifests = vec![
        SteamManifest { appid: "400".to_string(), name: "Portal".to_string(), script_resolution: Err("x".to_string()) },
        SteamManifest { appid: "440".to_string(), name: "TF2".to_string(), script_resolution: Err("x".to_string()) },
    ];
    let run = discover_steam_entries(&manifests, &[], &existing);
    assert!(run.error.is_none());
    assert_eq!(run.report.found, 2);
    assert_eq!(run.report.added, 1);
    assert_eq!(run.report.already_exists, 1);
    assert_eq!(run.entries.len(), 2);
    assert_eq!(run.entries[1].launch_target, "440");
}

#[test]
fn steam_discovery_stops_at_other_refusals() {
    let manifests = vec![
        SteamManifest { appid: "1".to_string(), name: "A".to_string(), script_resolution: Err("x".to_string()) },
        SteamManifest { appid: "2".to_string(), name: "Bad\tName".to_string(), script_resolution: Err("x".to_string()) },
        SteamManifest { appid: "3".to_string(), name: "C".to_string(), script_resolution: Err("x".to_string()) },
    ];
    let run = discover_steam_entries(&manifests, &[], &[]);
    assert_eq!(run.error.unwrap().into_message(), "Game name cannot contain tabs or newlines");
    assert_eq!(run.entries.len(), 1);
    assert_eq!(run.report.added, 1);
}

#[test]
fn mattmc_discovery_outcomes() {
    let script = "/home/me/Games/MattMC/run.sh".to_string();
    let (r, e) = discover_mattmc_entry(None, Err("x".to_string()), &[], &[]).unwrap();
    assert_eq!(r, DiscoverResult::NotFound);
    assert!(e.is_none());
    let (r, e) = discover_mattmc_entry(Some(script.clone()), Ok(script.clone()), &[], &[]).unwrap();
    assert_eq!(r, DiscoverResult::Added);
    let added = e.unwrap();
    assert_eq!(added[0].name, "MattMC");
    let (r, e) = discover_mattmc_entry(Some(script.clone()), Ok(script.clone()), &[], &added).unwrap();
    assert_eq!(r, DiscoverResult::AlreadyExists);
    assert!(e.is_none());
    let moved = vec![entry("MattMC", RunnerKind::Bash, "/old/run.sh")];
    let (r, e) = discover_mattmc_entry(Some(script.clone()), Ok(script.clone()), &[], &moved).unwrap();
    assert_eq!(r, DiscoverResult::Added);
    assert_eq!(e.unwrap()[0].launch_target, script);
    let (r, _) =
        discover_mattmc_entry(Some(script.clone()), Ok(script.clone()), &["mattmc".to_string()], &[]).unwrap();
    assert_eq!(r, DiscoverResult::AlreadyExists);
}
