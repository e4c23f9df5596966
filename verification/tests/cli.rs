use basalt::cli::{
    emulator_discover_summary, parse_command, parse_discover_args, parse_settings_command, parse_settings_set,
    parse_sync_args, parse_system_args, sync_summary, CliCommand, SettingsCommand,
    SyncDirection, SyncPlatform,
};
use basalt::sync::RomSyncReport;
use basalt::types::{DiscoverRunner, EmulatorDiscoverReport};
use basalt::usage::{full_usage, usage_add, usage_install_core, usage_settings, usage_settings_set, usage_sync_up};

fn args(words: &[&str]) -> Vec<String> {
    words.iter().map(|w| w.to_string()).collect()
}

#[test]
fn commands_are_named_by_the_first_argument() {
    assert_eq!(parse_command(&args(&["--help"])), Ok(CliCommand::Help));
    assert_eq!(parse_command(&args(&["add", "x", "y"])), Ok(CliCommand::Add));
    assert_eq!(parse_command(&args(&["sync-mattmc"])), Ok(CliCommand::SyncMattmc));
    assert_eq!(parse_command(&[]), Err(full_usage()));
    assert_eq!(
        parse_command(&args(&["frobnicate"])),
        Err(format!("Unknown command: frobnicate\n\n{}", full_usage()))
    );
}

#[test]
fn usage_texts() {
    assert_eq!(usage_add(), "Usage: basalt add <name> <target>");
    assert_eq!(
        usage_settings(),
        "Usage:\n  basalt settings get\n  basalt settings set [--roms-root <path>] [--saves-root <path>]"
    );
    assert!(full_usage().starts_with("Basalt CLI\nUsage:\n"));
    assert!(full_usage().ends_with("Clear cached artwork metadata and images"));
    assert_eq!(full_usage().lines().count(), 50);
}

#[test]
fn sync_arguments_name_a_platform() {
    match parse_sync_args(&args(&["sync-up", " MattMC "]), SyncDirection::Up) {
        Ok(SyncPlatform::Mattmc) => {}
        _ => panic!("expected MattMC"),
    }
    match parse_sync_args(&args(&["sync-down", " nes "]), SyncDirection::Down) {
        Ok(SyncPlatform::Emulator(system)) => assert_eq!(system, "nes"),
        _ => panic!("expected a system"),
    }
    match parse_sync_args(&args(&["sync-up", "  "]), SyncDirection::Up) {
        Err(e) => assert_eq!(e, usage_sync_up()),
        _ => panic!("expected usage"),
    }
    assert_eq!(parse_system_args(&args(&["install-core"]), usage_install_core()), Err(usage_install_core()));
    assert_eq!(parse_system_args(&args(&["install-core", " gba "]), usage_install_core()), Ok("gba".to_string()));
}

#[test]
fn settings_arguments() {
    assert_eq!(parse_settings_command(&args(&["settings", "get"])), Ok(SettingsCommand::Get));
    assert_eq!(parse_settings_command(&args(&["settings"])), Err(usage_settings()));
    assert_eq!(parse_settings_command(&args(&["settings", "show"])), Err(usage_settings()));
    assert_eq!(
        parse_settings_command(&args(&["settings", "get", "x"])),
        Err("Usage: basalt settings get".to_string())
    );
    assert_eq!(parse_settings_command(&args(&["settings", "set"])), Ok(SettingsCommand::Change));
    let o = parse_settings_set(&args(&["settings", "set", "--roms-root", " /r ", "--saves-root", "/s"])).unwrap();
    assert_eq!(o.roms_root, Some("/r".to_string()));
    assert_eq!(o.saves_root, Some("/s".to_string()));
    assert_eq!(parse_settings_set(&args(&["settings", "set"])).err(), Some(usage_settings_set()));
    assert_eq!(parse_settings_set(&args(&["settings", "set", "--roms-root"])).err(), Some(usage_settings_set()));
    assert_eq!(parse_settings_set(&args(&["settings", "set", "--bogus", "x"])).err(), Some(usage_settings_set()));
}

#[test]
fn summaries_are_formatted() {
    let r = RomSyncReport { copied: 2, unchanged: 10, deleted: 0 };
    assert_eq!(sync_summary("Sync Up", "nes", &r), "Sync Up (NES) complete: copied 2, unchanged 10, deleted 0.");
    let d = EmulatorDiscoverReport { found: 3, added: 1, updated: 1, already_exists: 1 };
    assert_eq!(emulator_discover_summary(&d), "Emulator discover: found 3, added 1, updated 1, already existed 1.");
}

#[test]
fn documented_commands_are_dispatched() {
    let cases = [
        ("add-to-playlist", CliCommand::AddToPlaylist),
        ("remove-from-playlist", CliCommand::RemoveFromPlaylist),
        ("install-core", CliCommand::InstallCore),
        ("core-status", CliCommand::CoreStatus),
        ("install-emulators", CliCommand::InstallEmulators),
        ("sync-up", CliCommand::SyncUp),
        ("sync-down", CliCommand::SyncDown),
        ("sync-saves-up", CliCommand::SyncSavesUp),
        ("sync-saves-down", CliCommand::SyncSavesDown),
        ("settings", CliCommand::Settings),
        ("refresh-metadata", CliCommand::RefreshMetadata),
        ("install-mattmc", CliCommand::InstallMattmc),
        ("backup-mattmc", CliCommand::BackupMattmc),
    ];
    for (word, command) in cases {
        assert_eq!(parse_command(&args(&[word])), Ok(command));
    }
}

#[test]
fn discover_switches_select_runners() {
    assert_eq!(
        parse_discover_args(&args(&["discover"])),
        Ok(vec![DiscoverRunner::Mattmc, DiscoverRunner::Steam, DiscoverRunner::Emulators])
    );
    assert_eq!(
        parse_discover_args(&args(&["discover", "--emulators", "--steam"])),
        Ok(vec![DiscoverRunner::Emulators, DiscoverRunner::Steam])
    );
    assert_eq!(
        parse_discover_args(&args(&["discover", "--mattmc", "--bogus"])),
        Err("Usage: basalt discover [--steam] [--mattmc] [--emulators]".to_string())
    );
}

#[test]
fn full_usage_splits_into_its_lines() {
    let text = full_usage();
    let lines: Vec<&str> = text.split('\n').collect();
    assert_eq!(lines.len(), 50);
    assert_eq!(lines[0], "Basalt CLI");
    assert_eq!(lines[1], "Usage:");
    assert!(lines.contains(&"  basalt add-to-playlist <playlist> <name>"));
    assert!(lines.contains(&"  basalt sync-saves-down <system>"));
}
