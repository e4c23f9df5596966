use basalt::autoconfig::{is_xbox_profile_name, xbox_profiles_to_fetch, ProfileListing};
use basalt::emulation::{
    build_launch_target, discoverable_systems, file_name_extension, file_name_stem,
    is_save_sync_supported_for_system, is_supported_rom_for_system, is_syncable_save_file,
    normalize_system_key,
};
use basalt::emulation_target::{EmulationBackend, EmulationLaunchTarget};
use basalt::emulator_systems::{
    emulation_install_tiles, emulator_artwork_catalog_path, emulator_system,
    emulator_system_specs,
};

#[test]
fn xbox_profile_matching_accepts_common_xbox_names() {
    assert!(is_xbox_profile_name("Xbox Wireless Controller.cfg"));
    assert!(is_xbox_profile_name("Microsoft X-Box 360 pad.cfg"));
    assert!(!is_xbox_profile_name("DualShock 4.cfg"));
}

#[test]
fn save_state_files_are_excluded_from_save_sync() {
    assert!(is_syncable_save_file("Pokemon.srm"));
    assert!(is_syncable_save_file("nested/Pokemon.save"));
    assert!(!is_syncable_save_file("Pokemon.state"));
    assert!(!is_syncable_save_file("Pokemon.State1"));
    assert!(!is_syncable_save_file("Pokemon.auto.state"));
}

#[test]
fn only_xbox_profiles_with_addresses_are_fetched() {
    let listing = vec![
        ProfileListing {
            name: Some("Xbox One.cfg".to_string()),
            download_url: Some("https://x/one".to_string()),
        },
        ProfileListing { name: Some("Xbox 360.cfg".to_string()), download_url: None },
        ProfileListing {
            name: Some("DualSense.cfg".to_string()),
            download_url: Some("https://x/ds".to_string()),
        },
    ];
    let fetch = xbox_profiles_to_fetch(&listing);
    assert_eq!(fetch, vec![("Xbox One.cfg".to_string(), "https://x/one".to_string())]);
}

#[test]
fn file_extensions_and_stems_follow_std() {
    assert_eq!(file_name_extension("game.nes"), Some("nes".to_string()));
    assert_eq!(file_name_extension("archive.tar.gz"), Some("gz".to_string()));
    assert_eq!(file_name_extension(".bashrc"), None);
    assert_eq!(file_name_extension("noext"), None);
    assert_eq!(file_name_stem("archive.tar.gz"), "archive.tar");
    assert_eq!(file_name_stem(".bashrc"), ".bashrc");
}

#[test]
fn roms_are_recognised_by_extension_in_any_case() {
    assert!(is_supported_rom_for_system("nes", "/roms/nes/Zelda.NES"));
    assert!(is_supported_rom_for_system(" GBA ", "/roms/gba/pokemon.gba"));
    assert!(!is_supported_rom_for_system("gba", "/roms/gba/pokemon.nes"));
    assert!(!is_supported_rom_for_system("unknown", "/roms/x/pokemon.nes"));
    assert!(!is_supported_rom_for_system("nes", "/roms/nes/readme"));
}

#[test]
fn save_sync_support_follows_the_system_table() {
    assert!(is_save_sync_supported_for_system("nes"));
    assert!(!is_save_sync_supported_for_system("atari2600"));
    assert!(!is_save_sync_supported_for_system("nope"));
}

#[test]
fn system_keys_are_checked() {
    assert_eq!(normalize_system_key("  NES "), Ok("nes".to_string()));
    assert_eq!(normalize_system_key("   "), Err("System key cannot be empty".to_string()));
    assert_eq!(
        normalize_system_key("n/es"),
        Err("System key 'n/es' contains invalid characters".to_string())
    );
}

#[test]
fn launch_targets_are_built_for_supported_systems() {
    assert_eq!(
        build_launch_target("NES", "/roms/nes/zelda.nes"),
        Ok("retroarch|nes|/roms/nes/zelda.nes".to_string())
    );
    assert_eq!(
        build_launch_target("psx", "/roms/psx/game.bin"),
        Err("Unsupported emulator system: psx".to_string())
    );
    assert_eq!(build_launch_target("nes", ""), Err("ROM path cannot be empty".to_string()));
}

#[test]
fn launch_targets_round_trip() {
    let target =
        EmulationLaunchTarget::new_retroarch("GBA".to_string(), "/r/a|b.gba".to_string()).unwrap();
    let text = target.encode().unwrap();
    assert_eq!(text, "retroarch|gba|/r/a|b.gba");
    let back = EmulationLaunchTarget::decode(&text).unwrap();
    assert_eq!(back.system_key(), "gba");
    assert_eq!(back.rom_path(), "/r/a|b.gba");
    assert_eq!(back.backend(), EmulationBackend::Retroarch);
}

#[test]
fn malformed_launch_targets_are_refused() {
    assert_eq!(
        EmulationLaunchTarget::decode("mame|nes|/x").err(),
        Some("Unsupported emulator backend 'mame'.".to_string())
    );
    assert_eq!(
        EmulationLaunchTarget::decode("retroarch| |/x").err(),
        Some("Malformed emulator launch target: missing system key.".to_string())
    );
    assert_eq!(
        EmulationLaunchTarget::decode("retroarch|nes|  ").err(),
        Some("Malformed emulator launch target: missing ROM path.".to_string())
    );
}

#[test]
fn system_table_lists_six_systems_in_order() {
    let keys = discoverable_systems();
    assert_eq!(keys, vec!["nes", "gba", "snes", "atari2600", "nds", "3ds"]);
    assert_eq!(emulator_system_specs().len(), 6);
    assert_eq!(emulator_system(" SNES ").unwrap().core_file, "snes9x_libretro.so");
    assert!(emulator_system("").is_none());
}

#[test]
fn install_tiles_are_sorted_by_title() {
    let tiles = emulation_install_tiles();
    let titles: Vec<&str> = tiles.iter().map(|t| t.title).collect();
    assert_eq!(
        titles,
        vec!["3DS Core", "Atari 2600 Core", "GBA Core", "NDS Core", "NES Core", "SNES Core"]
    );
}

#[test]
fn artwork_catalogs_cover_aliases_and_extra_systems() {
    assert_eq!(emulator_artwork_catalog_path("a2600"), Some("Atari - 2600"));
    assert_eq!(emulator_artwork_catalog_path("MD"), Some("Sega - Mega Drive - Genesis"));
    assert_eq!(emulator_artwork_catalog_path("nes"), Some("Nintendo - Nintendo Entertainment System"));
    assert_eq!(emulator_artwork_catalog_path("dreamcast"), None);
}

#[test]
fn rom_support_and_system_lookup_follow_the_table() {
    assert!(is_supported_rom_for_system("NES", "roms/Mario.NES"));
    assert!(!is_supported_rom_for_system("gba", "x.nes"));
    assert!(!is_supported_rom_for_system("nes", "README"));
    assert!(!is_supported_rom_for_system("psp", "a.iso"));
    assert!(emulator_system("a2600").is_none());
    assert_eq!(emulator_system("Atari2600").unwrap().core_file, emulator_system("atari2600").unwrap().core_file);
}
