use basalt::catalog::{
    add_existing_game_to_playlist, discover_emulator_entries, list_playlists_synced,
    remove_all_games_everywhere, remove_existing_game_from_playlist, remove_game_everywhere,
};
use basalt::playlists::Memberships;
use basalt::runners::RunnerKind;
use basalt::types::GameEntry;

fn entry(name: &str, kind: RunnerKind, target: &str) -> GameEntry {
    GameEntry { name: name.to_string(), runner_kind: kind, launch_target: target.to_string() }
}

fn names(m: &Memberships) -> Vec<(String, Vec<String>)> {
    m.playlists().into_iter().map(|p| (p.name, p.game_names)).collect()
}

#[test]
fn removing_a_game_takes_it_out_of_every_playlist() {
    let entries = vec![
        entry("A", RunnerKind::Bash, "/a.sh"),
        entry("B", RunnerKind::Bash, "/b.sh"),
    ];
    let mut m = Memberships::parse("Favorites\tA\nFavorites\tB\nTrip\tA\n");
    let (rest, changed) = remove_game_everywhere("A", &entries, &mut m).unwrap();
    assert!(changed);
    assert_eq!(rest.len(), 1);
    assert_eq!(rest[0].name, "B");
    assert_eq!(
        names(&m),
        vec![
            ("Favorites".to_string(), vec!["B".to_string()]),
            ("Trip".to_string(), vec![]),
        ]
    );
}

#[test]
fn removing_an_unknown_game_changes_nothing() {
    let entries = vec![entry("A", RunnerKind::Bash, "/a.sh")];
    let mut m = Memberships::parse("Favorites\tA\n");
    let err = remove_game_everywhere("Z", &entries, &mut m).err().unwrap();
    assert_eq!(err.into_message(), "No game found with name 'Z'");
    assert_eq!(names(&m), vec![("Favorites".to_string(), vec!["A".to_string()])]);
    let err = remove_game_everywhere("", &entries, &mut m).err().unwrap();
    assert_eq!(err.into_message(), "Game name cannot be empty");
}

#[test]
fn removing_all_games_clears_their_names_from_playlists() {
    let entries = vec![
        entry("A", RunnerKind::Bash, "/a.sh"),
        entry("B", RunnerKind::Steam, "10"),
    ];
    let mut m = Memberships::parse("Favorites\tA\nFavorites\tC\nSteam\tB\n");
    let (count, changed) = remove_all_games_everywhere(&entries, &mut m);
    assert_eq!(count, 2);
    assert!(changed);
    assert_eq!(
        names(&m),
        vec![
            ("Favorites".to_string(), vec!["C".to_string()]),
            ("Steam".to_string(), vec![]),
        ]
    );
    let (count, changed) = remove_all_games_everywhere(&[], &mut m);
    assert_eq!(count, 0);
    assert!(!changed);
}

#[test]
fn only_registered_games_join_playlists() {
    let entries = vec![entry("A", RunnerKind::Bash, "/a.sh")];
    let mut m = Memberships::new();
    let err = add_existing_game_to_playlist("Favorites", "Z", &entries, &mut m).err().unwrap();
    assert_eq!(err.into_message(), "No game found with name 'Z'");
    assert!(names(&m).is_empty());
    add_existing_game_to_playlist("favorites", "A", &entries, &mut m).unwrap();
    assert_eq!(names(&m), vec![("Favorites".to_string(), vec!["A".to_string()])]);
    remove_existing_game_from_playlist("Favorites", "A", &entries, &mut m).unwrap();
    assert_eq!(names(&m), vec![("Favorites".to_string(), vec![])]);
    assert_eq!(m.serialize(), "");
}

#[test]
fn listing_rederives_the_automatic_playlists() {
    let entries = vec![
        entry("Portal", RunnerKind::Steam, "400"),
        entry("[NES] Zelda", RunnerKind::Emulator, "retroarch|nes|/r/z.nes"),
        entry("Doom", RunnerKind::Bash, "/doom.sh"),
    ];
    let mut m = Memberships::parse("Steam\tGone\nTrip\tDoom\n");
    let (listed, changed) = list_playlists_synced(&mut m, &entries);
    assert!(changed);
    let view: Vec<(String, Vec<String>)> =
        listed.into_iter().map(|p| (p.name, p.game_names)).collect();
    assert_eq!(
        view,
        vec![
            ("Favorites".to_string(), vec![]),
            ("Steam".to_string(), vec!["Portal".to_string()]),
            ("Emulation".to_string(), vec!["[NES] Zelda".to_string()]),
            ("Trip".to_string(), vec!["Doom".to_string()]),
        ]
    );
    let (_, changed) = list_playlists_synced(&mut m, &entries);
    assert!(!changed);
}

#[test]
fn discovery_drops_stale_names_from_playlists() {
    let entries = vec![
        entry("[NES] Old", RunnerKind::Emulator, "retroarch|nes|/r/old.nes"),
        entry("Doom", RunnerKind::Bash, "/doom.sh"),
    ];
    let discovered = vec![entry("[NES] New", RunnerKind::Emulator, "retroarch|nes|/r/new.nes")];
    let mut m = Memberships::parse("Favorites\t[NES] Old\nFavorites\tDoom\nEmulation\t[NES] Old\n");
    let (merge, changed) = discover_emulator_entries(&discovered, &entries, &mut m);
    assert!(merge.changed);
    assert!(changed);
    assert_eq!(merge.removed_names, vec!["[NES] Old".to_string()]);
    assert_eq!(merge.report.added, 1);
    assert_eq!(
        names(&m),
        vec![
            ("Emulation".to_string(), vec!["[NES] New".to_string()]),
            ("Favorites".to_string(), vec!["Doom".to_string()]),
            ("Steam".to_string(), vec![]),
        ]
    );
}

#[test]
fn discovery_without_change_leaves_playlists_alone() {
    let entries = vec![entry("[NES] A", RunnerKind::Emulator, "retroarch|nes|/r/a.nes")];
    let discovered = vec![entry("[NES] A", RunnerKind::Emulator, "retroarch|nes|/r/a.nes")];
    let mut m = Memberships::parse("Trip\t[NES] A\n");
    let (merge, changed) = discover_emulator_entries(&discovered, &entries, &mut m);
    assert!(!merge.changed);
    assert!(!changed);
    assert_eq!(merge.report.already_exists, 1);
    assert_eq!(names(&m), vec![("Trip".to_string(), vec!["[NES] A".to_string()])]);
}
