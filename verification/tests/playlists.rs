use basalt::playlists::{
    add_game_to_playlist, list_playlists, remove_game_from_all_playlists,
    remove_game_from_playlist, remove_games_from_all_playlists, resolve_playlist_name,
    sync_automatic_playlists, Memberships,
};
use basalt::runners::RunnerKind;
use basalt::types::GameEntry;

fn names(m: &Memberships) -> Vec<(String, Vec<String>)> {
    m.playlists().into_iter().map(|p| (p.name, p.game_names)).collect()
}

#[test]
fn playlist_file_is_parsed_into_sorted_playlists() {
    let m = Memberships::parse("# c\nZeta\tB\n  Favorites \t A \nZeta\tA\nbad line\n\tnogame\nZeta\tA\n");
    assert_eq!(
        names(&m),
        vec![
            ("Favorites".to_string(), vec!["A".to_string()]),
            ("Zeta".to_string(), vec!["A".to_string(), "B".to_string()]),
        ]
    );
    assert_eq!(m.serialize(), "Favorites\tA\nZeta\tA\nZeta\tB\n");
}

#[test]
fn playlist_file_round_trips() {
    let m = Memberships::parse("B\tx\nA\ty\nA\tx\n");
    let again = Memberships::parse(&m.serialize());
    assert_eq!(names(&again), names(&m));
}

#[test]
fn playlist_names_resolve_case_insensitively() {
    let m = Memberships::parse("Road Trip\tA\n");
    assert_eq!(resolve_playlist_name(" favorites ", &m).unwrap(), "Favorites");
    assert_eq!(resolve_playlist_name("STEAM", &m).unwrap(), "Steam");
    assert_eq!(resolve_playlist_name("road trip", &m).unwrap(), "Road Trip");
    assert_eq!(
        resolve_playlist_name(" Missing ", &m).err().unwrap().into_message(),
        "Playlist 'Missing' does not exist"
    );
}

#[test]
fn games_are_added_to_and_removed_from_playlists() {
    let mut m = Memberships::new();
    add_game_to_playlist("favorites", " Portal ", &mut m).unwrap();
    add_game_to_playlist("Favorites", "Doom", &mut m).unwrap();
    assert_eq!(
        names(&m),
        vec![("Favorites".to_string(), vec!["Doom".to_string(), "Portal".to_string()])]
    );
    remove_game_from_playlist("FAVORITES", "Doom", &mut m).unwrap();
    assert_eq!(names(&m), vec![("Favorites".to_string(), vec!["Portal".to_string()])]);
    assert_eq!(
        add_game_to_playlist(" ", "x", &mut m).err().unwrap().into_message(),
        "Playlist name cannot be empty"
    );
    assert_eq!(
        add_game_to_playlist("Favorites", "  ", &mut m).err().unwrap().into_message(),
        "Game name cannot be empty"
    );
    assert_eq!(
        add_game_to_playlist("Other", "x", &mut m).err().unwrap().into_message(),
        "Playlist 'Other' does not exist"
    );
}

#[test]
fn removed_games_leave_every_playlist() {
    let mut m = Memberships::parse("A\tx\nA\ty\nB\tx\n");
    assert!(remove_game_from_all_playlists("x", &mut m));
    assert_eq!(
        names(&m),
        vec![("A".to_string(), vec!["y".to_string()]), ("B".to_string(), vec![])]
    );
    assert!(!remove_game_from_all_playlists("x", &mut m));
    assert!(!remove_game_from_all_playlists("", &mut m));
    assert!(remove_games_from_all_playlists(&["y".to_string(), "q".to_string()], &mut m));
    assert_eq!(m.serialize(), "");
}

#[test]
fn automatic_playlists_follow_the_game_list() {
    let entries = vec![
        GameEntry { name: "Portal".to_string(), runner_kind: RunnerKind::Steam, launch_target: "400".to_string() },
        GameEntry { name: "[NES] Zelda".to_string(), runner_kind: RunnerKind::Emulator, launch_target: "retroarch|nes|/z.nes".to_string() },
        GameEntry { name: "Script".to_string(), runner_kind: RunnerKind::Bash, launch_target: "/s.sh".to_string() },
        GameEntry { name: "Dota".to_string(), runner_kind: RunnerKind::Steam, launch_target: "570".to_string() },
    ];
    let mut m = Memberships::parse("Favorites\tPortal\n");
    assert!(sync_automatic_playlists(&mut m, &entries));
    assert!(!sync_automatic_playlists(&mut m, &entries));
    let listed: Vec<(String, Vec<String>)> =
        list_playlists(&m).into_iter().map(|p| (p.name, p.game_names)).collect();
    assert_eq!(
        listed,
        vec![
            ("Favorites".to_string(), vec!["Portal".to_string()]),
            ("Steam".to_string(), vec!["Dota".to_string(), "Portal".to_string()]),
            ("Emulation".to_string(), vec!["[NES] Zelda".to_string()]),
        ]
    );
}

#[test]
fn listing_puts_builtin_playlists_first() {
    let m = Memberships::parse("Alpha\tA\nZulu\tZ\n");
    let listed: Vec<String> = list_playlists(&m).into_iter().map(|p| p.name).collect();
    assert_eq!(listed, vec!["Favorites", "Steam", "Emulation", "Alpha", "Zulu"]);
}

#[test]
fn removing_undoes_adding() {
    let mut m = Memberships::parse("Favorites\tA\nTrip\tC\n");
    let before = names(&m);
    add_game_to_playlist("favorites", " B ", &mut m).unwrap();
    assert_ne!(names(&m), before);
    remove_game_from_playlist("Favorites", "B", &mut m).unwrap();
    assert_eq!(names(&m), before);
    let text = m.serialize();
    add_game_to_playlist("Steam", "X", &mut m).unwrap();
    remove_game_from_playlist("steam", "X", &mut m).unwrap();
    assert_eq!(m.serialize(), text);
}
