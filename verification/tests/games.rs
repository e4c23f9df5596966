use basalt::error::CoreError;
use basalt::games::{
    add_game, check_game_name, ensure_game_exists, find_game, is_already_exists_error,
    is_blacklisted_error, list_games, remove_all_games, remove_game,
};
use basalt::runners::{detect_appid, resolve_add_target, RunnerKind};
use basalt::types::GameEntry;

fn entry(name: &str, kind: RunnerKind, target: &str) -> GameEntry {
    GameEntry { name: name.to_string(), runner_kind: kind, launch_target: target.to_string() }
}

fn no_script() -> Result<String, String> {
    Err("Script does not exist or is not a file: x".to_string())
}

#[test]
fn steam_targets_are_recognised() {
    assert_eq!(detect_appid(" 440 "), Some("440".to_string()));
    assert_eq!(detect_appid("steam://rungameid/570"), Some("570".to_string()));
    assert_eq!(detect_appid("steam://run/10"), Some("10".to_string()));
    assert_eq!(detect_appid("steam:appid:20"), Some("20".to_string()));
    assert_eq!(detect_appid("steam-appid:30"), Some("30".to_string()));
    assert_eq!(detect_appid("steam://rungameid/abc"), None);
    assert_eq!(detect_appid(""), None);
    let t = resolve_add_target("/x/game.sh", Ok("/x/game.sh".to_string())).unwrap();
    assert_eq!(t.runner_kind, RunnerKind::Bash);
}

#[test]
fn adding_a_game_appends_it() {
    let entries = vec![entry("A", RunnerKind::Bash, "/a.sh")];
    let out = add_game("Portal", "400", no_script(), &[], &entries).unwrap();
    assert_eq!(out.len(), 2);
    assert_eq!(out[1].name, "Portal");
    assert_eq!(out[1].runner_kind, RunnerKind::Steam);
    assert_eq!(out[1].launch_target, "400");
}

#[test]
fn adding_refuses_in_rule_order() {
    let entries = vec![entry("A", RunnerKind::Steam, "400")];
    let msg = |r: Result<Vec<GameEntry>, CoreError>| r.err().unwrap().into_message();
    assert_eq!(msg(add_game("", "400", no_script(), &[], &entries)), "Game name cannot be empty");
    assert_eq!(
        msg(add_game("a\tb", "400", no_script(), &[], &entries)),
        "Game name cannot contain tabs or newlines"
    );
    assert_eq!(
        msg(add_game("Bad", "400", no_script(), &["bad".to_string()], &entries)),
        "Game name 'Bad' is blacklisted"
    );
    assert_eq!(
        msg(add_game("B", "/none.sh", no_script(), &[], &entries)),
        "Script does not exist or is not a file: x"
    );
    assert_eq!(msg(add_game("A", "401", no_script(), &[], &entries)), "A game with name 'A' already exists");
    assert_eq!(
        msg(add_game("C", "steam://rungameid/400", no_script(), &[], &entries)),
        "A game with target '400' already exists"
    );
}

#[test]
fn refusal_kinds_are_recognised() {
    let exists = CoreError::new("A game with name 'A' already exists".to_string());
    let listed = CoreError::new("Game name 'A' is blacklisted".to_string());
    assert!(is_already_exists_error(&exists));
    assert!(!is_already_exists_error(&listed));
    assert!(is_blacklisted_error(&listed));
    assert!(!is_blacklisted_error(&exists));
    assert!(check_game_name("ok").is_ok());
}

#[test]
fn adding_then_removing_restores_the_list() {
    let entries = vec![entry("A", RunnerKind::Bash, "/a.sh"), entry("B", RunnerKind::Steam, "1")];
    let added = add_game("C", "2", no_script(), &[], &entries).unwrap();
    let removed = remove_game("C", &added).unwrap();
    assert_eq!(removed.len(), 2);
    assert_eq!(removed[0].name, "A");
    assert_eq!(removed[1].name, "B");
}

#[test]
fn removing_needs_a_known_name() {
    let entries = vec![entry("A", RunnerKind::Bash, "/a.sh")];
    assert_eq!(remove_game("", &entries).err().unwrap().into_message(), "Game name cannot be empty");
    assert_eq!(
        remove_game("Z", &entries).err().unwrap().into_message(),
        "No game found with name 'Z'"
    );
    let (count, names) = remove_all_games(&entries);
    assert_eq!(count, 1);
    assert_eq!(names, vec!["A".to_string()]);
}

#[test]
fn listing_hides_blacklisted_games() {
    let entries = vec![entry("Proton 8.0", RunnerKind::Steam, "1"), entry("Portal", RunnerKind::Steam, "2")];
    let listed = list_games(&entries, &["proton 8.0".to_string()]);
    assert_eq!(listed.len(), 1);
    assert_eq!(listed[0].name, "Portal");
}

#[test]
fn finding_a_game_gives_the_first_with_its_name() {
    let entries = vec![entry("A", RunnerKind::Bash, "/a.sh"), entry("A", RunnerKind::Steam, "9")];
    assert_eq!(find_game("A", &entries).unwrap().launch_target, "/a.sh");
    assert!(ensure_game_exists("A", &entries).is_ok());
    assert_eq!(
        ensure_game_exists("Q", &entries).err().unwrap().into_message(),
        "No game found with name 'Q'"
    );
}

#[test]
fn taken_names_and_targets_are_reported_as_existing() {
    let entries = vec![entry("A", RunnerKind::Steam, "400")];
    let by_name = add_game("A", "401", no_script(), &[], &entries).err().unwrap();
    let by_target = add_game("B", "400", no_script(), &[], &entries).err().unwrap();
    assert!(is_already_exists_error(&by_name));
    assert!(is_already_exists_error(&by_target));
}

#[test]
fn runner_names_round_trip() {
    for kind in [RunnerKind::Bash, RunnerKind::Steam, RunnerKind::Emulator] {
        assert_eq!(RunnerKind::from_str(kind.as_str()), Some(kind));
    }
    assert_eq!(RunnerKind::from_str("Bash"), None);
}

#[test]
fn errors_convert_to_and_from_their_messages() {
    assert_eq!(CoreError::new("boom".to_string()).message(), "boom");
    assert_eq!(CoreError::from("plain".to_string()).message(), "plain");
    assert_eq!(CoreError::from("slice").message(), "slice");
    assert_eq!(String::from(CoreError::new("back".to_string())), "back");
}
