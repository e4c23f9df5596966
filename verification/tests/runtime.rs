use basalt::runtime::{
    next_install_step, InstallStep,
    apt_install_commands, command_failure_message, core_archive_name, emulator_launch_failure,
    exit_code_text, is_root_user_id, retroarch_append_config, retroarch_launch_command,
    select_runtime_command, unzip_core_command, RuntimeCommand,
};
use basalt::scripts::{
    has_sh_extension, normalize_bash_script_path, sibling_base_script, steam_launch_command,
};
use basalt::runners::RunnerKind;
use basalt::types::GameEntry;

#[test]
fn runtime_is_chosen_in_order() {
    assert_eq!(select_runtime_command(true, true), Some(RuntimeCommand::RetroArchBinary));
    assert_eq!(select_runtime_command(false, true), Some(RuntimeCommand::RetroArchFlatpak));
    assert_eq!(select_runtime_command(false, false), None);
}

#[test]
fn launch_commands() {
    let c = retroarch_launch_command(RuntimeCommand::RetroArchFlatpak, "/c.so", "/a.cfg", "/r.nes");
    assert_eq!(c.program, "flatpak");
    assert_eq!(
        c.args,
        vec!["run", "org.libretro.RetroArch", "--fullscreen", "-L", "/c.so", "--appendconfig", "/a.cfg", "/r.nes"]
    );
    let c = retroarch_launch_command(RuntimeCommand::RetroArchBinary, "/c.so", "/a.cfg", "/r.nes");
    assert_eq!(c.program, "retroarch");
    assert_eq!(c.args.len(), 6);
}

#[test]
fn append_config_points_saves_at_the_save_directory() {
    let cfg = retroarch_append_config("/saves/nes", "/auto");
    assert!(cfg.starts_with("savefile_directory = \"/saves/nes\"\nsavestate_directory = \"/saves/nes\"\n"));
    assert!(cfg.ends_with("joypad_autoconfig_dir = \"/auto\"\n"));
}

#[test]
fn failure_messages() {
    assert_eq!(emulator_launch_failure(Some(1), "  boom ", "out"), "Emulator launch failed (exit=1): boom");
    assert_eq!(emulator_launch_failure(None, "", " out "), "Emulator launch failed (exit=terminated by signal): out");
    assert_eq!(emulator_launch_failure(Some(-2), "", ""), "Emulator launch failed (exit=-2): No additional runtime output");
    assert_eq!(exit_code_text(Some(127)), "127");
    let args = vec!["-o".to_string(), "a.zip".to_string()];
    assert_eq!(command_failure_message("unzip", &args, " bad \n"), "Command failed: unzip -o a.zip\nbad");
}

#[test]
fn install_commands() {
    let root = apt_install_commands(true, false).unwrap();
    assert_eq!(root[0].program, "apt-get");
    assert_eq!(root[1].args, vec!["install", "-y", "retroarch"]);
    let sudo = apt_install_commands(false, true).unwrap();
    assert_eq!(sudo[0].args, vec!["-n", "apt-get", "update"]);
    assert_eq!(
        apt_install_commands(false, false).err(),
        Some("Apt-based RetroArch installation requires root or passwordless sudo.".to_string())
    );
    assert!(is_root_user_id(" 0\n"));
    assert!(!is_root_user_id("1000"));
    assert_eq!(core_archive_name("nestopia_libretro.so"), "nestopia_libretro.so.zip");
    assert_eq!(unzip_core_command("/a.zip", "/cores").args, vec!["-o", "/a.zip", "-d", "/cores"]);
}

#[test]
fn bash_scripts_must_be_sh_files() {
    assert!(has_sh_extension("/x/run.SH"));
    assert!(!has_sh_extension("/x/run.py"));
    assert_eq!(
        normalize_bash_script_path("/x/run.sh", false, Ok("/x/run.sh".to_string())),
        Err("Script does not exist or is not a file: /x/run.sh".to_string())
    );
    assert_eq!(
        normalize_bash_script_path("/x/run.py", true, Ok("/x/run.py".to_string())),
        Err("Only bash scripts are supported right now (expected .sh file)".to_string())
    );
    assert_eq!(
        normalize_bash_script_path("./run.sh", true, Ok("/x/run.sh".to_string())),
        Ok("/x/run.sh".to_string())
    );
}

#[test]
fn sibling_scripts_need_a_bash_game() {
    let entries = vec![
        GameEntry { name: "MattMC".to_string(), runner_kind: RunnerKind::Bash, launch_target: "/g/run.sh".to_string() },
        GameEntry { name: "Portal".to_string(), runner_kind: RunnerKind::Steam, launch_target: "400".to_string() },
    ];
    assert_eq!(sibling_base_script("MattMC", "backup.sh", &entries).unwrap(), "/g/run.sh");
    assert_eq!(
        sibling_base_script("Portal", "x.sh", &entries).err().unwrap().into_message(),
        "Game 'Portal' does not use the bash runner, so sibling scripts are not supported"
    );
    assert_eq!(
        sibling_base_script("MattMC", "", &entries).err().unwrap().into_message(),
        "Script name cannot be empty"
    );
}

#[test]
fn steam_launch_commands() {
    assert_eq!(steam_launch_command("abc", true, false, false).err(), Some("Invalid Steam appid: abc".to_string()));
    let c = steam_launch_command("440", false, true, false).unwrap();
    assert_eq!(c.program, "flatpak");
    assert_eq!(c.args, vec!["run", "com.valvesoftware.Steam", "-applaunch", "440"]);
    let c = steam_launch_command("440", false, false, true).unwrap();
    assert_eq!(c.args, vec!["steam://rungameid/440"]);
    assert_eq!(
        steam_launch_command("440", false, false, false).err(),
        Some("Steam is not installed or not on PATH.".to_string())
    );
}

#[test]
fn runtime_installation_tries_apt_then_flathub() {
    let mut step = InstallStep::ProbeApt;
    for answer in [true, true, false, true, true, true] {
        step = next_install_step(step, answer);
    }
    assert_eq!(step, InstallStep::Done(true));
    let step = next_install_step(InstallStep::ProbeApt, false);
    assert_eq!(step, InstallStep::ProbeFlatpak);
    assert_eq!(next_install_step(step, false), InstallStep::Done(false));
    assert_eq!(
        next_install_step(InstallStep::ProbeRetroarch, true),
        InstallStep::Done(true)
    );
}
