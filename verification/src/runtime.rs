//! The RetroArch runtime: which command runs it, what it is told when it launches a
//! ROM, how its installation is attempted, and how failures are reported.
use vstd::prelude::*;

use crate::text::{append_str, decimal_string, push_decimal, string_of, trim_seq, trim_str};

verus! {

broadcast use vstd::string::group_string_axioms;

/// The Flatpak application that provides RetroArch.
pub const RETROARCH_FLATPAK_APP_ID: &'static str = "org.libretro.RetroArch";

/// How RetroArch is run.
#[derive(Clone, Copy, PartialEq, Eq, Structural, Debug)]
pub enum RuntimeCommand {
    /// The `retroarch` program found on the search path.
    RetroArchBinary,
    /// The Flatpak application, run through `flatpak run`.
    RetroArchFlatpak,
}

/// A program with its arguments.
#[derive(Clone, Debug)]
pub struct CommandLine {
    pub program: String,
    pub args: Vec<String>,
}

/// The character sequences held by a sequence of strings.
pub open spec fn texts(v: Seq<String>) -> Seq<Seq<char>> {
    Seq::new(v.len(), |i: int| v[i]@)
}

/// The runtime to use: the `retroarch` program when it is on the search path, else the
/// Flatpak application when it is installed, else none.
pub fn select_runtime_command(retroarch_on_path: bool, flatpak_app_installed: bool) -> (r: Option<
    RuntimeCommand,
>)
    ensures
        r == if retroarch_on_path {
            Some(RuntimeCommand::RetroArchBinary)
        } else if flatpak_app_installed {
            Some(RuntimeCommand::RetroArchFlatpak)
        } else {
            None
        },
{
    if retroarch_on_path {
        Some(RuntimeCommand::RetroArchBinary)
    } else if flatpak_app_installed {
        Some(RuntimeCommand::RetroArchFlatpak)
    } else {
        None
    }
}

/// The message when no runtime is found even after an installation attempt.
pub fn runtime_unavailable_message() -> (r: String)
    ensures
        r@ == "RetroArch is not available. Automatic installation failed; retry from Install screen or run `basalt install-emulators`."@,
{
    "RetroArch is not available. Automatic installation failed; retry from Install screen or run `basalt install-emulators`.".to_owned()
}

/// The settings appended to RetroArch's configuration for one launch: saves and save
/// states go to `save_directory`, the game runs full screen, and pads are configured
/// from `autoconfig_directory`.
pub open spec fn append_config_spec(save_directory: Seq<char>, autoconfig_directory: Seq<char>) -> Seq<
    char,
> {
    "savefile_directory = \""@ + save_directory + "\"\nsavestate_directory = \""@
        + save_directory
        + "\"\nsavefiles_in_content_dir = \"false\"\nsavestates_in_content_dir = \"false\"\nsort_savefiles_enable = \"false\"\nsort_savestates_enable = \"false\"\nsort_savefiles_by_content_enable = \"false\"\nsort_savestates_by_content_enable = \"false\"\nvideo_fullscreen = \"true\"\ninput_autodetect_enable = \"true\"\njoypad_autoconfig_dir = \""@
        + autoconfig_directory + "\"\n"@
}

/// The configuration appended for one launch.
pub fn retroarch_append_config(save_directory: &str, autoconfig_directory: &str) -> (r: String)
    ensures
        r@ == append_config_spec(save_directory@, autoconfig_directory@),
{
    let mut v: Vec<char> = Vec::new();
    append_str(&mut v, "savefile_directory = \"");
    append_str(&mut v, save_directory);
    append_str(&mut v, "\"\nsavestate_directory = \"");
    append_str(&mut v, save_directory);
    append_str(
        &mut v,
        "\"\nsavefiles_in_content_dir = \"false\"\nsavestates_in_content_dir = \"false\"\nsort_savefiles_enable = \"false\"\nsort_savestates_enable = \"false\"\nsort_savefiles_by_content_enable = \"false\"\nsort_savestates_by_content_enable = \"false\"\nvideo_fullscreen = \"true\"\ninput_autodetect_enable = \"true\"\njoypad_autoconfig_dir = \"",
    );
    append_str(&mut v, autoconfig_directory);
    append_str(&mut v, "\"\n");
    string_of(&v)
}

/// The name of the configuration file appended when launching a ROM of `system`.
pub fn append_config_file_name(system: &str) -> (r: String)
    ensures
        r@ == "basalt-"@ + system@ + "-paths.cfg"@,
{
    let mut v: Vec<char> = Vec::new();
    append_str(&mut v, "basalt-");
    append_str(&mut v, system);
    append_str(&mut v, "-paths.cfg");
    string_of(&v)
}

/// The arguments that make RetroArch run a ROM full screen with a core and the
/// appended configuration.
pub open spec fn retroarch_args_spec(core: Seq<char>, config: Seq<char>, rom: Seq<char>) -> Seq<
    Seq<char>,
> {
    seq!["--fullscreen"@, "-L"@, core, "--appendconfig"@, config, rom]
}

/// The command that launches a ROM: `retroarch` with the launch arguments, or
/// `flatpak run` of the RetroArch application with them.
pub open spec fn launch_command_spec(
    runtime: RuntimeCommand,
    core: Seq<char>,
    config: Seq<char>,
    rom: Seq<char>,
) -> (Seq<char>, Seq<Seq<char>>) {
    match runtime {
        RuntimeCommand::RetroArchBinary => ("retroarch"@, retroarch_args_spec(core, config, rom)),
        RuntimeCommand::RetroArchFlatpak => (
            "flatpak"@,
            seq!["run"@, RETROARCH_FLATPAK_APP_ID@] + retroarch_args_spec(core, config, rom),
        ),
    }
}

/// The command that launches the ROM at `rom_path` with the core at `core_path`.
pub fn retroarch_launch_command(
    runtime: RuntimeCommand,
    core_path: &str,
    append_config_path: &str,
    rom_path: &str,
) -> (r: CommandLine)
    ensures
        (r.program@, texts(r.args@)) == launch_command_spec(
            runtime,
            core_path@,
            append_config_path@,
            rom_path@,
        ),
{
    let mut args: Vec<String> = Vec::new();
    let program = match runtime {
        RuntimeCommand::RetroArchBinary => "retroarch".to_owned(),
        RuntimeCommand::RetroArchFlatpak => {
            args.push("run".to_owned());
            args.push(RETROARCH_FLATPAK_APP_ID.to_owned());
            "flatpak".to_owned()
        },
    };
    let ghost before = texts(args@);
    args.push("--fullscreen".to_owned());
    args.push("-L".to_owned());
    args.push(core_path.to_owned());
    args.push("--appendconfig".to_owned());
    args.push(append_config_path.to_owned());
    args.push(rom_path.to_owned());
    assert(texts(args@) =~= before + retroarch_args_spec(
        core_path@,
        append_config_path@,
        rom_path@,
    ));
    proof {
        match runtime {
            RuntimeCommand::RetroArchBinary => {
                assert(before =~= Seq::<Seq<char>>::empty());
                assert(texts(args@) =~= retroarch_args_spec(
                    core_path@,
                    append_config_path@,
                    rom_path@,
                ));
            },
            RuntimeCommand::RetroArchFlatpak => {
                assert(before =~= seq!["run"@, RETROARCH_FLATPAK_APP_ID@]);
            },
        }
    }
    CommandLine { program, args }
}

/// An exit code written in decimal, with a leading `-` when negative.
pub open spec fn signed_decimal(n: int) -> Seq<char> {
    if n < 0 {
        seq!['-'] + decimal_string((-n) as nat)
    } else {
        decimal_string(n as nat)
    }
}

/// What a failed launch reports: the exit code (or that a signal ended the runtime) and
/// the first of the trimmed error output, the trimmed standard output, or a note that
/// there was none, that is not empty.
pub open spec fn launch_failure_spec(exit_code: Option<i32>, stderr: Seq<char>, stdout: Seq<char>) -> Seq<
    char,
> {
    let exit = match exit_code {
        Some(c) => signed_decimal(c as int),
        None => "terminated by signal"@,
    };
    let details = if trim_seq(stderr).len() > 0 {
        trim_seq(stderr)
    } else if trim_seq(stdout).len() > 0 {
        trim_seq(stdout)
    } else {
        "No additional runtime output"@
    };
    "Emulator launch failed (exit="@ + exit + "): "@ + details
}

/// The message of a failed launch.
pub fn emulator_launch_failure(exit_code: Option<i32>, stderr: &str, stdout: &str) -> (r: String)
    ensures
        r@ == launch_failure_spec(exit_code, stderr@, stdout@),
{
    let mut v: Vec<char> = Vec::new();
    append_str(&mut v, "Emulator launch failed (exit=");
    let ghost start = v@;
    match exit_code {
        Some(c) => {
            if c < 0 {
                v.push('-');
                let magnitude: u64 = (0i64 - (c as i64)) as u64;
                push_decimal(&mut v, magnitude);
                assert(v@ =~= start + signed_decimal(c as int));
            } else {
                push_decimal(&mut v, c as u64);
            }
        },
        None => {
            append_str(&mut v, "terminated by signal");
        },
    }
    append_str(&mut v, "): ");
    let err = trim_str(stderr);
    let out = trim_str(stdout);
    if crate::text::chars_of(err.as_str()).len() > 0 {
        append_str(&mut v, err.as_str());
    } else if crate::text::chars_of(out.as_str()).len() > 0 {
        append_str(&mut v, out.as_str());
    } else {
        append_str(&mut v, "No additional runtime output");
    }
    assert(v@ =~= launch_failure_spec(exit_code, stderr@, stdout@));
    string_of(&v)
}

/// The words of `args` joined by single spaces.
pub open spec fn join_spaced(args: Seq<Seq<char>>) -> Seq<char>
    decreases args.len(),
{
    if args.len() == 0 {
        Seq::empty()
    } else if args.len() == 1 {
        args[0]
    } else {
        join_spaced(args.drop_last()) + seq![' '] + args.last()
    }
}

/// The message of a command that exited unsuccessfully: the command line, then its
/// trimmed error output on the next line.
pub fn command_failure_message(program: &str, args: &Vec<String>, stderr: &str) -> (r: String)
    ensures
        r@ == "Command failed: "@ + program@ + " "@ + join_spaced(texts(args@)) + "\n"@ + trim_seq(
            stderr@,
        ),
{
    let mut v: Vec<char> = Vec::new();
    append_str(&mut v, "Command failed: ");
    append_str(&mut v, program);
    append_str(&mut v, " ");
    let ghost head = v@;
    let mut i: usize = 0;
    while i < args.len()
        invariant
            i <= args@.len(),
            v@ == head + join_spaced(texts(args@).take(i as int)),
        decreases args.len() - i,
    {
        let ghost t = texts(args@).take(i + 1);
        assert(t.drop_last() =~= texts(args@).take(i as int));
        if i > 0 {
            v.push(' ');
        }
        append_str(&mut v, args[i].as_str());
        assert(v@ =~= head + join_spaced(t));
        i += 1;
    }
    assert(texts(args@).take(args@.len() as int) =~= texts(args@));
    append_str(&mut v, "\n");
    let err = trim_str(stderr);
    append_str(&mut v, err.as_str());
    string_of(&v)
}

/// Whether the output of `id -u` names the root user.
pub fn is_root_user_id(output: &str) -> (r: bool)
    ensures
        r == (trim_seq(output@) == "0"@),
{
    let t = trim_str(output);
    proof {
        reveal_strlit("0");
    }
    let v = crate::text::chars_of(t.as_str());
    if v.len() == 1 && v[0] == '0' {
        assert(v@ =~= "0"@);
        true
    } else {
        false
    }
}

/// A command line of literal words.
fn command_of(program: &str, args: Vec<&str>) -> (r: CommandLine)
    ensures
        r.program@ == program@,
        texts(r.args@) == Seq::new(args@.len(), |i: int| args@[i]@),
{
    let mut out: Vec<String> = Vec::new();
    let mut i: usize = 0;
    while i < args.len()
        invariant
            i <= args@.len(),
            texts(out@) =~= Seq::new(i as nat, |k: int| args@[k]@),
        decreases args.len() - i,
    {
        let ghost before = texts(out@);
        out.push(args[i].to_owned());
        assert(texts(out@) =~= before.push(args@[i as int]@));
        i += 1;
    }
    CommandLine { program: program.to_owned(), args: out }
}

/// The commands that install RetroArch with apt: run directly by root, else through
/// non-interactive `sudo` where it exists; refused otherwise.
pub fn apt_install_commands(is_root: bool, sudo_available: bool) -> (r: Result<
    Vec<CommandLine>,
    String,
>)
    ensures
        is_root ==> (r matches Ok(c) && c@.len() == 2 && c@[0].program@ == "apt-get"@ && texts(
            c@[0].args@,
        ) == seq!["update"@] && c@[1].program@ == "apt-get"@ && texts(c@[1].args@) == seq![
            "install"@,
            "-y"@,
            "retroarch"@,
        ]),
        !is_root && sudo_available ==> (r matches Ok(c) && c@.len() == 2 && c@[0].program@
            == "sudo"@ && texts(c@[0].args@) == seq!["-n"@, "apt-get"@, "update"@]
            && c@[1].program@ == "sudo"@ && texts(c@[1].args@) == seq![
            "-n"@,
            "apt-get"@,
            "install"@,
            "-y"@,
            "retroarch"@,
        ]),
        !is_root && !sudo_available ==> (r matches Err(e) && e@
            == "Apt-based RetroArch installation requires root or passwordless sudo."@),
{
    if is_root {
        let a = command_of("apt-get", vec!["update"]);
        let b = command_of("apt-get", vec!["install", "-y", "retroarch"]);
        assert(texts(a.args@) =~= seq!["update"@]);
        assert(texts(b.args@) =~= seq!["install"@, "-y"@, "retroarch"@]);
        Ok(vec![a, b])
    } else if sudo_available {
        let a = command_of("sudo", vec!["-n", "apt-get", "update"]);
        let b = command_of("sudo", vec!["-n", "apt-get", "install", "-y", "retroarch"]);
        assert(texts(a.args@) =~= seq!["-n"@, "apt-get"@, "update"@]);
        assert(texts(b.args@) =~= seq!["-n"@, "apt-get"@, "install"@, "-y"@, "retroarch"@]);
        Ok(vec![a, b])
    } else {
        Err("Apt-based RetroArch installation requires root or passwordless sudo.".to_owned())
    }
}

/// The commands that install RetroArch from Flathub: add the remote when missing, then
/// install the application.
pub fn flatpak_install_commands() -> (r: Vec<CommandLine>)
    ensures
        r@.len() == 2,
        r@[0].program@ == "flatpak"@,
        texts(r@[0].args@) == seq![
            "remote-add"@,
            "--if-not-exists"@,
            "flathub"@,
            "https://flathub.org/repo/flathub.flatpakrepo"@,
        ],
        r@[1].program@ == "flatpak"@,
        texts(r@[1].args@) == seq!["install"@, "-y"@, "flathub"@, RETROARCH_FLATPAK_APP_ID@],
{
    let a = command_of(
        "flatpak",
        vec!["remote-add", "--if-not-exists", "flathub", "https://flathub.org/repo/flathub.flatpakrepo"],
    );
    let b = command_of("flatpak", vec!["install", "-y", "flathub", RETROARCH_FLATPAK_APP_ID]);
    assert(texts(a.args@) =~= seq![
        "remote-add"@,
        "--if-not-exists"@,
        "flathub"@,
        "https://flathub.org/repo/flathub.flatpakrepo"@,
    ]);
    assert(texts(b.args@) =~= seq!["install"@, "-y"@, "flathub"@, RETROARCH_FLATPAK_APP_ID@]);
    vec![a, b]
}

/// The message when no installation of RetroArch succeeded.
pub fn runtime_install_failed_message() -> (r: String)
    ensures
        r@ == "Failed to automatically install RetroArch runtime."@,
{
    "Failed to automatically install RetroArch runtime.".to_owned()
}

/// The file name of the downloaded archive of a core.
pub fn core_archive_name(core_file: &str) -> (r: String)
    ensures
        r@ == core_file@ + ".zip"@,
{
    let mut v: Vec<char> = Vec::new();
    append_str(&mut v, core_file);
    append_str(&mut v, ".zip");
    string_of(&v)
}

/// The command that unpacks a core archive into the cores directory, overwriting.
pub fn unzip_core_command(archive_path: &str, cores_dir: &str) -> (r: CommandLine)
    ensures
        r.program@ == "unzip"@,
        texts(r.args@) == seq!["-o"@, archive_path@, "-d"@, cores_dir@],
{
    let args = vec!["-o".to_owned(), archive_path.to_owned(), "-d".to_owned(), cores_dir.to_owned()];
    assert(texts(args@) =~= seq!["-o"@, archive_path@, "-d"@, cores_dir@]);
    CommandLine { program: "unzip".to_owned(), args }
}

/// How an exit is reported: the exit code in decimal, or that a signal ended the
/// process.
pub open spec fn exit_code_spec(exit_code: Option<i32>) -> Seq<char> {
    match exit_code {
        Some(c) => signed_decimal(c as int),
        None => "terminated by signal"@,
    }
}

/// How an exit is reported.
pub fn exit_code_text(exit_code: Option<i32>) -> (r: String)
    ensures
        r@ == exit_code_spec(exit_code),
{
    let mut v: Vec<char> = Vec::new();
    match exit_code {
        Some(c) => {
            if c < 0 {
                v.push('-');
                let magnitude: u64 = (0i64 - (c as i64)) as u64;
                push_decimal(&mut v, magnitude);
                assert(v@ =~= signed_decimal(c as int));
            } else {
                push_decimal(&mut v, c as u64);
                assert(v@ =~= signed_decimal(c as int));
            }
        },
        None => {
            append_str(&mut v, "terminated by signal");
            assert(v@ =~= "terminated by signal"@);
        },
    }
    string_of(&v)
}

/// A step of installing RetroArch: what is asked or done next, or the outcome.
#[derive(Clone, Copy, PartialEq, Eq, Structural, Debug)]
pub enum InstallStep {
    /// Is `apt-get` on the search path?
    ProbeApt,
    /// Run the apt install commands (stopping at the first that fails).
    RunApt,
    /// Is `retroarch` on the search path now?
    ProbeRetroarch,
    /// Is `flatpak` on the search path?
    ProbeFlatpak,
    /// Run the Flathub install commands (failures are ignored).
    RunFlatpak,
    /// Is the RetroArch Flatpak application installed now?
    ProbeFlatpakApp,
    /// Installation succeeded (`true`) or failed.
    Done(bool),
}

/// The step after `step`, given the answer to its question (ignored after running
/// commands): apt is tried first and succeeds when `retroarch` is then found; else
/// Flathub is tried and succeeds when the application is then installed.
pub open spec fn next_install_step_spec(step: InstallStep, answer: bool) -> InstallStep {
    match step {
        InstallStep::ProbeApt => if answer {
            InstallStep::RunApt
        } else {
            InstallStep::ProbeFlatpak
        },
        InstallStep::RunApt => InstallStep::ProbeRetroarch,
        InstallStep::ProbeRetroarch => if answer {
            InstallStep::Done(true)
        } else {
            InstallStep::ProbeFlatpak
        },
        InstallStep::ProbeFlatpak => if answer {
            InstallStep::RunFlatpak
        } else {
            InstallStep::Done(false)
        },
        InstallStep::RunFlatpak => InstallStep::ProbeFlatpakApp,
        InstallStep::ProbeFlatpakApp => InstallStep::Done(answer),
        InstallStep::Done(ok) => InstallStep::Done(ok),
    }
}

/// The step of installing RetroArch after `step`.
pub fn next_install_step(step: InstallStep, answer: bool) -> (r: InstallStep)
    ensures
        r == next_install_step_spec(step, answer),
{
    match step {
        InstallStep::ProbeApt => if answer {
            InstallStep::RunApt
        } else {
            InstallStep::ProbeFlatpak
        },
        InstallStep::RunApt => InstallStep::ProbeRetroarch,
        InstallStep::ProbeRetroarch => if answer {
            InstallStep::Done(true)
        } else {
            InstallStep::ProbeFlatpak
        },
        InstallStep::ProbeFlatpak => if answer {
            InstallStep::RunFlatpak
        } else {
            InstallStep::Done(false)
        },
        InstallStep::RunFlatpak => InstallStep::ProbeFlatpakApp,
        InstallStep::ProbeFlatpakApp => InstallStep::Done(answer),
        InstallStep::Done(ok) => InstallStep::Done(ok),
    }
}

/// How many steps remain at most before installation is done.
pub open spec fn install_steps_left(step: InstallStep) -> nat {
    match step {
        InstallStep::ProbeApt => 6,
        InstallStep::RunApt => 5,
        InstallStep::ProbeRetroarch => 4,
        InstallStep::ProbeFlatpak => 3,
        InstallStep::RunFlatpak => 2,
        InstallStep::ProbeFlatpakApp => 1,
        InstallStep::Done(_) => 0,
    }
}

/// Installation always comes to an end: every step short of the outcome brings it
/// closer, and it succeeds only on a positive answer to a probe for the runtime.
pub proof fn lemma_install_steps_progress(step: InstallStep, answer: bool)
    ensures
        !(step is Done) ==> install_steps_left(next_install_step_spec(step, answer))
            < install_steps_left(step),
        next_install_step_spec(step, answer) == InstallStep::Done(true) && !(step is Done) ==> answer
            && (step == InstallStep::ProbeRetroarch || step == InstallStep::ProbeFlatpakApp),
{
}

} // verus!
