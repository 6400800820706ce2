//! The process controller: which commands probe, terminate and launch a
//! server process and open the browser, and what their outcomes mean.
//!
//! Running a command is the caller's work. What is decided here is the
//! command line for each platform, and how the outcome is read: a probe
//! that cannot be run means "not alive"; a termination request that was
//! refused counts as done only if the process is gone all the same.

use vstd::prelude::*;
use vstd::string::StringExecFns;
use crate::decimal::{decimal, parse, parse_u32, push_decimal};
use crate::text::{chars_of, contains, includes, string_of, trim, trim_bounds};

verus! {

/// The flag that tells the program that it is the detached server.
pub const SERVER_FLAG: &'static str = "--bg-server";

/// The shell line that launches the detached server and prints the id of
/// the new process. The shell is handed the executable as `$0` and the
/// watched path as `$1`: neither stands in the line, so the shell reads no
/// character of them as its own.
pub const LAUNCH_LINE: &'static str = "nohup \"$0\" --bg-server \"$1\" > /dev/null 2>&1 & echo $!";

/// The platforms that the controller tells apart.
#[derive(Clone, Copy, PartialEq, Eq, Debug, Structural)]
pub enum Platform {
    Linux,
    MacOs,
    /// A Unix that is neither Linux nor macOS.
    OtherUnix,
    Windows,
    /// A platform that the controller has no commands for.
    Unsupported,
}

impl Platform {
    /// The platform is of the Unix family.
    pub open spec fn unix(self) -> bool {
        self is Linux || self is MacOs || self is OtherUnix
    }

    /// Tells whether the platform is of the Unix family.
    pub fn is_unix(&self) -> (r: bool)
        ensures
            r == self.unix(),
    {
        match self {
            Platform::Linux => true,
            Platform::MacOs => true,
            Platform::OtherUnix => true,
            _ => false,
        }
    }
}

/// A command to run: a program and its arguments.
#[derive(PartialEq, Eq, Debug)]
pub struct CommandLine {
    pub program: String,
    pub args: Vec<String>,
}

/// A command, as plain values.
pub struct CommandLineView {
    pub program: Seq<char>,
    pub args: Seq<Seq<char>>,
}

/// The texts of `args`.
pub open spec fn texts(args: Seq<String>) -> Seq<Seq<char>> {
    args.map_values(|arg: String| arg@)
}

impl View for CommandLine {
    type V = CommandLineView;

    open spec fn view(&self) -> CommandLineView {
        CommandLineView { program: self.program@, args: texts(self.args@) }
    }
}

/// What became of a command.
#[derive(PartialEq, Eq, Debug)]
pub enum CommandOutcome {
    /// The command could not be run.
    NotRun,
    /// The command ran. `success` tells whether it exited with success,
    /// `output` is what it wrote to its standard output.
    Ran { success: bool, output: String },
}

/// What became of a command, as plain values.
pub enum OutcomeView {
    /// The command could not be run.
    NotRun,
    /// The command ran.
    Ran { success: bool, output: Seq<char> },
}

impl View for CommandOutcome {
    type V = OutcomeView;

    open spec fn view(&self) -> OutcomeView {
        match self {
            CommandOutcome::NotRun => OutcomeView::NotRun,
            CommandOutcome::Ran { success, output } => OutcomeView::Ran {
                success: *success,
                output: output@,
            },
        }
    }
}

/// Why a process was not terminated.
#[derive(Clone, Copy, PartialEq, Eq, Debug, Structural)]
pub enum TerminationError {
    /// The platform has no command to terminate a process.
    Unsupported,
    /// The command that terminates a process could not be run.
    NotRun,
    /// The command ran without success and the process is still alive.
    Refused,
}

/// The command that probes the process `pid`.
pub open spec fn probe_command_of(platform: Platform, pid: u32) -> Option<CommandLineView> {
    if platform.unix() {
        Some(CommandLineView { program: "ps"@, args: seq!["-p"@, decimal(pid as nat)] })
    } else if platform is Windows {
        Some(
            CommandLineView {
                program: "tasklist"@,
                args: seq!["/FI"@, "PID eq "@ + decimal(pid as nat), "/NH"@],
            },
        )
    } else {
        None
    }
}

/// Whether the process `pid` is alive, going by the outcome of its probe:
/// on Unix the probe succeeds for a live process, on Windows its output
/// names the process id. A probe that could not be run, and a platform
/// without a probe, mean "not alive".
pub open spec fn alive(platform: Platform, pid: u32, outcome: OutcomeView) -> bool {
    match outcome {
        OutcomeView::NotRun => false,
        OutcomeView::Ran { success, output } => if platform.unix() {
            success
        } else if platform is Windows {
            contains(output, decimal(pid as nat))
        } else {
            false
        },
    }
}

/// The command that terminates the process `pid`.
pub open spec fn kill_command_of(platform: Platform, pid: u32) -> Option<CommandLineView> {
    if platform.unix() {
        Some(CommandLineView { program: "kill"@, args: seq![decimal(pid as nat)] })
    } else if platform is Windows {
        Some(
            CommandLineView {
                program: "taskkill"@,
                args: seq!["/F"@, "/PID"@, decimal(pid as nat)],
            },
        )
    } else {
        None
    }
}

/// The command that opens `url` in the browser.
pub open spec fn browser_command_of(platform: Platform, url: Seq<char>) -> Option<CommandLineView> {
    match platform {
        Platform::Windows => Some(
            CommandLineView { program: "cmd"@, args: seq!["/C"@, "start"@, url] },
        ),
        Platform::MacOs => Some(CommandLineView { program: "open"@, args: seq![url] }),
        Platform::Linux => Some(CommandLineView { program: "xdg-open"@, args: seq![url] }),
        _ => None,
    }
}

/// The command that launches `executable` as the detached server for
/// `input_path`. The executable and the watched path are arguments of
/// their own, unchanged.
pub open spec fn launch_command_of(
    platform: Platform,
    executable: Seq<char>,
    input_path: Seq<char>,
) -> Option<CommandLineView> {
    if platform.unix() {
        Some(
            CommandLineView {
                program: "bash"@,
                args: seq!["-c"@, LAUNCH_LINE@, executable, input_path],
            },
        )
    } else if platform is Windows {
        Some(
            CommandLineView {
                program: "cmd"@,
                args: seq!["/C"@, "start"@, "/B"@, executable, SERVER_FLAG@, input_path],
            },
        )
    } else {
        None
    }
}

/// Appends one argument.
fn push_arg(args: &mut Vec<String>, arg: String)
    ensures
        texts(final(args)@) == texts(old(args)@).push(arg@),
{
    args.push(arg);
    assert(texts(args@) =~= texts(old(args)@).push(arg@));
}

/// The decimal numeral of `pid`, as a string.
fn pid_text(pid: u32) -> (text: String)
    ensures
        text@ == decimal(pid as nat),
{
    let mut digits: Vec<char> = Vec::new();
    push_decimal(&mut digits, pid);
    assert(Seq::<char>::empty() + decimal(pid as nat) == decimal(pid as nat));
    string_of(digits.as_slice())
}

/// The command that probes whether the process `pid` exists, if the
/// platform has one.
pub fn probe_command(platform: Platform, pid: u32) -> (command: Option<CommandLine>)
    ensures
        match command {
            Some(c) => probe_command_of(platform, pid) == Some(c@),
            None => probe_command_of(platform, pid) is None,
        },
{
    let mut args: Vec<String> = Vec::new();
    assert(texts(args@) =~= Seq::<Seq<char>>::empty());
    if platform.is_unix() {
        push_arg(&mut args, String::from_str("-p"));
        push_arg(&mut args, pid_text(pid));
        assert(texts(args@) =~= seq!["-p"@, decimal(pid as nat)]);
        Some(CommandLine { program: String::from_str("ps"), args })
    } else if let Platform::Windows = platform {
        push_arg(&mut args, String::from_str("/FI"));
        let mut filter = String::from_str("PID eq ");
        let digits = pid_text(pid);
        filter.append(digits.as_str());
        push_arg(&mut args, filter);
        push_arg(&mut args, String::from_str("/NH"));
        assert(texts(args@) =~= seq!["/FI"@, "PID eq "@ + decimal(pid as nat), "/NH"@]);
        Some(CommandLine { program: String::from_str("tasklist"), args })
    } else {
        None
    }
}

/// Tells whether the process `pid` is running, going by the outcome of
/// the probe command. Never fails: when in doubt, the process is not
/// running.
pub fn is_process_running(platform: Platform, pid: u32, outcome: &CommandOutcome) -> (running: bool)
    ensures
        running == alive(platform, pid, outcome@),
{
    match outcome {
        CommandOutcome::NotRun => false,
        CommandOutcome::Ran { success, output } => {
            if platform.is_unix() {
                *success
            } else if let Platform::Windows = platform {
                let text = chars_of(output.as_str());
                let mut digits: Vec<char> = Vec::new();
                push_decimal(&mut digits, pid);
                assert(Seq::<char>::empty() + decimal(pid as nat) == decimal(pid as nat));
                includes(text.as_slice(), digits.as_slice())
            } else {
                false
            }
        },
    }
}

/// The command that terminates the process `pid`, if the platform has
/// one.
pub fn kill_command(platform: Platform, pid: u32) -> (command: Option<CommandLine>)
    ensures
        match command {
            Some(c) => kill_command_of(platform, pid) == Some(c@),
            None => kill_command_of(platform, pid) is None,
        },
{
    let mut args: Vec<String> = Vec::new();
    assert(texts(args@) =~= Seq::<Seq<char>>::empty());
    if platform.is_unix() {
        push_arg(&mut args, pid_text(pid));
        assert(texts(args@) =~= seq![decimal(pid as nat)]);
        Some(CommandLine { program: String::from_str("kill"), args })
    } else if let Platform::Windows = platform {
        push_arg(&mut args, String::from_str("/F"));
        push_arg(&mut args, String::from_str("/PID"));
        push_arg(&mut args, pid_text(pid));
        assert(texts(args@) =~= seq!["/F"@, "/PID"@, decimal(pid as nat)]);
        Some(CommandLine { program: String::from_str("taskkill"), args })
    } else {
        None
    }
}

/// Whether the outcome of the termination command leaves it open whether
/// the process is gone: the command ran and reported no success.
pub open spec fn in_doubt(outcome: OutcomeView) -> bool {
    outcome matches OutcomeView::Ran { success, .. } && !success
}

/// Whether a termination counts as done, going by the outcome of the
/// termination command and, where that leaves it open, by whether the
/// process is still alive. A command that reported success has
/// terminated the process. A command that ran without success counts as
/// done only if the process is gone: it was gone already. A command that
/// ran without success while the process lives on was refused.
pub open spec fn terminated(platform: Platform, outcome: OutcomeView, still_alive: bool) -> Result<
    (),
    TerminationError,
> {
    if !platform.unix() && !(platform is Windows) {
        Err(TerminationError::Unsupported)
    } else {
        match outcome {
            OutcomeView::NotRun => Err(TerminationError::NotRun),
            OutcomeView::Ran { success, .. } => if success || !still_alive {
                Ok(())
            } else {
                Err(TerminationError::Refused)
            },
        }
    }
}

/// Tells whether the outcome of the termination command leaves it open
/// whether the process is gone, so that the process is to be probed once
/// more.
pub fn termination_in_doubt(outcome: &CommandOutcome) -> (r: bool)
    ensures
        r == in_doubt(outcome@),
{
    match outcome {
        CommandOutcome::NotRun => false,
        CommandOutcome::Ran { success, .. } => !*success,
    }
}

/// Reads the outcome of the termination command. `still_alive` tells
/// whether the process was found alive after the command; it is looked at
/// only where the command ran without success.
pub fn kill_process(platform: Platform, outcome: &CommandOutcome, still_alive: bool) -> (done:
    Result<(), TerminationError>)
    ensures
        done == terminated(platform, outcome@, still_alive),
{
    let supported = platform.is_unix() || match platform {
        Platform::Windows => true,
        _ => false,
    };
    if !supported {
        Err(TerminationError::Unsupported)
    } else {
        match outcome {
            CommandOutcome::NotRun => Err(TerminationError::NotRun),
            CommandOutcome::Ran { success, .. } => {
                if *success || !still_alive {
                    Ok(())
                } else {
                    Err(TerminationError::Refused)
                }
            },
        }
    }
}

/// A termination counts as done exactly when the command reported
/// success, or ran and left the process gone. A refusal that leaves the
/// process alive is a failure, and so is a command that did not run.
/// Whether the process lives matters only where the command ran without
/// success.
pub proof fn law_termination(platform: Platform, outcome: OutcomeView, still_alive: bool)
    requires
        platform.unix() || platform is Windows,
    ensures
        terminated(platform, outcome, still_alive) is Ok <==> match outcome {
            OutcomeView::NotRun => false,
            OutcomeView::Ran { success, .. } => success || !still_alive,
        },
        in_doubt(outcome) && still_alive ==> terminated(platform, outcome, still_alive) == Err::<
            (),
            TerminationError,
        >(TerminationError::Refused),
        !in_doubt(outcome) ==> terminated(platform, outcome, still_alive) == terminated(
            platform,
            outcome,
            !still_alive,
        ),
{
}

/// The command that opens `url` in the default browser, if the platform
/// has one. Opening the browser is best effort: the caller runs the
/// command and forgets it.
pub fn open_browser(platform: Platform, url: &str) -> (command: Option<CommandLine>)
    ensures
        match command {
            Some(c) => browser_command_of(platform, url@) == Some(c@),
            None => browser_command_of(platform, url@) is None,
        },
{
    let mut args: Vec<String> = Vec::new();
    assert(texts(args@) =~= Seq::<Seq<char>>::empty());
    match platform {
        Platform::Windows => {
            push_arg(&mut args, String::from_str("/C"));
            push_arg(&mut args, String::from_str("start"));
            push_arg(&mut args, String::from_str(url));
            assert(texts(args@) =~= seq!["/C"@, "start"@, url@]);
            Some(CommandLine { program: String::from_str("cmd"), args })
        },
        Platform::MacOs => {
            push_arg(&mut args, String::from_str(url));
            assert(texts(args@) =~= seq![url@]);
            Some(CommandLine { program: String::from_str("open"), args })
        },
        Platform::Linux => {
            push_arg(&mut args, String::from_str(url));
            assert(texts(args@) =~= seq![url@]);
            Some(CommandLine { program: String::from_str("xdg-open"), args })
        },
        _ => None,
    }
}

/// The command that launches `executable` again as the detached server for
/// the watched path `input_path`, if the platform has one.
pub fn launch_command(platform: Platform, executable: &str, input_path: &str) -> (command: Option<
    CommandLine,
>)
    ensures
        match command {
            Some(c) => launch_command_of(platform, executable@, input_path@) == Some(c@),
            None => launch_command_of(platform, executable@, input_path@) is None,
        },
{
    let mut args: Vec<String> = Vec::new();
    assert(texts(args@) =~= Seq::<Seq<char>>::empty());
    if platform.is_unix() {
        push_arg(&mut args, String::from_str("-c"));
        push_arg(&mut args, String::from_str(LAUNCH_LINE));
        push_arg(&mut args, String::from_str(executable));
        push_arg(&mut args, String::from_str(input_path));
        assert(texts(args@) =~= seq!["-c"@, LAUNCH_LINE@, executable@, input_path@]);
        Some(CommandLine { program: String::from_str("bash"), args })
    } else if let Platform::Windows = platform {
        push_arg(&mut args, String::from_str("/C"));
        push_arg(&mut args, String::from_str("start"));
        push_arg(&mut args, String::from_str("/B"));
        push_arg(&mut args, String::from_str(executable));
        push_arg(&mut args, String::from_str(SERVER_FLAG));
        push_arg(&mut args, String::from_str(input_path));
        assert(texts(args@) =~= seq![
            "/C"@,
            "start"@,
            "/B"@,
            executable@,
            SERVER_FLAG@,
            input_path@,
        ]);
        Some(CommandLine { program: String::from_str("cmd"), args })
    } else {
        None
    }
}

/// Wherever a launch command exists, the watched path is its last
/// argument, as it was given. On Unix the executable is the argument
/// before it, and what stands before the two is the same for every
/// executable and every path: no character of them is read by the shell.
pub proof fn law_launch_passes_path_unchanged(
    platform: Platform,
    executable: Seq<char>,
    input_path: Seq<char>,
    other_executable: Seq<char>,
    other_path: Seq<char>,
)
    ensures
        match launch_command_of(platform, executable, input_path) {
            Some(command) => {
                &&& command.args.len() >= 2
                &&& command.args.last() == input_path
                &&& platform.unix() ==> command.args[command.args.len() - 2] == executable
                &&& platform.unix() ==> match launch_command_of(
                    platform,
                    other_executable,
                    other_path,
                ) {
                    Some(other) => other.program == command.program && other.args.take(2)
                        == command.args.take(2),
                    None => false,
                }
            },
            None => launch_command_of(platform, other_executable, other_path) is None,
        },
{
    if platform.unix() {
        let command = launch_command_of(platform, executable, input_path).unwrap();
        let other = launch_command_of(platform, other_executable, other_path).unwrap();
        assert(other.args.take(2) =~= command.args.take(2));
    }
}

/// Reads the id of the launched process out of what the launch command
/// printed: a numeral up to `u32::MAX`, with white space around it passed
/// over.
pub fn spawned_pid(output: &str) -> (pid: Option<u32>)
    ensures
        match parse(trim(output@), u32::MAX as nat) {
            Some(n) => pid == Some(n as u32),
            None => pid is None,
        },
{
    let chars = chars_of(output);
    let (from, to) = trim_bounds(chars.as_slice());
    parse_u32(chars.as_slice(), from, to)
}

} // verus!
