//! Commands of the system that carry out what no input device can.
use vstd::prelude::*;

use crate::palm::SwipeDirection;

verus! {

/// A program to run, with its arguments.
#[derive(Debug)]
pub struct ShellCommand {
    pub program: String,
    pub args: Vec<String>,
}

/// A program with its arguments, by their characters.
#[verifier::ext_equal]
pub struct CommandLine {
    pub program: Seq<char>,
    pub args: Seq<Seq<char>>,
}

/// Texts, each by its characters.
pub open spec fn texts(strings: Seq<String>) -> Seq<Seq<char>> {
    strings.map_values(|s: String| s@)
}

impl View for ShellCommand {
    type V = CommandLine;

    open spec fn view(&self) -> CommandLine {
        CommandLine { program: self.program@, args: texts(self.args@) }
    }
}

/// A command without arguments.
fn command(program: &str) -> (c: ShellCommand)
    ensures
        c@ == (CommandLine { program: program@, args: Seq::empty() }),
{
    let c = ShellCommand { program: program.to_owned(), args: Vec::new() };
    assert(texts(c.args@) =~= Seq::<Seq<char>>::empty());
    c
}

impl ShellCommand {
    /// Adds an argument.
    fn arg(self, text: &str) -> (c: ShellCommand)
        ensures
            c@ == (CommandLine { program: self@.program, args: self@.args.push(text@) }),
    {
        let mut args = self.args;
        args.push(text.to_owned());
        assert(texts(args@) =~= texts(self.args@).push(text@));
        ShellCommand { program: self.program, args }
    }
}

/// A decimal digit.
pub open spec fn digit(d: int) -> char {
    ('0' as int + d) as char
}

/// A number in decimal.
pub open spec fn decimal(n: nat) -> Seq<char>
    decreases n,
{
    if n < 10 {
        seq![digit(n as int)]
    } else {
        decimal(n / 10).push(digit((n % 10) as int))
    }
}

fn digit_text(d: u32) -> (text: &'static str)
    requires
        d < 10,
    ensures
        text@ == seq![digit(d as int)],
{
    proof {
        reveal_strlit("0");
        reveal_strlit("1");
        reveal_strlit("2");
        reveal_strlit("3");
        reveal_strlit("4");
        reveal_strlit("5");
        reveal_strlit("6");
        reveal_strlit("7");
        reveal_strlit("8");
        reveal_strlit("9");
    }
    let text: &'static str = match d {
        0 => "0",
        1 => "1",
        2 => "2",
        3 => "3",
        4 => "4",
        5 => "5",
        6 => "6",
        7 => "7",
        8 => "8",
        _ => "9",
    };
    assert(text@ =~= seq![digit(d as int)]);
    text
}

/// A number in decimal.
pub fn decimal_text(n: u32) -> (text: String)
    ensures
        text@ == decimal(n as nat),
    decreases n,
{
    if n < 10 {
        return digit_text(n).to_owned();
    }
    let mut text = decimal_text(n / 10);
    text.append(digit_text(n % 10));
    assert(text@ =~= decimal(n as nat / 10).push(digit(n as int % 10)));
    text
}

/// How a volume step is written: a sign, a number and a percent sign.
pub open spec fn volume_argument_of(up: bool, step: u32) -> Seq<char> {
    (if up {
        "+"@
    } else {
        "-"@
    }) + decimal(step as nat) + "%"@
}

/// The command that steps the volume of the default sink.
pub fn adjust_volume(up: bool, step: u32) -> (c: ShellCommand)
    ensures
        c@ == (CommandLine {
            program: "pactl"@,
            args: seq!["set-sink-volume"@, "@DEFAULT_SINK@"@, volume_argument_of(up, step)],
        }),
{
    let sign = if up {
        "+"
    } else {
        "-"
    };
    let mut amount = sign.to_owned();
    amount.append(decimal_text(step).as_str());
    amount.append("%");
    let c = command("pactl").arg("set-sink-volume").arg("@DEFAULT_SINK@").arg(amount.as_str());
    assert(c@.args =~= seq![
        "set-sink-volume"@,
        "@DEFAULT_SINK@"@,
        volume_argument_of(up, step),
    ]);
    c
}

/// A program that may be installed.
#[derive(Clone, Copy, Debug, PartialEq, Eq, Structural)]
pub enum Tool {
    Hyprctl,
    Xdotool,
    Swaymsg,
}

impl Tool {
    /// Name of the program.
    pub open spec fn name(self) -> Seq<char> {
        match self {
            Tool::Hyprctl => "hyprctl"@,
            Tool::Xdotool => "xdotool"@,
            Tool::Swaymsg => "swaymsg"@,
        }
    }

    /// Name of the program.
    pub fn program(self) -> (name: &'static str)
        ensures
            name@ == self.name(),
    {
        match self {
            Tool::Hyprctl => "hyprctl",
            Tool::Xdotool => "xdotool",
            Tool::Swaymsg => "swaymsg",
        }
    }
}

/// Which programs are installed, as far as that is known.
#[derive(Clone, Copy, Debug, PartialEq, Eq, Structural)]
pub struct Probes {
    pub hyprctl: Option<bool>,
    pub xdotool: Option<bool>,
    pub swaymsg: Option<bool>,
}

impl Probes {
    /// What is known of a program.
    pub open spec fn of(self, tool: Tool) -> Option<bool> {
        match tool {
            Tool::Hyprctl => self.hyprctl,
            Tool::Xdotool => self.xdotool,
            Tool::Swaymsg => self.swaymsg,
        }
    }

    /// What is known once this answer has come.
    pub open spec fn with(self, tool: Tool, found: bool) -> Probes {
        match tool {
            Tool::Hyprctl => Probes { hyprctl: Some(found), ..self },
            Tool::Xdotool => Probes { xdotool: Some(found), ..self },
            Tool::Swaymsg => Probes { swaymsg: Some(found), ..self },
        }
    }

    /// Nothing is known.
    pub fn none() -> (probes: Probes)
        ensures
            probes == (Probes { hyprctl: None, xdotool: None, swaymsg: None }),
    {
        Probes { hyprctl: None, xdotool: None, swaymsg: None }
    }

    /// Notes whether a program was found.
    pub fn note(&mut self, tool: Tool, found: bool)
        ensures
            *final(self) == old(self).with(tool, found),
    {
        match tool {
            Tool::Hyprctl => {
                self.hyprctl = Some(found);
            },
            Tool::Xdotool => {
                self.xdotool = Some(found);
            },
            Tool::Swaymsg => {
                self.swaymsg = Some(found);
            },
        }
    }
}

/// A way to switch the workspace.
#[derive(Clone, Copy, Debug, PartialEq, Eq, Structural)]
pub enum Backend {
    /// Hyprland runs: switch among its existing workspaces.
    Hyprland,
    /// Strike the usual keys on the virtual device.
    Device,
    /// Ask Hyprland's tool, though Hyprland did not announce itself.
    Hyprctl,
    /// Ask the X server.
    Xdotool,
    /// Ask sway.
    Sway,
}

/// How the search for a way to switch the workspace goes on.
#[derive(Clone, Copy, Debug, PartialEq, Eq, Structural)]
pub enum BackendStep {
    /// Find out whether this program is installed.
    Ask(Tool),
    /// Switch this way.
    Use(Backend),
    /// There is no way.
    Missing,
}

/// How the search goes on, given whether Hyprland runs, whether there is a virtual
/// device, and what is known of the programs. Nothing is looked up before it
/// matters.
pub open spec fn backend_of(hyprland: bool, device: bool, probes: Probes) -> BackendStep {
    if hyprland && probes.hyprctl is None {
        BackendStep::Ask(Tool::Hyprctl)
    } else if hyprland && probes.hyprctl == Some(true) {
        BackendStep::Use(Backend::Hyprland)
    } else if device {
        BackendStep::Use(Backend::Device)
    } else if probes.hyprctl is None {
        BackendStep::Ask(Tool::Hyprctl)
    } else if probes.hyprctl == Some(true) {
        BackendStep::Use(Backend::Hyprctl)
    } else if probes.xdotool is None {
        BackendStep::Ask(Tool::Xdotool)
    } else if probes.xdotool == Some(true) {
        BackendStep::Use(Backend::Xdotool)
    } else if probes.swaymsg is None {
        BackendStep::Ask(Tool::Swaymsg)
    } else if probes.swaymsg == Some(true) {
        BackendStep::Use(Backend::Sway)
    } else {
        BackendStep::Missing
    }
}

/// Goes on with the search for a way to switch the workspace.
pub fn find_backend(hyprland: bool, device: bool, probes: Probes) -> (step: BackendStep)
    ensures
        step == backend_of(hyprland, device, probes),
{
    if hyprland {
        match probes.hyprctl {
            None => {
                return BackendStep::Ask(Tool::Hyprctl);
            },
            Some(true) => {
                return BackendStep::Use(Backend::Hyprland);
            },
            Some(false) => {},
        }
    }
    if device {
        return BackendStep::Use(Backend::Device);
    }
    match probes.hyprctl {
        None => BackendStep::Ask(Tool::Hyprctl),
        Some(true) => BackendStep::Use(Backend::Hyprctl),
        Some(false) => match probes.xdotool {
            None => BackendStep::Ask(Tool::Xdotool),
            Some(true) => BackendStep::Use(Backend::Xdotool),
            Some(false) => match probes.swaymsg {
                None => BackendStep::Ask(Tool::Swaymsg),
                Some(true) => BackendStep::Use(Backend::Sway),
                Some(false) => BackendStep::Missing,
            },
        },
    }
}

/// The command of a way to switch the workspace: right is the next one, left the
/// previous one. The virtual device needs no command.
pub open spec fn workspace_command_of(backend: Backend, direction: SwipeDirection) -> Option<
    CommandLine,
> {
    let left = direction == SwipeDirection::Left;
    match backend {
        Backend::Hyprland => Some(
            CommandLine {
                program: "hyprctl"@,
                args: seq![
                    "dispatch"@,
                    "workspace"@,
                    if left {
                        "e-1"@
                    } else {
                        "e+1"@
                    },
                ],
            },
        ),
        Backend::Device => None,
        Backend::Hyprctl => Some(
            CommandLine {
                program: "hyprctl"@,
                args: seq![
                    "dispatch"@,
                    "workspace"@,
                    if left {
                        "-1"@
                    } else {
                        "+1"@
                    },
                ],
            },
        ),
        Backend::Xdotool => Some(
            CommandLine {
                program: "xdotool"@,
                args: seq![
                    "set_desktop"@,
                    "--relative"@,
                    if left {
                        "-1"@
                    } else {
                        "+1"@
                    },
                ],
            },
        ),
        Backend::Sway => Some(
            CommandLine {
                program: "swaymsg"@,
                args: seq![
                    "workspace"@,
                    if left {
                        "prev"@
                    } else {
                        "next"@
                    },
                ],
            },
        ),
    }
}

/// The command of a way to switch the workspace.
pub fn switch_workspace(backend: Backend, direction: SwipeDirection) -> (c: Option<ShellCommand>)
    ensures
        match c {
            Some(c) => workspace_command_of(backend, direction) == Some(c@),
            None => workspace_command_of(backend, direction) is None,
        },
{
    let left = match direction {
        SwipeDirection::Left => true,
        SwipeDirection::Right => false,
    };
    let step = if left {
        "-1"
    } else {
        "+1"
    };
    match backend {
        Backend::Hyprland => {
            let existing = if left {
                "e-1"
            } else {
                "e+1"
            };
            let c = command("hyprctl").arg("dispatch").arg("workspace").arg(existing);
            assert(c@.args =~= seq!["dispatch"@, "workspace"@, existing@]);
            Some(c)
        },
        Backend::Device => None,
        Backend::Hyprctl => {
            let c = command("hyprctl").arg("dispatch").arg("workspace").arg(step);
            assert(c@.args =~= seq!["dispatch"@, "workspace"@, step@]);
            Some(c)
        },
        Backend::Xdotool => {
            let c = command("xdotool").arg("set_desktop").arg("--relative").arg(step);
            assert(c@.args =~= seq!["set_desktop"@, "--relative"@, step@]);
            Some(c)
        },
        Backend::Sway => {
            let neighbour = if left {
                "prev"
            } else {
                "next"
            };
            let c = command("swaymsg").arg("workspace").arg(neighbour);
            assert(c@.args =~= seq!["workspace"@, neighbour@]);
            Some(c)
        },
    }
}

/// The commands that power the machine off, in the order in which they are tried.
pub open spec fn poweroff_commands() -> Seq<CommandLine> {
    seq![
        CommandLine { program: "systemctl"@, args: seq!["poweroff"@] },
        CommandLine { program: "shutdown"@, args: seq!["-h"@, "now"@] },
        CommandLine { program: "poweroff"@, args: Seq::empty() },
    ]
}

/// The command to try after this many have failed, if one is left.
pub fn poweroff(failed: usize) -> (c: Option<ShellCommand>)
    ensures
        match c {
            Some(c) => failed < poweroff_commands().len() && c@ == poweroff_commands()[failed as int],
            None => failed >= poweroff_commands().len(),
        },
{
    if failed == 0 {
        let c = command("systemctl").arg("poweroff");
        assert(c@.args =~= seq!["poweroff"@]);
        Some(c)
    } else if failed == 1 {
        let c = command("shutdown").arg("-h").arg("now");
        assert(c@.args =~= seq!["-h"@, "now"@]);
        Some(c)
    } else if failed == 2 {
        Some(command("poweroff"))
    } else {
        None
    }
}

/// The search asks about a program at most once, so it ends, and what it asks
/// about is not known yet.
pub proof fn law_search_ends(hyprland: bool, device: bool, probes: Probes, tool: Tool, found: bool)
    requires
        backend_of(hyprland, device, probes) == BackendStep::Ask(tool),
    ensures
        probes.of(tool) is None,
        backend_of(hyprland, device, probes.with(tool, found)) != BackendStep::Ask(tool),
{
}

/// Running Hyprland comes first, then the virtual device, then the tools of
/// Hyprland, the X server and sway; without any of them there is no way.
pub proof fn law_backend_preference(
    hyprland: bool,
    device: bool,
    hyprctl: bool,
    xdotool: bool,
    swaymsg: bool,
)
    ensures
        backend_of(
            hyprland,
            device,
            Probes {
                hyprctl: Some(hyprctl),
                xdotool: Some(xdotool),
                swaymsg: Some(swaymsg),
            },
        ) == if hyprland && hyprctl {
            BackendStep::Use(Backend::Hyprland)
        } else if device {
            BackendStep::Use(Backend::Device)
        } else if hyprctl {
            BackendStep::Use(Backend::Hyprctl)
        } else if xdotool {
            BackendStep::Use(Backend::Xdotool)
        } else if swaymsg {
            BackendStep::Use(Backend::Sway)
        } else {
            BackendStep::Missing
        },
{
}

/// The number that a decimal digit stands for.
pub open spec fn digit_value(c: char) -> int {
    c as int - 48
}

/// The number that decimal digits stand for.
pub open spec fn decimal_value(text: Seq<char>) -> int
    decreases text.len(),
{
    if text.len() == 0 {
        0
    } else {
        10 * decimal_value(text.drop_last()) + digit_value(text.last())
    }
}

/// A number written in decimal reads back as the number, in digits only and without
/// leading zeros.
pub proof fn law_decimal_reads_back(n: nat)
    ensures
        decimal_value(decimal(n)) == n,
        decimal(n).len() > 0,
        forall|i: int|
            0 <= i < decimal(n).len() ==> 0 <= digit_value(#[trigger] decimal(n)[i]) < 10,
        n > 0 ==> digit_value(decimal(n)[0]) > 0,
        n == 0 ==> decimal(n).len() == 1,
    decreases n,
{
    if n < 10 {
        assert(decimal(n).drop_last() =~= Seq::<char>::empty());
        assert(decimal_value(decimal(n).drop_last()) == 0);
    } else {
        law_decimal_reads_back(n / 10);
        assert(decimal(n).drop_last() == decimal(n / 10));
    }
}

/// A volume step is written with its sign first, then the number, then a percent sign.
pub proof fn law_volume_argument(up: bool, step: u32)
    ensures
        ({
            let text = volume_argument_of(up, step);
            let n = decimal(step as nat).len() as int;
            &&& text.len() == n + 2
            &&& text[0] == if up {
                '+'
            } else {
                '-'
            }
            &&& text.subrange(1, n + 1) == decimal(step as nat)
            &&& text[n + 1] == '%'
        }),
{
    reveal_strlit("+");
    reveal_strlit("-");
    reveal_strlit("%");
    let n = decimal(step as nat).len() as int;
    assert(volume_argument_of(up, step).subrange(1, n + 1) =~= decimal(step as nat));
}

/// Switching left asks for the workspace before, and switching right for the one behind,
/// whatever the way; only the virtual device needs no command.
pub proof fn law_workspace_commands(backend: Backend)
    ensures
        workspace_command_of(backend, SwipeDirection::Left) is None <==> backend is Device,
        workspace_command_of(backend, SwipeDirection::Right) is None <==> backend is Device,
        workspace_command_of(backend, SwipeDirection::Left) matches Some(c) ==> {
            &&& c.args.last() == match backend {
                Backend::Hyprland => "e-1"@,
                Backend::Sway => "prev"@,
                _ => "-1"@,
            }
            &&& workspace_command_of(backend, SwipeDirection::Right) matches Some(d) && d.program
                == c.program && d.args.drop_last() == c.args.drop_last() && d.args.last()
                == match backend {
                Backend::Hyprland => "e+1"@,
                Backend::Sway => "next"@,
                _ => "+1"@,
            }
            &&& c.program == match backend {
                Backend::Xdotool => "xdotool"@,
                Backend::Sway => "swaymsg"@,
                _ => "hyprctl"@,
            }
            &&& c.args.drop_last() == match backend {
                Backend::Xdotool => seq!["set_desktop"@, "--relative"@],
                Backend::Sway => seq!["workspace"@],
                _ => seq!["dispatch"@, "workspace"@],
            }
        },
{
    if let Some(c) = workspace_command_of(backend, SwipeDirection::Left) {
        let d = workspace_command_of(backend, SwipeDirection::Right)->0;
        assert(d.args.drop_last() =~= c.args.drop_last());
        assert(c.args.drop_last() =~= match backend {
            Backend::Xdotool => seq!["set_desktop"@, "--relative"@],
            Backend::Sway => seq!["workspace"@],
            _ => seq!["dispatch"@, "workspace"@],
        });
    }
}

/// What was found out about a program is kept, and what was known of the others too.
pub proof fn law_probes_are_kept(probes: Probes, tool: Tool, other: Tool, found: bool)
    ensures
        probes.with(tool, found).of(tool) == Some(found),
        other != tool ==> probes.with(tool, found).of(other) == probes.of(other),
        probes.of(Tool::Hyprctl) == probes.hyprctl,
        probes.of(Tool::Xdotool) == probes.xdotool,
        probes.of(Tool::Swaymsg) == probes.swaymsg,
        Tool::Hyprctl.name() == "hyprctl"@,
        Tool::Xdotool.name() == "xdotool"@,
        Tool::Swaymsg.name() == "swaymsg"@,
{
}

/// Nothing is looked up before it matters: a program is asked about only where every way
/// before it is known to be closed.
pub proof fn law_nothing_is_looked_up_early(hyprland: bool, device: bool, probes: Probes)
    ensures
        backend_of(hyprland, device, probes) == BackendStep::Ask(Tool::Hyprctl) <==> probes.hyprctl
            is None && (hyprland || !device),
        backend_of(hyprland, device, probes) == BackendStep::Ask(Tool::Xdotool) <==> !device && (
        probes.hyprctl is Some && !probes.hyprctl->0) && probes.xdotool is None,
        backend_of(hyprland, device, probes) == BackendStep::Ask(Tool::Swaymsg) <==> !device && (
        probes.hyprctl is Some && !probes.hyprctl->0) && (probes.xdotool is Some
            && !probes.xdotool->0) && probes.swaymsg is None,
{
}

/// Powering off is tried with the service manager first, then with the two older commands,
/// and no command is tried twice.
pub proof fn law_power_off_is_tried_in_order(i: int, j: int)
    requires
        0 <= i < j < poweroff_commands().len(),
    ensures
        poweroff_commands().len() == 3,
        poweroff_commands()[0].program == "systemctl"@,
        poweroff_commands()[0].args == seq!["poweroff"@],
        poweroff_commands()[1].program == "shutdown"@,
        poweroff_commands()[1].args == seq!["-h"@, "now"@],
        poweroff_commands()[2].program == "poweroff"@,
        poweroff_commands()[2].args.len() == 0,
        poweroff_commands()[i] != poweroff_commands()[j],
{
    reveal_strlit("systemctl");
    reveal_strlit("shutdown");
    reveal_strlit("poweroff");
    assert(poweroff_commands()[0].program[1] == 'y');
    assert(poweroff_commands()[1].program[1] == 'h');
    assert(poweroff_commands()[2].program[1] == 'o');
}

} // verus!
