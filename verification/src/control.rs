//! Commands that show or hide a running bar.

use vstd::prelude::*;

use crate::text::same_text;

verus! {

#[derive(Clone, Copy, Debug, PartialEq, Eq, Structural)]
pub enum VisibilityCommand {
    Hide,
    Show,
    Toggle,
}

/// The command that an argument stands for.
pub open spec fn command_of(argument: Seq<char>) -> Option<VisibilityCommand> {
    if argument == "--hide"@ {
        Some(VisibilityCommand::Hide)
    } else if argument == "--show"@ {
        Some(VisibilityCommand::Show)
    } else if argument == "--toggle"@ {
        Some(VisibilityCommand::Toggle)
    } else {
        None
    }
}

/// The name of the signal that carries a command to the running bar.
pub open spec fn signal_of(command: VisibilityCommand) -> Seq<char> {
    match command {
        VisibilityCommand::Hide => "USR2"@,
        VisibilityCommand::Show => "HUP"@,
        VisibilityCommand::Toggle => "USR1"@,
    }
}

/// What became of a command that was sent.
#[derive(Clone, Copy, Debug, PartialEq, Eq, Structural)]
pub enum Delivery {
    Sent,
    NotRunning,
    Failed,
}

/// Whether the bar is shown after a command.
pub open spec fn shown_after(command: VisibilityCommand, shown: bool) -> bool {
    match command {
        VisibilityCommand::Hide => false,
        VisibilityCommand::Show => true,
        VisibilityCommand::Toggle => !shown,
    }
}

impl VisibilityCommand {
    /// The command that an argument stands for; an argument that is not Unicode is `None`.
    pub fn from_arg(argument: Option<&str>) -> (result: Option<Self>)
        ensures
            result == match argument {
                Some(argument) => command_of(argument@),
                None => None,
            },
    {
        let argument = match argument {
            Some(argument) => argument,
            None => return None,
        };
        if same_text(argument, "--hide") {
            Some(VisibilityCommand::Hide)
        } else if same_text(argument, "--show") {
            Some(VisibilityCommand::Show)
        } else if same_text(argument, "--toggle") {
            Some(VisibilityCommand::Toggle)
        } else {
            None
        }
    }

    /// The signal to send to the running bar.
    pub fn signal(self) -> (result: &'static str)
        ensures
            result@ == signal_of(self),
    {
        match self {
            VisibilityCommand::Hide => "USR2",
            VisibilityCommand::Show => "HUP",
            VisibilityCommand::Toggle => "USR1",
        }
    }

    /// The visibility that the bar has after the command.
    pub fn apply(self, shown: bool) -> (result: bool)
        ensures
            result == shown_after(self, shown),
    {
        match self {
            VisibilityCommand::Hide => false,
            VisibilityCommand::Show => true,
            VisibilityCommand::Toggle => !shown,
        }
    }
}

/// What became of a signal, by the exit of the program that sends it and whether that has
/// written nothing.
pub open spec fn delivery_of(success: bool, code: Option<i32>, quiet: bool) -> Delivery {
    if success {
        Delivery::Sent
    } else if code == Some(1i32) && quiet {
        Delivery::NotRunning
    } else {
        Delivery::Failed
    }
}

/// What the exit of `pkill` says: success, no process of that name, or a failure.
pub fn delivery(success: bool, code: Option<i32>, quiet: bool) -> (result: Delivery)
    ensures
        result == delivery_of(success, code, quiet),
{
    if success {
        return Delivery::Sent;
    }
    match code {
        Some(code) => if code == 1 && quiet {
            Delivery::NotRunning
        } else {
            Delivery::Failed
        },
        None => Delivery::Failed,
    }
}

/// Repeating a request to hide or to show keeps the requested state.
pub proof fn law_hide_and_show_are_idempotent(command: VisibilityCommand, shown: bool)
    requires
        command != VisibilityCommand::Toggle,
    ensures
        shown_after(command, shown_after(command, shown)) == shown_after(command, shown),
{
}

/// Toggling twice restores the state.
pub proof fn law_toggle_undoes_itself(shown: bool)
    ensures
        shown_after(VisibilityCommand::Toggle, shown_after(VisibilityCommand::Toggle, shown))
            == shown,
{
}

/// Different commands travel as different signals.
pub proof fn law_signals_are_distinct(left: VisibilityCommand, right: VisibilityCommand)
    requires
        signal_of(left) == signal_of(right),
    ensures
        left == right,
{
    reveal_strlit("USR1");
    reveal_strlit("USR2");
    reveal_strlit("HUP");
    assert("USR1"@.len() == 4 && "USR2"@.len() == 4 && "HUP"@.len() == 3);
    assert("USR1"@[3] == '1');
    assert("USR2"@[3] == '2');
}

/// Hiding hides, showing shows, and toggling does whichever is not the case; each is asked
/// for by the option of its name.
pub proof fn law_commands_do_what_they_say(shown: bool)
    ensures
        !shown_after(VisibilityCommand::Hide, shown),
        shown_after(VisibilityCommand::Show, shown),
        shown_after(VisibilityCommand::Toggle, shown) != shown,
        command_of("--hide"@) == Some(VisibilityCommand::Hide),
        command_of("--show"@) == Some(VisibilityCommand::Show),
        command_of("--toggle"@) == Some(VisibilityCommand::Toggle),
        forall|argument: Seq<char>|
            argument != "--hide"@ && argument != "--show"@ && argument != "--toggle"@
                ==> #[trigger] command_of(argument) is None,
{
    reveal_strlit("--hide");
    reveal_strlit("--show");
    reveal_strlit("--toggle");
    assert("--hide"@[2] == 'h' && "--show"@[2] == 's' && "--toggle"@[2] == 't');
}

/// A signal was sent if its program succeeded. A bar is not running only if the program says
/// so with its exit code and nothing else.
pub proof fn law_deliveries(code: Option<i32>, quiet: bool)
    ensures
        delivery_of(true, code, quiet) == Delivery::Sent,
        delivery_of(false, code, quiet) != Delivery::Sent,
        delivery_of(false, Some(1), true) == Delivery::NotRunning,
        delivery_of(false, code, false) == Delivery::Failed,
        code != Some(1i32) ==> delivery_of(false, code, quiet) == Delivery::Failed,
{
}

} // verus!
