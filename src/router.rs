//! The command router: what to do with a message, given whether its chat is
//! registered and whether it comes from a group. An unregistered chat may
//! only read the help and register; a registered one may subscribe, list,
//! unsubscribe and delete its account. A message that is no command the
//! chat's state accepts gets the help (registered) or, by default, the prompt to
//! register (unregistered) in a one-to-one chat, and nothing in a group.

use vstd::prelude::*;
use crate::command::{command_of, parse_command, Command, CommandView};

verus! {

/// What the caller does with a message.
#[derive(Debug)]
pub enum Action {
    /// Reply with the commands of the chat's state.
    ShowHelp { registered: bool },
    /// Register the chat.
    Register,
    /// Subscribe the chat to the feed at this address.
    Subscribe(String),
    /// List the chat's feeds.
    List,
    /// Remove the chat's feed with this id.
    Unsubscribe(i64),
    /// Remove the chat and its feeds.
    DeleteAccount,
    /// Reply with the prompt to register.
    PromptRegister,
    /// Do nothing.
    Ignore,
}

pub enum ActionView {
    ShowHelp { registered: bool },
    Register,
    Subscribe(Seq<char>),
    List,
    Unsubscribe(i64),
    DeleteAccount,
    PromptRegister,
    Ignore,
}

impl View for Action {
    type V = ActionView;

    open spec fn view(&self) -> ActionView {
        match self {
            Action::ShowHelp { registered } => ActionView::ShowHelp { registered: *registered },
            Action::Register => ActionView::Register,
            Action::Subscribe(url) => ActionView::Subscribe(url@),
            Action::List => ActionView::List,
            Action::Unsubscribe(id) => ActionView::Unsubscribe(*id),
            Action::DeleteAccount => ActionView::DeleteAccount,
            Action::PromptRegister => ActionView::PromptRegister,
            Action::Ignore => ActionView::Ignore,
        }
    }
}

/// The action for a message holding `cmd` (`None`: no command), where an
/// unregistered one-to-one chat is prompted to register.
pub open spec fn action_of(registered: bool, group: bool, cmd: Option<CommandView>) -> ActionView {
    configured_action_of(registered, group, true, cmd)
}

/// The action for a message holding `cmd`; an unregistered one-to-one chat
/// that sends anything but help or register is prompted to register where
/// `prompt_unregistered`, and ignored where not.
pub open spec fn configured_action_of(
    registered: bool,
    group: bool,
    prompt_unregistered: bool,
    cmd: Option<CommandView>,
) -> ActionView {
    if registered {
        match cmd {
            Some(CommandView::Help) => ActionView::ShowHelp { registered: true },
            Some(CommandView::Subscribe(url)) => ActionView::Subscribe(url),
            Some(CommandView::List) => ActionView::List,
            Some(CommandView::Unsubscribe(id)) => ActionView::Unsubscribe(id),
            Some(CommandView::DeleteAccount) => ActionView::DeleteAccount,
            _ => if group {
                ActionView::Ignore
            } else {
                ActionView::ShowHelp { registered: true }
            },
        }
    } else {
        match cmd {
            Some(CommandView::Help) => ActionView::ShowHelp { registered: false },
            Some(CommandView::Register) => ActionView::Register,
            _ => if group || !prompt_unregistered {
                ActionView::Ignore
            } else {
                ActionView::PromptRegister
            },
        }
    }
}

/// Decides what to do with the message `text` of a chat that is
/// `registered` or not, in a `group` or not; an unregistered one-to-one
/// chat is prompted to register.
pub fn route(registered: bool, group: bool, text: &str) -> (r: Action)
    ensures
        r@ == action_of(registered, group, command_of(text@)),
{
    route_configured(registered, group, true, text)
}

/// As `route`, with the choice whether an unregistered one-to-one chat is
/// prompted to register (`prompt_unregistered`) or ignored.
pub fn route_configured(registered: bool, group: bool, prompt_unregistered: bool, text: &str) -> (r: Action)
    ensures
        r@ == configured_action_of(registered, group, prompt_unregistered, command_of(text@)),
{
    let cmd = parse_command(text);
    let other = if group || (!registered && !prompt_unregistered) {
        Action::Ignore
    } else if registered {
        Action::ShowHelp { registered: true }
    } else {
        Action::PromptRegister
    };
    if registered {
        match cmd {
            Some(Command::Help) => Action::ShowHelp { registered: true },
            Some(Command::Subscribe(url)) => Action::Subscribe(url),
            Some(Command::List) => Action::List,
            Some(Command::Unsubscribe(id)) => Action::Unsubscribe(id),
            Some(Command::DeleteAccount) => Action::DeleteAccount,
            _ => other,
        }
    } else {
        match cmd {
            Some(Command::Help) => Action::ShowHelp { registered: false },
            Some(Command::Register) => Action::Register,
            _ => other,
        }
    }
}

} // verus!
