//! What the chat front end decides between two calls to the messenger: who
//! may give which command, whose messages are learned, and when it is time
//! to prune.

use vstd::prelude::*;
use vstd::string::StringExecFns;

verus! {

/// The commands that touch a conversation's model.
#[derive(Clone, Copy, Debug, PartialEq, Eq, Structural)]
pub enum Command {
    /// Ask for a phrase.
    Speak,
    /// Switch learning on or off.
    ToggleLearning,
    /// Delete everything learned.
    ClearData,
}

/// The standing of a member in a group chat.
#[derive(Clone, Copy, Debug, PartialEq, Eq, Structural)]
pub struct Membership {
    pub is_administrator: bool,
    pub is_creator: bool,
}

/// The reply to one who may not toggle learning.
pub open spec fn admins_only() -> Seq<char> {
    "[only the chat owner and admins can do that]"@
}

/// The reply to one who may not clear the data.
pub open spec fn owner_only() -> Seq<char> {
    "[only the chat owner can do that]"@
}

/// Whether the messenger has to be asked for the sender's standing before a
/// command is decided on: in a private chat it does not matter, and a
/// message without a sender has none.
pub fn needs_membership(private_chat: bool, has_sender: bool) -> (ask: bool)
    ensures
        ask == (!private_chat && has_sender),
{
    !private_chat && has_sender
}

/// Whether one of the given standing may give `command`. Anyone may ask for
/// a phrase. In a private chat, and where the message has no sender, all is
/// allowed; in a group only an administrator or the creator may toggle
/// learning, and only the creator may clear the data.
pub open spec fn allowed(command: Command, private_chat: bool, standing: Option<Membership>) -> bool {
    if private_chat {
        true
    } else {
        match standing {
            None => true,
            Some(member) => match command {
                Command::Speak => true,
                Command::ToggleLearning => member.is_administrator || member.is_creator,
                Command::ClearData => member.is_creator,
            },
        }
    }
}

/// Decides whether `command` may be carried out.
pub fn is_allowed(command: Command, private_chat: bool, standing: Option<Membership>) -> (ok: bool)
    ensures
        ok == allowed(command, private_chat, standing),
{
    if private_chat {
        true
    } else {
        match standing {
            None => true,
            Some(member) => match command {
                Command::Speak => true,
                Command::ToggleLearning => member.is_administrator || member.is_creator,
                Command::ClearData => member.is_creator,
            },
        }
    }
}

/// The reply to one who gave `command` and may not; a request for a phrase
/// is never refused.
pub fn refusal(command: Command) -> (reply: Option<String>)
    ensures
        match command {
            Command::Speak => reply is None,
            Command::ToggleLearning => reply matches Some(text) && text@ == admins_only(),
            Command::ClearData => reply matches Some(text) && text@ == owner_only(),
        },
{
    match command {
        Command::Speak => None,
        Command::ToggleLearning => Some(
            String::from_str("[only the chat owner and admins can do that]"),
        ),
        Command::ClearData => Some(String::from_str("[only the chat owner can do that]")),
    }
}

/// Whether a message is offered to the model: only one whose sender is
/// known and has a user name.
pub fn should_learn(has_sender: bool, has_username: bool) -> (learn: bool)
    ensures
        learn == (has_sender && has_username),
{
    has_sender && has_username
}

/// Whether it is time to prune: when more than `interval` ticks have passed
/// since the last time.
pub fn prune_due(last_pruned: u64, now: u64, interval: u64) -> (due: bool)
    ensures
        due == (now - last_pruned > interval),
{
    now > last_pruned && now - last_pruned > interval
}

/// The creator of a group may give every command, and whoever may clear the
/// data may also toggle learning.
pub proof fn lemma_standing_is_ordered(private_chat: bool, standing: Option<Membership>)
    ensures
        allowed(Command::Speak, private_chat, standing),
        allowed(Command::ClearData, private_chat, standing) ==> allowed(
            Command::ToggleLearning,
            private_chat,
            standing,
        ),
        standing matches Some(member) && member.is_creator ==> allowed(
            Command::ClearData,
            private_chat,
            standing,
        ),
{
}

} // verus!
