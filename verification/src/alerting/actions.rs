//! How a fired alert is delivered: through a channel, a webhook or a
//! program, as the rule's action type says.
use crate::text::{chars_eq, chars_of, decimal, decimal_string, lit};
use vstd::prelude::*;

verus! {

/// How long, in seconds, an alert program may run when the rule does not
/// say.
pub const DEFAULT_COMMAND_TIMEOUT_SECS: u64 = 30;

/// The delivery of a rule.
#[derive(Clone, Copy, Debug, PartialEq, Eq, Structural)]
pub enum ActionKind {
    Channel,
    Webhook,
    ExecuteProgram,
}

/// The kind of a delivery channel.
#[derive(Clone, Copy, Debug, PartialEq, Eq, Structural)]
pub enum ChannelKind {
    Slack,
    Telegram,
}

fn same_text(a: &str, b: &str) -> (r: bool)
    ensures
        r == (a@ == b@),
{
    chars_eq(chars_of(a).as_slice(), chars_of(b).as_slice())
}

/// The delivery an action type names.
pub open spec fn action_kind_named(name: Seq<char>) -> Option<ActionKind> {
    if name == "channel"@ {
        Some(ActionKind::Channel)
    } else if name == "webhook"@ {
        Some(ActionKind::Webhook)
    } else if name == "execute_program"@ {
        Some(ActionKind::ExecuteProgram)
    } else {
        None
    }
}

/// The channel kind a name names.
pub open spec fn channel_kind_named(name: Seq<char>) -> Option<ChannelKind> {
    if name == "slack"@ {
        Some(ChannelKind::Slack)
    } else if name == "telegram"@ {
        Some(ChannelKind::Telegram)
    } else {
        None
    }
}

/// The delivery a rule's `action_type` names; any other name is refused.
pub fn action_kind(action_type: &str) -> (r: Result<ActionKind, String>)
    ensures
        match action_kind_named(action_type@) {
            Some(k) => r == Ok::<ActionKind, String>(k),
            None => r matches Err(m) && m@ == "unknown action type: "@ + action_type@,
        },
{
    if same_text(action_type, "channel") {
        Ok(ActionKind::Channel)
    } else if same_text(action_type, "webhook") {
        Ok(ActionKind::Webhook)
    } else if same_text(action_type, "execute_program") {
        Ok(ActionKind::ExecuteProgram)
    } else {
        let mut m = lit("unknown action type: ");
        m.append(action_type);
        Err(m)
    }
}

/// The kind a channel's `kind` names; any other name is refused.
pub fn channel_kind(kind: &str) -> (r: Result<ChannelKind, String>)
    ensures
        match channel_kind_named(kind@) {
            Some(k) => r == Ok::<ChannelKind, String>(k),
            None => r matches Err(m) && m@ == "unknown channel kind: "@ + kind@,
        },
{
    if same_text(kind, "slack") {
        Ok(ChannelKind::Slack)
    } else if same_text(kind, "telegram") {
        Ok(ChannelKind::Telegram)
    } else {
        let mut m = lit("unknown channel kind: ");
        m.append(kind);
        Err(m)
    }
}

/// The Telegram Bot API endpoint that sends a message for a bot.
pub fn telegram_url(bot_token: &str) -> (r: String)
    ensures
        r@ == "https://api.telegram.org/bot"@ + bot_token@ + "/sendMessage"@,
{
    let mut r = lit("https://api.telegram.org/bot");
    r.append(bot_token);
    r.append("/sendMessage");
    r
}

/// How long an alert program may run: the rule's limit, else the default.
pub fn command_timeout_secs(configured: Option<u64>) -> (s: u64)
    ensures
        s == match configured {
            Some(t) => t,
            None => DEFAULT_COMMAND_TIMEOUT_SECS,
        },
{
    match configured {
        Some(t) => t,
        None => DEFAULT_COMMAND_TIMEOUT_SECS,
    }
}

/// The error of a program that ran past its limit.
pub fn timed_out_message(secs: u64) -> (m: String)
    ensures
        m@ == "command timed out after "@ + decimal(secs as nat) + "s"@,
{
    let mut m = lit("command timed out after ");
    m.append(decimal_string(secs).as_str());
    m.append("s");
    m
}

} // verus!
