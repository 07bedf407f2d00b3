//! Alert rules: which events a rule applies to and when it may fire again.
use crate::text::{chars_eq, chars_of, contains_char, find_exec, has_char, lemma_find_from_bounds, lit, replace_from, replace_text, slice_to_vec, split_once, trim, trim_vec};
pub use crate::models::Timestamp;

pub mod actions;
use vstd::prelude::*;

verus! {

/// Whether a rule's target covers an event's target: `any` covers
/// everything, a target covers itself, and a bare scope without `:` covers
/// every target in that scope (`app` covers `app:web`).
pub open spec fn target_matches_spec(rule_target: Seq<char>, event_target: Seq<char>) -> bool {
    ||| rule_target == "any"@
    ||| rule_target == event_target
    ||| (!has_char(rule_target, ':') && match split_once(event_target, ':') {
        Some((scope, _)) => scope == rule_target,
        None => false,
    })
}

/// Whether a rule with target `rule_target` applies to an event about
/// `event_target`.
pub fn target_matches(rule_target: &str, event_target: &str) -> (b: bool)
    ensures
        b == target_matches_spec(rule_target@, event_target@),
{
    let r = chars_of(rule_target);
    let e = chars_of(event_target);
    let any = chars_of("any");
    if chars_eq(r.as_slice(), any.as_slice()) || chars_eq(r.as_slice(), e.as_slice()) {
        return true;
    }
    if !contains_char(r.as_slice(), ':') {
        match find_exec(e.as_slice(), ':', 0) {
            Some(j) => {
                proof {
                    lemma_find_from_bounds(e@, ':', 0);
                }
                let scope = slice_to_vec(e.as_slice(), 0, j);
                return chars_eq(scope.as_slice(), r.as_slice());
            },
            None => {
                return false;
            },
        }
    }
    false
}

/// The time from `a` to `b` in nanoseconds.
pub open spec fn nanos_between(a: Timestamp, b: Timestamp) -> int {
    (b.secs - a.secs) * 1_000_000_000 + (b.nanos - a.nanos)
}

/// Whether a rule that last fired at `last_fired_at` is still cooling down
/// at `now`: less than `cooldown_secs` seconds have passed since. A rule that
/// never fired is not cooling down.
pub fn in_cooldown(last_fired_at: Option<Timestamp>, now: Timestamp, cooldown_secs: i64) -> (b: bool)
    requires
        -(i64::MAX / 1000) <= cooldown_secs <= i64::MAX / 1000,
        now.nanos < 1_000_000_000,
        last_fired_at matches Some(t) ==> t.nanos < 1_000_000_000,
    ensures
        b == match last_fired_at {
            Some(last) => nanos_between(last, now) < cooldown_secs * 1_000_000_000,
            None => false,
        },
{
    match last_fired_at {
        None => false,
        Some(last) => {
            let elapsed: i128 = (now.secs as i128 - last.secs as i128) * 1_000_000_000
                + (now.nanos as i128 - last.nanos as i128);
            elapsed < (cooldown_secs as i128) * 1_000_000_000
        },
    }
}

/// The `message` of a rule's action configuration: the string under the
/// `message` key of the JSON object, when the configuration is such an
/// object and the key holds a string.
pub uninterp spec fn json_message(action_config: Seq<char>) -> Option<Seq<char>>;

/// `serde_json::from_str` of the configuration, then the `message` key as a
/// string: named by `json_message`.
#[verifier::external_body]
fn config_message(action_config: &str) -> (r: Option<String>)
    ensures
        r matches Some(m) ==> json_message(action_config@) == Some(m@),
        r is None ==> json_message(action_config@) is None,
{
    serde_json::from_str::<serde_json::Value>(action_config)
        .ok()
        .and_then(|cfg| cfg.get("message").and_then(|m| m.as_str()).map(str::to_string))
}

/// The template of a rule's message: its own, unless missing or blank, else
/// the default naming the event's title.
pub open spec fn message_template(action_config: Seq<char>, title: Seq<char>) -> Seq<char> {
    match json_message(action_config) {
        Some(m) => if trim(m).len() > 0 {
            m
        } else {
            "\u{1f6a8} "@ + title + " alert on {{target}}: {{detail}}"@
        },
        None => "\u{1f6a8} "@ + title + " alert on {{target}}: {{detail}}"@,
    }
}

/// A rule's message for an event: the template with `{{title}}`,
/// `{{target}}`, `{{event}}`, `{{value}}`, `{{unit}}` and `{{detail}}`
/// replaced, one after the other, by the event's fields (`value_text` is the
/// value already formatted).
pub open spec fn rendered_message(
    template: Seq<char>,
    title: Seq<char>,
    target: Seq<char>,
    event: Seq<char>,
    value_text: Seq<char>,
    unit: Seq<char>,
    detail: Seq<char>,
) -> Seq<char> {
    let t1 = replace_from(template, "{{title}}"@, title, 0);
    let t2 = replace_from(t1, "{{target}}"@, target, 0);
    let t3 = replace_from(t2, "{{event}}"@, event, 0);
    let t4 = replace_from(t3, "{{value}}"@, value_text, 0);
    let t5 = replace_from(t4, "{{unit}}"@, unit, 0);
    replace_from(t5, "{{detail}}"@, detail, 0)
}

/// The message a fired rule sends for an event.
pub fn render_message(
    action_config: &str,
    title: &str,
    target: &str,
    event: &str,
    value_text: &str,
    unit: &str,
    detail: &str,
) -> (m: String)
    ensures
        m@ == rendered_message(
            message_template(action_config@, title@),
            title@,
            target@,
            event@,
            value_text@,
            unit@,
            detail@,
        ),
{
    let custom = match config_message(action_config) {
        Some(m) => {
            let t = trim_vec(chars_of(m.as_str()).as_slice());
            if t.len() > 0 {
                Some(m)
            } else {
                None
            }
        },
        None => None,
    };
    let template = match custom {
        Some(m) => m,
        None => {
            let mut t = lit("\u{1f6a8} ");
            t.append(title);
            t.append(" alert on {{target}}: {{detail}}");
            t
        },
    };
    proof {
        reveal_strlit("{{title}}");
        reveal_strlit("{{target}}");
        reveal_strlit("{{event}}");
        reveal_strlit("{{value}}");
        reveal_strlit("{{unit}}");
        reveal_strlit("{{detail}}");
    }
    let t1 = replace_text(template.as_str(), "{{title}}", title);
    let t2 = replace_text(t1.as_str(), "{{target}}", target);
    let t3 = replace_text(t2.as_str(), "{{event}}", event);
    let t4 = replace_text(t3.as_str(), "{{value}}", value_text);
    let t5 = replace_text(t4.as_str(), "{{unit}}", unit);
    replace_text(t5.as_str(), "{{detail}}", detail)
}

} // verus!
