//! The text of alert notifications (a rule's own template with its
//! placeholders filled in, or the default message) and the deliveries
//! that carry it.
use crate::alerts::incident::{whole_secs_between, elapsed_secs, normal, AlertNotificationKind, Timestamp};
use crate::alerting::actions::telegram_url;
use crate::text::{chars_of, decimal, decimal_string, lemma_skip_ws_bounds, lit, occurs_at, push_char, skip_ws, skip_ws_exec, starts_with_at};
use vstd::prelude::*;

verus! {

/// A value a message template can refer to.
#[derive(Clone, Copy, Debug, PartialEq, Eq, Structural)]
pub enum TemplateField {
    Value,
    Detail,
    NotificationStatus,
    AlertKind,
}

/// The name a template uses for a field.
pub open spec fn field_name(f: TemplateField) -> Seq<char> {
    match f {
        TemplateField::Value => "value"@,
        TemplateField::Detail => "detail"@,
        TemplateField::NotificationStatus => "notification_status"@,
        TemplateField::AlertKind => "alert_kind"@,
    }
}

/// The field whose name occurs in `s` at `a`, if any.
pub open spec fn field_at(s: Seq<char>, a: int) -> Option<TemplateField> {
    if occurs_at(s, "value"@, a) {
        Some(TemplateField::Value)
    } else if occurs_at(s, "detail"@, a) {
        Some(TemplateField::Detail)
    } else if occurs_at(s, "notification_status"@, a) {
        Some(TemplateField::NotificationStatus)
    } else if occurs_at(s, "alert_kind"@, a) {
        Some(TemplateField::AlertKind)
    } else {
        None
    }
}

/// The placeholder that starts in `s` at `k`, with the index just past it:
/// `{{`, any whitespace, a field name, any whitespace, `}}`.
pub open spec fn placeholder_at(s: Seq<char>, k: int) -> Option<(TemplateField, int)> {
    if occurs_at(s, "{{"@, k) {
        let a = skip_ws(s, k + 2);
        match field_at(s, a) {
            Some(f) => {
                let b = skip_ws(s, a + field_name(f).len());
                if occurs_at(s, "}}"@, b) {
                    Some((f, b + 2))
                } else {
                    None
                }
            },
            None => None,
        }
    } else {
        None
    }
}

/// The text a field is replaced with.
pub open spec fn field_text(
    f: TemplateField,
    value: Seq<char>,
    detail: Seq<char>,
    status: Seq<char>,
    kind: Seq<char>,
) -> Seq<char> {
    match f {
        TemplateField::Value => value,
        TemplateField::Detail => detail,
        TemplateField::NotificationStatus => status,
        TemplateField::AlertKind => kind,
    }
}

pub proof fn lemma_placeholder_ends_after(s: Seq<char>, k: int)
    requires
        0 <= k,
        placeholder_at(s, k) is Some,
    ensures
        k + 4 <= placeholder_at(s, k).unwrap().1 <= s.len(),
{
    reveal_strlit("{{");
    reveal_strlit("}}");
    lemma_skip_ws_bounds(s, k + 2);
    let a = skip_ws(s, k + 2);
    let f = field_at(s, a).unwrap();
    lemma_skip_ws_bounds(s, a + field_name(f).len());
}

/// The template from `i` on with every placeholder, scanned from the left
/// and without overlaps, replaced by its field's text.
pub open spec fn render_from(
    s: Seq<char>,
    i: int,
    value: Seq<char>,
    detail: Seq<char>,
    status: Seq<char>,
    kind: Seq<char>,
) -> Seq<char>
    decreases s.len() - i,
{
    if i < 0 || i >= s.len() {
        Seq::empty()
    } else {
        match placeholder_at(s, i) {
            Some((f, e)) => {
                proof {
                    lemma_placeholder_ends_after(s, i);
                }
                field_text(f, value, detail, status, kind) + render_from(
                    s,
                    e,
                    value,
                    detail,
                    status,
                    kind,
                )
            },
            None => seq![s[i]] + render_from(s, i + 1, value, detail, status, kind),
        }
    }
}

proof fn lemma_kept_from(
    s: Seq<char>,
    i: int,
    value: Seq<char>,
    detail: Seq<char>,
    status: Seq<char>,
    kind: Seq<char>,
)
    requires
        0 <= i <= s.len(),
        forall|j: int| !occurs_at(s, "{{"@, j),
    ensures
        render_from(s, i, value, detail, status, kind) == s.skip(i),
    decreases s.len() - i,
{
    if i < s.len() {
        assert(!occurs_at(s, "{{"@, i));
        lemma_kept_from(s, i + 1, value, detail, status, kind);
        assert(seq![s[i]] + s.skip(i + 1) =~= s.skip(i));
    } else {
        assert(s.skip(i) =~= Seq::<char>::empty());
    }
}

/// A template without `{{` anywhere is sent exactly as written, whatever
/// the values.
pub proof fn lemma_template_without_placeholders_kept(
    s: Seq<char>,
    value: Seq<char>,
    detail: Seq<char>,
    status: Seq<char>,
    kind: Seq<char>,
)
    requires
        forall|j: int| !occurs_at(s, "{{"@, j),
    ensures
        render_from(s, 0, value, detail, status, kind) == s,
{
    lemma_kept_from(s, 0, value, detail, status, kind);
    assert(s.skip(0) =~= s);
}

fn occurs_at_exec(v: &[char], k: usize, p: &[char]) -> (b: bool)
    requires
        k <= v@.len(),
    ensures
        b == occurs_at(v@, p@, k as int),
{
    let b = starts_with_at(v, k, p);
    proof {
        let s2 = v@.subrange(k as int, v@.len() as int);
        if k + p@.len() <= v@.len() {
            assert(s2.subrange(0, p@.len() as int) =~= v@.subrange(k as int, k + p@.len()));
        }
    }
    b
}

fn field_at_exec(v: &[char], a: usize) -> (r: Option<(TemplateField, usize)>)
    requires
        a <= v@.len(),
    ensures
        match r {
            Some((f, n)) => field_at(v@, a as int) == Some(f) && n == field_name(f).len(),
            None => field_at(v@, a as int) is None,
        },
{
    let value = chars_of("value");
    if occurs_at_exec(v, a, value.as_slice()) {
        return Some((TemplateField::Value, value.len()));
    }
    let detail = chars_of("detail");
    if occurs_at_exec(v, a, detail.as_slice()) {
        return Some((TemplateField::Detail, detail.len()));
    }
    let status = chars_of("notification_status");
    if occurs_at_exec(v, a, status.as_slice()) {
        return Some((TemplateField::NotificationStatus, status.len()));
    }
    let kind = chars_of("alert_kind");
    if occurs_at_exec(v, a, kind.as_slice()) {
        return Some((TemplateField::AlertKind, kind.len()));
    }
    None
}

fn placeholder_at_exec(v: &[char], k: usize) -> (r: Option<(TemplateField, usize)>)
    requires
        k <= v@.len(),
    ensures
        match r {
            Some((f, e)) => placeholder_at(v@, k as int) == Some((f, e as int)),
            None => placeholder_at(v@, k as int) is None,
        },
{
    let open = chars_of("{{");
    proof {
        reveal_strlit("{{");
        reveal_strlit("}}");
    }
    if !occurs_at_exec(v, k, open.as_slice()) {
        return None;
    }
    let len = v.len();
    proof {
        lemma_skip_ws_bounds(v@, k + 2);
    }
    let a = skip_ws_exec(v, k + 2);
    match field_at_exec(v, a) {
        None => None,
        Some((f, n)) => {
            let b = skip_ws_exec(v, a + n);
            proof {
                lemma_skip_ws_bounds(v@, a + n);
            }
            let close = chars_of("}}");
            if occurs_at_exec(v, b, close.as_slice()) {
                Some((f, b + 2))
            } else {
                None
            }
        },
    }
}

/// Fills a message template: each placeholder `{{ value }}`, `{{ detail }}`,
/// `{{ notification_status }}` or `{{ alert_kind }}` (with any whitespace
/// inside the braces) is replaced by the matching argument; everything else
/// is kept.
pub fn render_template(
    template: &str,
    current_value: &str,
    detail: &str,
    notification_status: &str,
    alert_kind: &str,
) -> (r: String)
    ensures
        r@ == render_from(
            template@,
            0,
            current_value@,
            detail@,
            notification_status@,
            alert_kind@,
        ),
{
    let v = chars_of(template);
    let ghost (s, val, det, st, kd) = (v@, current_value@, detail@, notification_status@, alert_kind@);
    let mut out = String::new();
    let mut i: usize = 0;
    while i < v.len()
        invariant
            i <= v@.len(),
            s == v@,
            val == current_value@,
            det == detail@,
            st == notification_status@,
            kd == alert_kind@,
            out@ + render_from(s, i as int, val, det, st, kd) == render_from(s, 0, val, det, st, kd),
        decreases v@.len() - i,
    {
        match placeholder_at_exec(v.as_slice(), i) {
            Some((f, e)) => {
                proof {
                    lemma_placeholder_ends_after(s, i as int);
                }
                let text = match f {
                    TemplateField::Value => current_value,
                    TemplateField::Detail => detail,
                    TemplateField::NotificationStatus => notification_status,
                    TemplateField::AlertKind => alert_kind,
                };
                let ghost before = out@;
                out.append(text);
                assert(before + render_from(s, i as int, val, det, st, kd) == out@ + render_from(s, e as int, val, det, st, kd));
                i = e;
            },
            None => {
                let ghost before = out@;
                push_char(&mut out, v[i]);
                assert(before + render_from(s, i as int, val, det, st, kd) == out@ + render_from(s, i + 1, val, det, st, kd));
                i = i + 1;
            },
        }
    }
    assert(out@ + render_from(s, i as int, val, det, st, kd) == out@);
    out
}

/// How long an incident has been open, as the default message says it:
/// under a minute, whole minutes under an hour, else whole hours and the
/// minutes past them (when there are any). A negative span counts as none.
pub open spec fn duration_text(secs: int) -> Seq<char> {
    let s = if secs < 0 { 0 } else { secs };
    if s < 60 {
        "less than a minute"@
    } else if s < 3600 {
        decimal((s / 60) as nat) + " min"@
    } else if (s % 3600) / 60 == 0 {
        decimal((s / 3600) as nat) + " hr"@
    } else {
        decimal((s / 3600) as nat) + " hr "@ + decimal(((s % 3600) / 60) as nat) + " min"@
    }
}

/// The time from `opened_at` to `now` in words.
pub fn format_duration(opened_at: Timestamp, now: Timestamp) -> (r: String)
    requires
        normal(opened_at),
        normal(now),
    ensures
        r@ == duration_text(whole_secs_between(opened_at, now)),
{
    let e = elapsed_secs(opened_at, now);
    let s: i128 = if e < 0 { 0 } else { e };
    if s < 60 {
        lit("less than a minute")
    } else if s < 3600 {
        let mut r = decimal_string((s / 60) as u64);
        r.append(" min");
        r
    } else {
        let hours = (s / 3600) as u64;
        let mins = ((s % 3600) / 60) as u64;
        let mut r = decimal_string(hours);
        if mins == 0 {
            r.append(" hr");
        } else {
            r.append(" hr ");
            r.append(decimal_string(mins).as_str());
            r.append(" min");
        }
        r
    }
}

/// The mark a default message starts with.
pub open spec fn emoji(kind: AlertNotificationKind) -> Seq<char> {
    match kind {
        AlertNotificationKind::Resolved => ":white_check_mark:"@,
        _ => ":rotating_light:"@,
    }
}

/// `prefix` and `text` where there is a text, nothing otherwise.
pub open spec fn optional_line(prefix: Seq<char>, text: Option<Seq<char>>) -> Seq<char> {
    match text {
        Some(t) => prefix + t,
        None => Seq::empty(),
    }
}

/// The default message of a notification: the mark of its kind, the rule's
/// name in bold, then quoted lines for the current value, the limit, the
/// detail and how long the incident has been open, each line only where
/// there is something to say.
pub open spec fn default_message(
    kind: AlertNotificationKind,
    name: Seq<char>,
    current: Option<Seq<char>>,
    limit: Option<Seq<char>>,
    detail: Seq<char>,
    duration: Option<Seq<char>>,
) -> Seq<char> {
    emoji(kind) + " *"@ + name + "*"@ + optional_line("\n> Current: "@, current) + optional_line(
        "\n> Limit: "@,
        limit,
    ) + "\n> Detail: "@ + detail + optional_line("\n> Duration: "@, duration)
}

fn append_optional(out: &mut String, prefix: &str, text: &Option<String>)
    ensures
        final(out)@ == old(out)@ + optional_line(
            prefix@,
            match text {
                Some(t) => Some(t@),
                None => None,
            },
        ),
{
    match text {
        Some(t) => {
            out.append(prefix);
            out.append(t.as_str());
        },
        None => {},
    }
}

/// The message sent for a rule without a template of its own. The current
/// value and the limit come already formatted; the duration line appears
/// for incidents that were open before (`opened_at`), measured up to `now`.
pub fn render_default_message(
    kind: AlertNotificationKind,
    rule_name: &str,
    current_value: Option<String>,
    threshold_value: Option<String>,
    detail: &str,
    opened_at: Option<Timestamp>,
    now: Timestamp,
) -> (r: String)
    requires
        normal(now),
        opened_at matches Some(t) ==> normal(t),
    ensures
        r@ == default_message(
            kind,
            rule_name@,
            match current_value {
                Some(t) => Some(t@),
                None => None,
            },
            match threshold_value {
                Some(t) => Some(t@),
                None => None,
            },
            detail@,
            match opened_at {
                Some(t) => Some(duration_text(whole_secs_between(t, now))),
                None => None,
            },
        ),
{
    let mut r = match kind {
        AlertNotificationKind::Resolved => lit(":white_check_mark:"),
        _ => lit(":rotating_light:"),
    };
    r.append(" *");
    r.append(rule_name);
    r.append("*");
    append_optional(&mut r, "\n> Current: ", &current_value);
    append_optional(&mut r, "\n> Limit: ", &threshold_value);
    r.append("\n> Detail: ");
    r.append(detail);
    let duration = match opened_at {
        Some(t) => Some(format_duration(t, now)),
        None => None,
    };
    append_optional(&mut r, "\n> Duration: ", &duration);
    r
}

/// The environment an alert's shell command runs with: the rule's name, its
/// kind, the notification status, the formatted value and the detail.
pub fn shell_command_env(
    rule_name: &str,
    alert_kind: &str,
    status: &str,
    value_text: &str,
    detail: &str,
) -> (env: Vec<(String, String)>)
    ensures
        env@.len() == 5,
        env@[0].0@ == "SLASHA_ALERT_RULE_NAME"@ && env@[0].1@ == rule_name@,
        env@[1].0@ == "SLASHA_ALERT_KIND"@ && env@[1].1@ == alert_kind@,
        env@[2].0@ == "SLASHA_ALERT_STATUS"@ && env@[2].1@ == status@,
        env@[3].0@ == "SLASHA_ALERT_VALUE"@ && env@[3].1@ == value_text@,
        env@[4].0@ == "SLASHA_ALERT_DETAIL"@ && env@[4].1@ == detail@,
{
    let mut env: Vec<(String, String)> = Vec::new();
    env.push((lit("SLASHA_ALERT_RULE_NAME"), lit(rule_name)));
    env.push((lit("SLASHA_ALERT_KIND"), lit(alert_kind)));
    env.push((lit("SLASHA_ALERT_STATUS"), lit(status)));
    env.push((lit("SLASHA_ALERT_VALUE"), lit(value_text)));
    env.push((lit("SLASHA_ALERT_DETAIL"), lit(detail)));
    env
}


/// A delivery channel as configured.
#[derive(Clone, Debug, PartialEq, Eq)]
pub enum ChannelConfig {
    /// A Slack incoming webhook.
    Slack { webhook_url: String },
    /// A Telegram bot and the chat it writes to.
    Telegram { bot_token: String, chat_id: String },
}

/// One delivery of an alert message.
#[derive(Clone, Debug, PartialEq, Eq)]
pub enum Delivery {
    /// POST the JSON object `{"text": message}` to the URL.
    PostText { url: String },
    /// Run the command with `sh -lc`, with the alert's environment.
    RunCommand { command: String },
    /// POST the JSON object `{"chat_id": chat_id, "text": message}` to the URL.
    PostChat { url: String, chat_id: String },
}

/// The mathematical form of a [`Delivery`].
pub enum DeliveryModel {
    PostText(Seq<char>),
    RunCommand(Seq<char>),
    PostChat(Seq<char>, Seq<char>),
}

pub open spec fn delivery_model(d: Delivery) -> DeliveryModel {
    match d {
        Delivery::PostText { url } => DeliveryModel::PostText(url@),
        Delivery::RunCommand { command } => DeliveryModel::RunCommand(command@),
        Delivery::PostChat { url, chat_id } => DeliveryModel::PostChat(url@, chat_id@),
    }
}

/// What a channel's delivery is: a Slack channel posts the text to its
/// webhook, a Telegram channel posts to its bot's `sendMessage` endpoint.
pub open spec fn channel_delivery(c: ChannelConfig) -> DeliveryModel {
    match c {
        ChannelConfig::Slack { webhook_url } => DeliveryModel::PostText(webhook_url@),
        ChannelConfig::Telegram { bot_token, chat_id } => DeliveryModel::PostChat(
            "https://api.telegram.org/bot"@ + bot_token@ + "/sendMessage"@,
            chat_id@,
        ),
    }
}

/// The deliveries of an alert, in the order they are made: the rule's own
/// webhook, then its shell command, then each enabled channel in turn. A
/// failed delivery does not stop the ones after it.
pub open spec fn deliveries(
    direct_webhook_url: Option<Seq<char>>,
    shell_command: Option<Seq<char>>,
    channels: Seq<ChannelConfig>,
) -> Seq<DeliveryModel> {
    (match direct_webhook_url {
        Some(u) => seq![DeliveryModel::PostText(u)],
        None => Seq::empty(),
    }) + (match shell_command {
        Some(c) => seq![DeliveryModel::RunCommand(c)],
        None => Seq::empty(),
    }) + channels.map_values(|c: ChannelConfig| channel_delivery(c))
}

fn channel_delivery_exec(c: &ChannelConfig) -> (d: Delivery)
    ensures
        delivery_model(d) == channel_delivery(*c),
{
    match c {
        ChannelConfig::Slack { webhook_url } => Delivery::PostText { url: webhook_url.clone() },
        ChannelConfig::Telegram { bot_token, chat_id } => Delivery::PostChat {
            url: telegram_url(bot_token.as_str()),
            chat_id: chat_id.clone(),
        },
    }
}

/// The deliveries of an alert: the rule's direct webhook, its shell
/// command, and the enabled channels it names, in that order.
pub fn delivery_plan(
    direct_webhook_url: &Option<String>,
    shell_command: &Option<String>,
    channels: &Vec<ChannelConfig>,
) -> (r: Vec<Delivery>)
    ensures
        r@.map_values(|d: Delivery| delivery_model(d)) == deliveries(
            match direct_webhook_url {
                Some(u) => Some(u@),
                None => None,
            },
            match shell_command {
                Some(c) => Some(c@),
                None => None,
            },
            channels@,
        ),
{
    let mut r: Vec<Delivery> = Vec::new();
    if let Some(u) = direct_webhook_url {
        r.push(Delivery::PostText { url: u.clone() });
    }
    if let Some(c) = shell_command {
        r.push(Delivery::RunCommand { command: c.clone() });
    }
    let ghost head = r@.map_values(|d: Delivery| delivery_model(d));
    let mut i: usize = 0;
    while i < channels.len()
        invariant
            i <= channels.len(),
            r@.map_values(|d: Delivery| delivery_model(d)) == head
                + channels@.take(i as int).map_values(|c: ChannelConfig| channel_delivery(c)),
        decreases channels.len() - i,
    {
        let d = channel_delivery_exec(&channels[i]);
        let ghost before = r@;
        r.push(d);
        proof {
            assert(r@ == before.push(d));
            assert(channels@.take(i + 1) == channels@.take(i as int).push(channels@[i as int]));
            assert(r@.map_values(|d: Delivery| delivery_model(d))
                == before.map_values(|d: Delivery| delivery_model(d)).push(delivery_model(d)));
            assert(channels@.take(i + 1).map_values(|c: ChannelConfig| channel_delivery(c))
                == channels@.take(i as int).map_values(|c: ChannelConfig| channel_delivery(c)).push(channel_delivery(channels@[i as int])));
        }
        i = i + 1;
    }
    proof {
        assert(channels@.take(channels@.len() as int) == channels@);
    }
    r
}

} // verus!
