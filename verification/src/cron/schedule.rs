//! Five-field cron expressions: parsing into per-field value sets, and the
//! matching rule that decides whether a calendar minute is scheduled.
use crate::text::{
    ascii_lowercase, ascii_lowercase_vec, chars_eq, lit, chars_of, decimal, decimal_string, find_exec,
    lemma_find_from_bounds, parse_unsigned, parse_unsigned_exec, slice_to_vec, split_on,
    split_once, split_vec, string_of, trim, trim_bounds, trim_vec, words, words_vec,
};
use crate::models::Timestamp;
use chrono::{Datelike, Offset, TimeZone, Timelike};
use vstd::prelude::*;
use vstd::string::StringExecFns;
use vstd::arithmetic::div_mod::lemma_fundamental_div_mod_converse_mod;

verus! {

/// Which names, besides numbers, a field accepts.
#[derive(Clone, Copy, PartialEq, Eq, Debug)]
pub enum FieldNames {
    NoNames,
    Months,
    Weekdays,
}

/// A parsed schedule: for each field, which values it allows.
#[derive(Clone, Debug)]
pub struct CronSchedule {
    minutes: Vec<bool>,
    hours: Vec<bool>,
    doms: Vec<bool>,
    months: Vec<bool>,
    dows: Vec<bool>,
    dom_restricted: bool,
    dow_restricted: bool,
}

/// The mathematical content of a [`CronSchedule`].
pub struct ScheduleModel {
    pub minutes: Seq<bool>,
    pub hours: Seq<bool>,
    pub doms: Seq<bool>,
    pub months: Seq<bool>,
    pub dows: Seq<bool>,
    pub dom_restricted: bool,
    pub dow_restricted: bool,
}

impl View for CronSchedule {
    type V = ScheduleModel;

    closed spec fn view(&self) -> ScheduleModel {
        ScheduleModel {
            minutes: self.minutes@,
            hours: self.hours@,
            doms: self.doms@,
            months: self.months@,
            dows: self.dows@,
            dom_restricted: self.dom_restricted,
            dow_restricted: self.dow_restricted,
        }
    }
}

impl CronSchedule {
    /// Every field set has one entry per value, up to the field's maximum.
    pub closed spec fn well_formed(&self) -> bool {
        &&& self.minutes@.len() == 60
        &&& self.hours@.len() == 24
        &&& self.doms@.len() == 32
        &&& self.months@.len() == 13
        &&& self.dows@.len() == 7
    }
}

pub open spec fn month_names() -> Seq<(Seq<char>, u32)> {
    seq![
        ("jan"@, 1u32),
        ("feb"@, 2u32),
        ("mar"@, 3u32),
        ("apr"@, 4u32),
        ("may"@, 5u32),
        ("jun"@, 6u32),
        ("jul"@, 7u32),
        ("aug"@, 8u32),
        ("sep"@, 9u32),
        ("oct"@, 10u32),
        ("nov"@, 11u32),
        ("dec"@, 12u32),
    ]
}

pub open spec fn weekday_names() -> Seq<(Seq<char>, u32)> {
    seq![
        ("sun"@, 0u32),
        ("mon"@, 1u32),
        ("tue"@, 2u32),
        ("wed"@, 3u32),
        ("thu"@, 4u32),
        ("fri"@, 5u32),
        ("sat"@, 6u32),
    ]
}

pub open spec fn name_table(names: FieldNames) -> Seq<(Seq<char>, u32)> {
    match names {
        FieldNames::NoNames => Seq::empty(),
        FieldNames::Months => month_names(),
        FieldNames::Weekdays => weekday_names(),
    }
}

/// Every name of the table denotes a value within the field.
pub open spec fn names_fit(names: FieldNames, max: nat) -> bool {
    forall|i: int| 0 <= i < name_table(names).len() ==> #[trigger] name_table(names)[i].1 <= max
}

proof fn lemma_lookup_fits(names: FieldNames, max: nat, s: Seq<char>, i: int)
    requires
        names_fit(names, max),
        0 <= i,
    ensures
        lookup_name(name_table(names), s, i) matches Some(v) ==> v <= max,
    decreases name_table(names).len() - i,
{
    if i < name_table(names).len() && name_table(names)[i].0 != s {
        lemma_lookup_fits(names, max, s, i + 1);
    }
}

/// The value of the first table entry named `s`, searching from `i`.
pub open spec fn lookup_name(t: Seq<(Seq<char>, u32)>, s: Seq<char>, i: int) -> Option<u32>
    decreases t.len() - i,
{
    if i < 0 || i >= t.len() {
        None
    } else if t[i].0 == s {
        Some(t[i].1)
    } else {
        lookup_name(t, s, i + 1)
    }
}

pub open spec fn quoted(s: Seq<char>) -> Seq<char> {
    "'"@ + s + "'"@
}

pub open spec fn out_of_range_msg(v: nat, min: nat, max: nat) -> Seq<char> {
    "value "@ + decimal(v) + " out of range "@ + decimal(min) + "-"@ + decimal(max)
}

pub open spec fn invalid_value_msg(token: Seq<char>) -> Seq<char> {
    "invalid value "@ + quoted(token)
}

pub open spec fn empty_term_msg(whole: Seq<char>) -> Seq<char> {
    "empty term in "@ + quoted(whole)
}

pub open spec fn invalid_step_msg(step: Seq<char>, whole: Seq<char>) -> Seq<char> {
    "invalid step "@ + quoted(step) + " in "@ + quoted(whole)
}

pub open spec fn zero_step_msg(whole: Seq<char>) -> Seq<char> {
    "step cannot be zero in "@ + quoted(whole)
}

pub open spec fn reversed_range_msg(lo: nat, hi: nat, whole: Seq<char>) -> Seq<char> {
    "range start "@ + decimal(lo) + " is after end "@ + decimal(hi) + " in "@ + quoted(whole)
}

pub open spec fn field_count_msg(n: nat) -> Seq<char> {
    "expected 5 fields (minute hour day-of-month month day-of-week), got "@ + decimal(n)
}

/// One value of a field: a number within `min..=max`, or a name from the
/// field's table (compared after ASCII lowercasing).
pub open spec fn value_spec(token: Seq<char>, names: FieldNames, min: nat, max: nat) -> Result<
    nat,
    Seq<char>,
> {
    let t = trim(token);
    match parse_unsigned(t, u32::MAX as nat) {
        Some(v) => if v < min || v > max {
            Err(out_of_range_msg(v, min, max))
        } else {
            Ok(v)
        },
        None => match lookup_name(name_table(names), ascii_lowercase(t), 0) {
            Some(v) => Ok(v as nat),
            None => Err(invalid_value_msg(t)),
        },
    }
}

/// Whether every character of `s` is an ASCII letter.
pub open spec fn ascii_letters(s: Seq<char>) -> bool {
    forall|i: int| 0 <= i < s.len() ==> ('a' <= #[trigger] s[i] <= 'z' || 'A' <= s[i] <= 'Z')
}

proof fn lemma_letter_char(c: char)
    requires
        'a' <= c <= 'z' || 'A' <= c <= 'Z',
    ensures
        !crate::text::is_ws(c),
        !crate::text::is_digit(c),
        c != '+',
        'a' <= crate::text::ascii_lower(c) <= 'z',
        crate::text::ascii_lower(crate::text::ascii_lower(c)) == crate::text::ascii_lower(c),
{
    if 'A' <= c <= 'Z' {
        let u = c as u32;
        assert(65 <= u <= 90);
        let b = (u + 32) as u8;
        assert(97 <= b <= 122);
        assert((b as char) as u32 == b as u32);
    }
}

proof fn lemma_letters_trim(s: Seq<char>)
    requires
        s.len() > 0,
        ascii_letters(s),
    ensures
        trim(s) == s,
        parse_unsigned(s, u32::MAX as nat) is None,
{
    lemma_letter_char(s[0]);
    lemma_letter_char(s[s.len() - 1]);
    assert(crate::text::skip_ws(s, 0) == 0);
    assert(crate::text::trim_start(s) == s);
    assert(crate::text::trim_end_at(s, s.len() as int) == s.len());
    assert(crate::text::unsigned_digits(s) == s);
    assert(!crate::text::is_digit(s[0]));
}

/// Names are read without regard to ASCII case: a token of ASCII letters
/// (`MON`, `Mon`, `mon`) is accepted exactly when its lower-case form is,
/// and then stands for the same value.
pub proof fn lemma_names_ignore_case(token: Seq<char>, names: FieldNames, min: nat, max: nat)
    requires
        token.len() > 0,
        ascii_letters(token),
    ensures
        value_spec(token, names, min, max) is Ok <==> value_spec(ascii_lowercase(token), names, min, max) is Ok,
        value_spec(ascii_lowercase(token), names, min, max) is Ok ==> value_spec(token, names, min, max)
            == value_spec(ascii_lowercase(token), names, min, max),
{
    let low = ascii_lowercase(token);
    assert forall|i: int| 0 <= i < low.len() implies ('a' <= #[trigger] low[i] <= 'z' || 'A' <= low[i] <= 'Z') by {
        lemma_letter_char(token[i]);
    }
    assert forall|i: int| 0 <= i < low.len() implies #[trigger] ascii_lowercase(low)[i] == low[i] by {
        lemma_letter_char(token[i]);
    }
    assert(ascii_lowercase(low) == low);
    lemma_letters_trim(token);
    lemma_letters_trim(low);
}

/// The step of a term: the text after `/`, or 1.
pub open spec fn step_spec(term: Seq<char>, whole: Seq<char>) -> Result<nat, Seq<char>> {
    match split_once(term, '/') {
        Some((_r, st)) => match parse_unsigned(st, u32::MAX as nat) {
            None => Err(invalid_step_msg(st, whole)),
            Some(s) => if s == 0 {
                Err(zero_step_msg(whole))
            } else {
                Ok(s)
            },
        },
        None => Ok(1),
    }
}

/// The range part of a term: the text before `/`, or the whole term.
pub open spec fn range_part(term: Seq<char>) -> Seq<char> {
    match split_once(term, '/') {
        Some((r, _st)) => r,
        None => term,
    }
}

/// The bounds a range part denotes: `*` is the whole field, `a-b` is
/// `a..=b`, and a single value `v` is `v..=v` without a step and `v..=max`
/// with one.
pub open spec fn bounds_spec(r: Seq<char>, step: nat, names: FieldNames, min: nat, max: nat) -> Result<
    (nat, nat),
    Seq<char>,
> {
    if r == "*"@ {
        Ok((min, max))
    } else {
        match split_once(r, '-') {
            Some((a, b)) => match value_spec(a, names, min, max) {
                Err(e) => Err(e),
                Ok(x) => match value_spec(b, names, min, max) {
                    Err(e) => Err(e),
                    Ok(y) => Ok((x, y)),
                },
            },
            None => match value_spec(r, names, min, max) {
                Err(e) => Err(e),
                Ok(v) => if step == 1 {
                    Ok((v, v))
                } else {
                    Ok((v, max))
                },
            },
        }
    }
}

/// One comma-separated term as `(first, last, step)`.
pub open spec fn term_spec(raw: Seq<char>, whole: Seq<char>, names: FieldNames, min: nat, max: nat) -> Result<
    (nat, nat, nat),
    Seq<char>,
> {
    let term = trim(raw);
    if term.len() == 0 {
        Err(empty_term_msg(whole))
    } else {
        match step_spec(term, whole) {
            Err(e) => Err(e),
            Ok(step) => match bounds_spec(range_part(term), step, names, min, max) {
                Err(e) => Err(e),
                Ok((lo, hi)) => if lo > hi {
                    Err(reversed_range_msg(lo, hi, whole))
                } else {
                    Ok((lo, hi, step))
                },
            },
        }
    }
}

/// The first `n` terms, or the first error among them.
pub open spec fn terms_upto(
    ts: Seq<Seq<char>>,
    n: int,
    whole: Seq<char>,
    names: FieldNames,
    min: nat,
    max: nat,
) -> Result<Seq<(nat, nat, nat)>, Seq<char>>
    decreases n,
{
    if n <= 0 {
        Ok(Seq::empty())
    } else {
        match terms_upto(ts, n - 1, whole, names, min, max) {
            Err(e) => Err(e),
            Ok(acc) => match term_spec(ts[n - 1], whole, names, min, max) {
                Err(e) => Err(e),
                Ok(r) => Ok(acc.push(r)),
            },
        }
    }
}

/// Whether `v` is one of `lo, lo + step, ...` up to `hi`.
pub open spec fn covers(r: (nat, nat, nat), v: int) -> bool {
    r.0 <= v <= r.1 && (v - r.0) % (r.2 as int) == 0
}

pub open spec fn covered(rs: Seq<(nat, nat, nat)>, v: int) -> bool {
    exists|k: int| 0 <= k < rs.len() && covers(#[trigger] rs[k], v)
}

/// A whole field: for each value `0..=max`, whether some term allows it.
pub open spec fn field_spec(spec: Seq<char>, names: FieldNames, min: nat, max: nat) -> Result<
    Seq<bool>,
    Seq<char>,
> {
    let ts = split_on(spec, ',');
    match terms_upto(ts, ts.len() as int, spec, names, min, max) {
        Err(e) => Err(e),
        Ok(rs) => Ok(Seq::new(max + 1, |v: int| covered(rs, v))),
    }
}

/// Day-of-week 7 is Sunday, like 0.
pub open spec fn fold_weekdays(raw: Seq<bool>) -> Seq<bool> {
    Seq::new(7, |i: int| raw[i] || (i == 0 && raw[7]))
}

/// The schedule an expression denotes.
pub open spec fn schedule_spec(expr: Seq<char>) -> Result<ScheduleModel, Seq<char>> {
    let fs = words(expr);
    if fs.len() != 5 {
        Err(field_count_msg(fs.len()))
    } else {
        match field_spec(fs[0], FieldNames::NoNames, 0, 59) {
            Err(e) => Err(e),
            Ok(minutes) => match field_spec(fs[1], FieldNames::NoNames, 0, 23) {
                Err(e) => Err(e),
                Ok(hours) => match field_spec(fs[2], FieldNames::NoNames, 1, 31) {
                    Err(e) => Err(e),
                    Ok(doms) => match field_spec(fs[3], FieldNames::Months, 1, 12) {
                        Err(e) => Err(e),
                        Ok(months) => match field_spec(fs[4], FieldNames::Weekdays, 0, 7) {
                            Err(e) => Err(e),
                            Ok(raw) => Ok(
                                ScheduleModel {
                                    minutes,
                                    hours,
                                    doms,
                                    months,
                                    dows: fold_weekdays(raw),
                                    dom_restricted: fs[2] != "*"@,
                                    dow_restricted: fs[4] != "*"@,
                                },
                            ),
                        },
                    },
                },
            },
        }
    }
}

/// Whether a local calendar minute is scheduled. Day-of-month and day-of-week
/// combine as in Vixie cron: when both are restricted, either may match.
pub open spec fn matches_spec(
    m: ScheduleModel,
    minute: int,
    hour: int,
    day: int,
    month: int,
    weekday: int,
) -> bool {
    let dom_ok = m.doms[day];
    let dow_ok = m.dows[weekday];
    &&& m.minutes[minute]
    &&& m.hours[hour]
    &&& m.months[month]
    &&& if m.dom_restricted && m.dow_restricted {
        dom_ok || dow_ok
    } else if m.dom_restricted {
        dom_ok
    } else if m.dow_restricted {
        dow_ok
    } else {
        true
    }
}

fn quoted_string(v: &[char]) -> (r: String)
    ensures
        r@ == quoted(v@),
{
    let mut r = lit("'");
    let inner = string_of(v);
    r.append(inner.as_str());
    r.append("'");
    r
}

fn table_exec(names: FieldNames) -> (t: Vec<(Vec<char>, u32)>)
    ensures
        t@.len() == name_table(names).len(),
        forall|i: int|
            0 <= i < t@.len() ==> (#[trigger] t@[i]).0@ == name_table(names)[i].0 && t@[i].1
                == name_table(names)[i].1,
{
    let mut t: Vec<(Vec<char>, u32)> = Vec::new();
    match names {
        FieldNames::NoNames => {},
        FieldNames::Months => {
            t.push((chars_of("jan"), 1));
            t.push((chars_of("feb"), 2));
            t.push((chars_of("mar"), 3));
            t.push((chars_of("apr"), 4));
            t.push((chars_of("may"), 5));
            t.push((chars_of("jun"), 6));
            t.push((chars_of("jul"), 7));
            t.push((chars_of("aug"), 8));
            t.push((chars_of("sep"), 9));
            t.push((chars_of("oct"), 10));
            t.push((chars_of("nov"), 11));
            t.push((chars_of("dec"), 12));
        },
        FieldNames::Weekdays => {
            t.push((chars_of("sun"), 0));
            t.push((chars_of("mon"), 1));
            t.push((chars_of("tue"), 2));
            t.push((chars_of("wed"), 3));
            t.push((chars_of("thu"), 4));
            t.push((chars_of("fri"), 5));
            t.push((chars_of("sat"), 6));
        },
    }
    t
}

fn lookup_exec(names: FieldNames, s: &[char]) -> (r: Option<u32>)
    ensures
        r == lookup_name(name_table(names), s@, 0),
{
    let t = table_exec(names);
    let mut i: usize = 0;
    while i < t.len()
        invariant
            i <= t@.len(),
            t@.len() == name_table(names).len(),
            forall|k: int|
                0 <= k < t@.len() ==> (#[trigger] t@[k]).0@ == name_table(names)[k].0 && t@[k].1
                    == name_table(names)[k].1,
            lookup_name(name_table(names), s@, 0) == lookup_name(name_table(names), s@, i as int),
        decreases t@.len() - i,
    {
        if chars_eq(t[i].0.as_slice(), s) {
            return Some(t[i].1);
        }
        i = i + 1;
    }
    None
}

/// Parses one value of a field.
pub fn parse_value(token: &[char], names: FieldNames, min: u32, max: u32) -> (r: Result<
    u32,
    String,
>)
    ensures
        match r {
            Ok(v) => value_spec(token@, names, min as nat, max as nat) == Ok::<nat, Seq<char>>(
                v as nat,
            ),
            Err(e) => value_spec(token@, names, min as nat, max as nat) == Err::<nat, Seq<char>>(
                e@,
            ),
        },
        names_fit(names, max as nat) ==> (r matches Ok(v) ==> v <= max),
{
    let t = trim_vec(token);
    match parse_unsigned_exec(t.as_slice(), 0xffff_ffff) {
        Some(v) => {
            if v < min as u64 || v > max as u64 {
                let mut msg = lit("value ");
                msg.append(decimal_string(v).as_str());
                msg.append(" out of range ");
                msg.append(decimal_string(min as u64).as_str());
                msg.append("-");
                msg.append(decimal_string(max as u64).as_str());
                return Err(msg);
            }
            Ok(v as u32)
        },
        None => {
            let lower = ascii_lowercase_vec(t.as_slice());
            proof {
                if names_fit(names, max as nat) {
                    lemma_lookup_fits(names, max as nat, lower@, 0);
                }
            }
            match lookup_exec(names, lower.as_slice()) {
                Some(v) => Ok(v),
                None => {
                    let mut msg = lit("invalid value ");
                    msg.append(quoted_string(t.as_slice()).as_str());
                    Err(msg)
                },
            }
        },
    }
}

proof fn lemma_step_window(lo: int, value: int, step: int, j: int, v: int)
    requires
        step > 0,
        j >= 0,
        value == lo + step * j,
        value <= v < value + step,
    ensures
        ((v - lo) % step == 0) == (v == value),
{
    assert(step * j == j * step) by (nonlinear_arith);
    lemma_fundamental_div_mod_converse_mod(v - lo, step, j, v - value);
}

proof fn lemma_terms_err(
    ts: Seq<Seq<char>>,
    i: int,
    whole: Seq<char>,
    names: FieldNames,
    min: nat,
    max: nat,
    rs: Seq<(nat, nat, nat)>,
    e: Seq<char>,
)
    requires
        0 <= i < ts.len(),
        terms_upto(ts, i, whole, names, min, max) == Ok::<Seq<(nat, nat, nat)>, Seq<char>>(rs),
        term_spec(ts[i], whole, names, min, max) == Err::<(nat, nat, nat), Seq<char>>(e),
    ensures
        terms_upto(ts, ts.len() as int, whole, names, min, max) == Err::<
            Seq<(nat, nat, nat)>,
            Seq<char>,
        >(e),
    decreases ts.len() - i,
{
    lemma_terms_err_from(ts, i + 1, ts.len() as int, whole, names, min, max, e);
}

proof fn lemma_terms_err_from(
    ts: Seq<Seq<char>>,
    n: int,
    m: int,
    whole: Seq<char>,
    names: FieldNames,
    min: nat,
    max: nat,
    e: Seq<char>,
)
    requires
        1 <= n <= m,
        terms_upto(ts, n, whole, names, min, max) == Err::<Seq<(nat, nat, nat)>, Seq<char>>(e),
    ensures
        terms_upto(ts, m, whole, names, min, max) == Err::<Seq<(nat, nat, nat)>, Seq<char>>(e),
    decreases m - n,
{
    if n < m {
        lemma_terms_err_from(ts, n, m - 1, whole, names, min, max, e);
    }
}

/// Reads one comma-separated term as `(first, last, step)`.
fn parse_term(raw: &[char], spec: &[char], names: FieldNames, min: u32, max: u32) -> (r: Result<
    (u32, u32, u32),
    String,
>)
    requires
        min <= max <= 59,
        names_fit(names, max as nat),
    ensures
        match r {
            Ok(t) => term_spec(raw@, spec@, names, min as nat, max as nat) == Ok::<
                (nat, nat, nat),
                Seq<char>,
            >((t.0 as nat, t.1 as nat, t.2 as nat)) && t.2 >= 1 && t.0 <= t.1 <= max,
            Err(e) => term_spec(raw@, spec@, names, min as nat, max as nat) == Err::<
                (nat, nat, nat),
                Seq<char>,
            >(e@),
        },
{
    let (a, b) = trim_bounds(raw, 0, raw.len());
    assert(raw@.subrange(0, raw@.len() as int) == raw@);
    let term = slice_to_vec(raw, a, b);
    let ghost tm = term@;
    assert(tm == trim(raw@));
    if term.len() == 0 {
        let mut msg = lit("empty term in ");
        msg.append(quoted_string(spec).as_str());
        return Err(msg);
    }
    let slash = find_exec(term.as_slice(), '/', 0);
    let mut range_end = term.len();
    let mut step: u32 = 1;
    match slash {
        Some(j) => {
            proof {
                lemma_find_from_bounds(tm, '/', 0);
            }
            let st = slice_to_vec(term.as_slice(), j + 1, term.len());
            match parse_unsigned_exec(st.as_slice(), 0xffff_ffff) {
                None => {
                    let mut msg = lit("invalid step ");
                    msg.append(quoted_string(st.as_slice()).as_str());
                    msg.append(" in ");
                    msg.append(quoted_string(spec).as_str());
                    return Err(msg);
                },
                Some(s) => {
                    if s == 0 {
                        let mut msg = lit("step cannot be zero in ");
                        msg.append(quoted_string(spec).as_str());
                        return Err(msg);
                    }
                    step = s as u32;
                },
            }
            range_end = j;
        },
        None => {},
    }
    assert(step_spec(tm, spec@) == Ok::<nat, Seq<char>>(step as nat));
    let rp = slice_to_vec(term.as_slice(), 0, range_end);
    assert(rp@ == range_part(tm));
    let star = chars_of("*");
    let lo: u32;
    let hi: u32;
    if chars_eq(rp.as_slice(), star.as_slice()) {
        lo = min;
        hi = max;
    } else {
        match find_exec(rp.as_slice(), '-', 0) {
            Some(d) => {
                proof {
                    lemma_find_from_bounds(rp@, '-', 0);
                }
                let av = slice_to_vec(rp.as_slice(), 0, d);
                let bv = slice_to_vec(rp.as_slice(), d + 1, rp.len());
                match parse_value(av.as_slice(), names, min, max) {
                    Err(e) => return Err(e),
                    Ok(x) => {
                        lo = x;
                    },
                }
                match parse_value(bv.as_slice(), names, min, max) {
                    Err(e) => return Err(e),
                    Ok(y) => {
                        hi = y;
                    },
                }
            },
            None => {
                match parse_value(rp.as_slice(), names, min, max) {
                    Err(e) => return Err(e),
                    Ok(v) => {
                        lo = v;
                        hi = if step == 1 {
                            v
                        } else {
                            max
                        };
                    },
                }
            },
        }
    }
    assert(bounds_spec(range_part(tm), step as nat, names, min as nat, max as nat) == Ok::<
        (nat, nat),
        Seq<char>,
    >((lo as nat, hi as nat)));
    if lo > hi {
        let mut msg = lit("range start ");
        msg.append(decimal_string(lo as u64).as_str());
        msg.append(" is after end ");
        msg.append(decimal_string(hi as u64).as_str());
        msg.append(" in ");
        msg.append(quoted_string(spec).as_str());
        return Err(msg);
    }
    Ok((lo, hi, step))
}

/// Sets `lo, lo + step, ...` up to `hi` in `set`.
fn mark_range(set: &mut Vec<bool>, lo: u32, hi: u32, step: u32, Ghost(rs): Ghost<Seq<(nat, nat, nat)>>)
    requires
        lo <= hi < old(set)@.len(),
        step >= 1,
        old(set)@.len() <= 60,
        forall|v: int| 0 <= v < old(set)@.len() ==> #[trigger] old(set)@[v] == covered(rs, v),
    ensures
        final(set)@.len() == old(set)@.len(),
        forall|v: int|
            0 <= v < final(set)@.len() ==> #[trigger] final(set)@[v] == covered(
                rs.push((lo as nat, hi as nat, step as nat)),
                v,
            ),
{
    let ghost r = (lo as nat, hi as nat, step as nat);
    let ghost n = set@.len();
    let mut value: u64 = lo as u64;
    let ghost mut j: int = 0;
    while value <= hi as u64
        invariant
            lo <= hi < n,
            n <= 60,
            step >= 1,
            set@.len() == n,
            value == lo + step * j,
            j >= 0,
            r == (lo as nat, hi as nat, step as nat),
            forall|v: int|
                0 <= v < n ==> #[trigger] set@[v] == (covered(rs, v) || (lo <= v < value
                    && covers(r, v))),
        decreases hi as int + step as int + 1 - value,
    {
        proof {
            assert forall|v: int| 0 <= v < n implies ((lo <= v < value + step && covers(r, v))
                == ((lo <= v < value && covers(r, v)) || v == value)) by {
                if value <= v < value + step {
                    lemma_step_window(lo as int, value as int, step as int, j, v);
                }
            }
        }
        set.set(value as usize, true);
        proof {
            assert(lo + step * (j + 1) == lo + step * j + step) by (nonlinear_arith);
        }
        value = value + step as u64;
        proof {
            j = j + 1;
        }
    }
    proof {
        let rs2 = rs.push(r);
        assert forall|v: int| 0 <= v < n implies #[trigger] set@[v] == covered(rs2, v) by {
            if covered(rs, v) {
                let k = choose|k: int| 0 <= k < rs.len() && covers(#[trigger] rs[k], v);
                assert(rs2[k] == rs[k]);
            }
            if covers(r, v) {
                assert(rs2[rs.len() as int] == r);
            }
            if covered(rs2, v) {
                let k = choose|k: int| 0 <= k < rs2.len() && covers(#[trigger] rs2[k], v);
                if k < rs.len() {
                    assert(rs2[k] == rs[k]);
                }
            }
        }
    }
}

/// Expands the comma-separated terms of one field into its value set.
pub fn parse_field(spec: &[char], min: u32, max: u32, names: FieldNames) -> (r: Result<
    Vec<bool>,
    String,
>)
    requires
        min <= max <= 59,
        names_fit(names, max as nat),
    ensures
        match r {
            Ok(set) => field_spec(spec@, names, min as nat, max as nat) == Ok::<
                Seq<bool>,
                Seq<char>,
            >(set@),
            Err(e) => field_spec(spec@, names, min as nat, max as nat) == Err::<
                Seq<bool>,
                Seq<char>,
            >(e@),
        },
{
    let mut set: Vec<bool> = Vec::new();
    let mut k: u32 = 0;
    while k <= max
        invariant
            k <= max + 1,
            max <= 59,
            set@.len() == k,
            forall|i: int| 0 <= i < k ==> !(#[trigger] set@[i]),
        decreases max + 1 - k,
    {
        set.push(false);
        k = k + 1;
    }
    let terms = split_vec(spec, ',');
    let ghost ts = split_on(spec@, ',');
    let ghost mut rs: Seq<(nat, nat, nat)> = Seq::empty();
    let mut i: usize = 0;
    while i < terms.len()
        invariant
            i <= terms@.len(),
            min <= max <= 59,
            names_fit(names, max as nat),
            terms@.map_values(|x: Vec<char>| x@) == ts,
            ts == split_on(spec@, ','),
            set@.len() == max + 1,
            terms_upto(ts, i as int, spec@, names, min as nat, max as nat) == Ok::<
                Seq<(nat, nat, nat)>,
                Seq<char>,
            >(rs),
            forall|v: int| 0 <= v <= max ==> #[trigger] set@[v] == covered(rs, v),
        decreases terms@.len() - i,
    {
        assert(terms@[i as int]@ == ts[i as int]);
        match parse_term(terms[i].as_slice(), spec, names, min, max) {
            Err(e) => {
                proof {
                    lemma_terms_err(ts, i as int, spec@, names, min as nat, max as nat, rs, e@);
                }
                return Err(e);
            },
            Ok((lo, hi, step)) => {
                mark_range(&mut set, lo, hi, step, Ghost(rs));
                proof {
                    rs = rs.push((lo as nat, hi as nat, step as nat));
                }
            },
        }
        i = i + 1;
    }
    proof {
        assert(set@ =~= Seq::new(max as nat + 1, |v: int| covered(rs, v)));
    }
    Ok(set)
}

/// Parses a five-field cron expression.
pub fn parse(expr: &str) -> (r: Result<CronSchedule, String>)
    ensures
        match r {
            Ok(s) => schedule_spec(expr@) == Ok::<ScheduleModel, Seq<char>>(s@) && s.well_formed(),
            Err(e) => schedule_spec(expr@) == Err::<ScheduleModel, Seq<char>>(e@),
        },
{
    let chars = chars_of(expr);
    let fields = words_vec(chars.as_slice());
    let ghost fs = words(expr@);
    assert(fields@.map_values(|x: Vec<char>| x@) == fs);
    if fields.len() != 5 {
        let mut msg = lit("expected 5 fields (minute hour day-of-month month day-of-week), got ");
        msg.append(decimal_string(fields.len() as u64).as_str());
        return Err(msg);
    }
    assert(fields@[0]@ == fs[0]);
    assert(fields@[1]@ == fs[1]);
    assert(fields@[2]@ == fs[2]);
    assert(fields@[3]@ == fs[3]);
    assert(fields@[4]@ == fs[4]);
    let minutes = match parse_field(fields[0].as_slice(), 0, 59, FieldNames::NoNames) {
        Ok(s) => s,
        Err(e) => return Err(e),
    };
    let hours = match parse_field(fields[1].as_slice(), 0, 23, FieldNames::NoNames) {
        Ok(s) => s,
        Err(e) => return Err(e),
    };
    let doms = match parse_field(fields[2].as_slice(), 1, 31, FieldNames::NoNames) {
        Ok(s) => s,
        Err(e) => return Err(e),
    };
    let months = match parse_field(fields[3].as_slice(), 1, 12, FieldNames::Months) {
        Ok(s) => s,
        Err(e) => return Err(e),
    };
    let dows_raw = match parse_field(fields[4].as_slice(), 0, 7, FieldNames::Weekdays) {
        Ok(s) => s,
        Err(e) => return Err(e),
    };
    let mut dows: Vec<bool> = Vec::new();
    let mut d: usize = 0;
    while d < 7
        invariant
            d <= 7,
            dows_raw@.len() == 8,
            dows@.len() == d,
            forall|i: int| 0 <= i < d ==> #[trigger] dows@[i] == (dows_raw@[i] || (i == 0
                && dows_raw@[7])),
        decreases 7 - d,
    {
        dows.push(dows_raw[d] || (d == 0 && dows_raw[7]));
        d = d + 1;
    }
    assert(dows@ =~= fold_weekdays(dows_raw@));
    let star = chars_of("*");
    let dom_restricted = !chars_eq(fields[2].as_slice(), star.as_slice());
    let dow_restricted = !chars_eq(fields[4].as_slice(), star.as_slice());
    let s = CronSchedule { minutes, hours, doms, months, dows, dom_restricted, dow_restricted };
    Ok(s)
}

impl CronSchedule {
    /// Whether a local calendar minute is scheduled: `weekday` counts days
    /// from Sunday (0) and `month` and `day` count from 1.
    pub fn matches(&self, minute: u32, hour: u32, day: u32, month: u32, weekday: u32) -> (b: bool)
        requires
            self.well_formed(),
            minute < 60,
            hour < 24,
            1 <= day <= 31,
            1 <= month <= 12,
            weekday < 7,
        ensures
            b == matches_spec(self@, minute as int, hour as int, day as int, month as int, weekday as int),
    {
        if !self.minutes[minute as usize] {
            return false;
        }
        if !self.hours[hour as usize] {
            return false;
        }
        if !self.months[month as usize] {
            return false;
        }
        let dom_ok = self.doms[day as usize];
        let dow_ok = self.dows[weekday as usize];
        match (self.dom_restricted, self.dow_restricted) {
            (true, true) => dom_ok || dow_ok,
            (true, false) => dom_ok,
            (false, true) => dow_ok,
            (false, false) => true,
        }
    }
}

/// The fields of a wall-clock minute that a schedule looks at.
#[derive(Clone, Copy, Debug, PartialEq, Eq)]
pub struct CivilTime {
    pub minute: u32,
    pub hour: u32,
    pub day: u32,
    pub month: u32,
    /// Days since Sunday.
    pub weekday: u32,
}

/// The canonical name of the IANA time zone `s` names, as chrono-tz reads
/// it; nothing when chrono-tz knows no such zone.
pub uninterp spec fn zone_name(s: Seq<char>) -> Option<Seq<char>>;

/// `str::parse::<chrono_tz::Tz>`, giving the zone's `Tz::name`.
#[verifier::external_body]
fn parse_zone(s: &str) -> (r: Option<String>)
    ensures
        match r {
            Some(n) => zone_name(s@) == Some(n@),
            None => zone_name(s@) is None,
        },
{
    match s.parse::<chrono_tz::Tz>() {
        Ok(tz) => Some(tz.name().to_string()),
        Err(_) => None,
    }
}

/// Checks a time zone name: `Ok` with the zone's canonical name, or the
/// message `invalid timezone '<name>'`.
pub fn parse_timezone(timezone: &str) -> (r: Result<String, String>)
    ensures
        match zone_name(timezone@) {
            Some(n) => r matches Ok(z) && z@ == n,
            None => r matches Err(m) && m@ == "invalid timezone '"@ + timezone@ + "'"@,
        },
{
    match parse_zone(timezone) {
        Some(n) => Ok(n),
        None => {
            let mut m = crate::text::lit("invalid timezone '");
            m.append(timezone);
            m.append("'");
            Err(m)
        },
    }
}

/// The wall-clock time, in seconds since the epoch as if it were UTC, of the
/// instant `secs` (and `nanos`) in the zone named `zone`; nothing when
/// chrono cannot represent the instant, chrono-tz knows no such zone, or
/// the zone's offset takes the wall-clock time outside chrono's dates.
pub uninterp spec fn local_secs_of(zone: Seq<char>, secs: int, nanos: int) -> Option<int>;

/// `DateTime::<Utc>::from_timestamp(secs, nanos)` of chrono, taken to the
/// zone with `with_timezone`, and its wall-clock time read as
/// `naive_local` reads it (the UTC date and time plus the zone's offset,
/// through `checked_add_offset`), then `and_utc().timestamp()`. Where
/// `naive_local` would panic because the offset takes the wall-clock time
/// outside chrono's dates, `checked_add_offset` gives nothing instead.
#[verifier::external_body]
fn utc_to_local_secs(zone: &str, secs: i64, nanos: u32) -> (r: Option<i64>)
    ensures
        match r {
            Some(l) => local_secs_of(zone@, secs as int, nanos as int) == Some(l as int),
            None => local_secs_of(zone@, secs as int, nanos as int) is None,
        },
{
    let tz = match zone.parse::<chrono_tz::Tz>() {
        Ok(tz) => tz,
        Err(_) => return None,
    };
    let dt = match chrono::DateTime::from_timestamp(secs, nanos) {
        Some(dt) => dt.with_timezone(&tz),
        None => return None,
    };
    match dt.naive_utc().checked_add_offset(dt.offset().fix()) {
        Some(local) => Some(local.and_utc().timestamp()),
        None => None,
    }
}

/// The calendar fields of a wall-clock time given in seconds since the
/// epoch; nothing when chrono cannot represent it.
pub uninterp spec fn civil_of(local_secs: int) -> Option<CivilTime>;

/// `DateTime::<Utc>::from_timestamp(local_secs, 0)` of chrono, read as
/// minute, hour, day, month and days since Sunday of its weekday; chrono
/// keeps each field in its range.
#[verifier::external_body]
fn civil_time(local_secs: i64) -> (r: Option<CivilTime>)
    ensures
        r == civil_of(local_secs as int),
        r matches Some(c) ==> c.minute < 60 && c.hour < 24 && 1 <= c.day <= 31 && 1 <= c.month <= 12 && c.weekday < 7,
{
    match chrono::DateTime::from_timestamp(local_secs, 0) {
        Some(dt) => Some(CivilTime {
            minute: dt.minute(),
            hour: dt.hour(),
            day: dt.day(),
            month: dt.month(),
            weekday: dt.weekday().num_days_from_sunday(),
        }),
        None => None,
    }
}

/// The instant, in seconds since the epoch, at which the zone's clocks show
/// the wall-clock time `local_secs` (the earlier one when they show it
/// twice); nothing when they skip it or the zone is unknown.
pub uninterp spec fn instant_of_local(zone: Seq<char>, local_secs: int) -> Option<int>;

/// `TimeZone::from_local_datetime` of chrono with the zone's `chrono_tz::Tz`,
/// taking the single or the earliest ambiguous result.
#[verifier::external_body]
fn local_to_instant(zone: &str, local_secs: i64) -> (r: Option<i64>)
    ensures
        match r {
            Some(t) => instant_of_local(zone@, local_secs as int) == Some(t as int),
            None => instant_of_local(zone@, local_secs as int) is None,
        },
{
    let tz = match zone.parse::<chrono_tz::Tz>() {
        Ok(tz) => tz,
        Err(_) => return None,
    };
    let naive = match chrono::DateTime::from_timestamp(local_secs, 0) {
        Some(dt) => dt.naive_utc(),
        None => return None,
    };
    match tz.from_local_datetime(&naive) {
        chrono::LocalResult::Single(dt) => Some(dt.timestamp()),
        chrono::LocalResult::Ambiguous(dt, _) => Some(dt.timestamp()),
        chrono::LocalResult::None => None,
    }
}

/// How many minutes ahead a schedule looks for its next run: five years.
pub open spec fn max_lookahead_minutes() -> nat {
    366 * 24 * 60 * 5
}

/// Whether a number of seconds fits the 64-bit timestamps chrono takes.
pub open spec fn fits_i64(c: int) -> bool {
    i64::MIN <= c <= i64::MAX
}

/// Whether the wall-clock minute `c` (seconds since the epoch) is scheduled.
pub open spec fn civil_matches(m: ScheduleModel, c: int) -> bool {
    fits_i64(c) && match civil_of(c) {
        Some(t) => matches_spec(m, t.minute as int, t.hour as int, t.day as int, t.month as int, t.weekday as int),
        None => false,
    }
}

/// The first of `n` wall-clock minutes from `c` on that is scheduled and
/// exists in the zone, as an instant.
pub open spec fn first_match(m: ScheduleModel, zone: Seq<char>, c: int, n: nat) -> Option<int>
    decreases n,
{
    if n == 0 {
        None
    } else if civil_matches(m, c) && instant_of_local(zone, c) is Some {
        instant_of_local(zone, c)
    } else {
        first_match(m, zone, c + 60, (n - 1) as nat)
    }
}

/// The next scheduled instant after `secs`: the first scheduled wall-clock
/// minute after the one containing `secs`, within five years.
pub open spec fn next_after_spec(m: ScheduleModel, zone: Seq<char>, secs: int, nanos: int) -> Option<int> {
    match local_secs_of(zone, secs, nanos) {
        Some(l) => first_match(m, zone, l - l % 60 + 60, max_lookahead_minutes()),
        None => None,
    }
}

/// The start of the wall-clock minute after the one containing `local`.
fn next_minute(local: i64) -> (c: i128)
    ensures
        c == local - local % 60 + 60,
{
    let offset: i128 = 60 * 200_000_000_000_000_000;
    let shifted: u128 = (local as i128 + offset) as u128;
    let r: u128 = shifted % 60;
    assert((local + offset) % 60 == local % 60) by (nonlinear_arith)
        requires
            offset == 60 * 200_000_000_000_000_000,
    {
        vstd::arithmetic::div_mod::lemma_mod_add_multiples_vanish(local as int, 60);
    }
    (local as i128) - (r as i128) + 60
}

impl CronSchedule {
    /// The next instant after `after` at which the schedule fires, in the
    /// zone `zone`: the schedule is read in wall-clock time, minutes the
    /// zone's clocks skip never fire, and a minute they show twice fires at
    /// its first occurrence. Nothing when no minute within five years
    /// matches, when the zone is unknown, or when `after` or the minutes
    /// searched fall outside chrono's dates.
    pub fn next_after(&self, after: Timestamp, zone: &str) -> (r: Option<Timestamp>)
        requires
            self.well_formed(),
        ensures
            match next_after_spec(self@, zone@, after.secs as int, after.nanos as int) {
                Some(t) => r matches Some(ts) && ts.secs == t && ts.nanos == 0,
                None => r is None,
            },
    {
        let local = match utc_to_local_secs(zone, after.secs, after.nanos) {
            Some(l) => l,
            None => {
                return None;
            },
        };
        let mut candidate: i128 = next_minute(local);
        let mut i: u64 = 0;
        let max: u64 = 366 * 24 * 60 * 5;
        while i < max
            invariant
                self.well_formed(),
                i <= max,
                max == max_lookahead_minutes(),
                candidate == local - local % 60 + 60 + 60 * i,
                next_after_spec(self@, zone@, after.secs as int, after.nanos as int) == first_match(self@, zone@, candidate as int, (max - i) as nat),
            decreases max - i,
        {
            if i64::MIN as i128 <= candidate && candidate <= i64::MAX as i128 {
                let c = candidate as i64;
                let fits = match civil_time(c) {
                    Some(t) => self.matches(t.minute, t.hour, t.day, t.month, t.weekday),
                    None => false,
                };
                if fits {
                    match local_to_instant(zone, c) {
                        Some(t) => {
                            return Some(Timestamp { secs: t, nanos: 0 });
                        },
                        None => {},
                    }
                }
            }
            candidate = candidate + 60;
            i = i + 1;
        }
        None
    }
}

/// The first `count` instants the schedule fires at after `from`, in order,
/// each found after the one before; fewer when the schedule stops firing.
pub open spec fn upcoming_spec(m: ScheduleModel, zone: Seq<char>, secs: int, nanos: int, count: nat) -> Seq<int>
    decreases count,
{
    if count == 0 {
        Seq::empty()
    } else {
        match next_after_spec(m, zone, secs, nanos) {
            None => Seq::empty(),
            Some(t) => seq![t] + upcoming_spec(m, zone, t, 0, (count - 1) as nat),
        }
    }
}

/// The upcoming runs form a chain: at most `count` of them; the first is
/// the next run after the start; each later one is the next run after the
/// one before; and a list shorter than asked means that after its last
/// element (or after the start, when it is empty) the schedule never fires
/// again within its horizon.
pub proof fn lemma_upcoming_chain(m: ScheduleModel, zone: Seq<char>, secs: int, nanos: int, count: nat)
    ensures
        ({
            let v = upcoming_spec(m, zone, secs, nanos, count);
            &&& v.len() <= count
            &&& v.len() > 0 ==> next_after_spec(m, zone, secs, nanos) == Some(v[0])
            &&& forall|i: int| 0 <= i && i + 1 < v.len() ==> next_after_spec(m, zone, #[trigger] v[i], 0) == Some(v[i + 1])
            &&& v.len() < count ==> (if v.len() == 0 {
                next_after_spec(m, zone, secs, nanos) is None
            } else {
                next_after_spec(m, zone, v.last(), 0) is None
            })
        }),
    decreases count,
{
    if count > 0 {
        match next_after_spec(m, zone, secs, nanos) {
            None => {},
            Some(t) => {
                lemma_upcoming_chain(m, zone, t, 0, (count - 1) as nat);
                let rest = upcoming_spec(m, zone, t, 0, (count - 1) as nat);
                let v = upcoming_spec(m, zone, secs, nanos, count);
                assert(v == seq![t] + rest);
                assert forall|i: int| 0 <= i && i + 1 < v.len() implies next_after_spec(m, zone, #[trigger] v[i], 0) == Some(v[i + 1]) by {
                    if i > 0 {
                        assert(v[i] == rest[i - 1]);
                        assert(v[i + 1] == rest[i]);
                    } else {
                        assert(v[0] == t);
                        assert(v[1] == rest[0]);
                    }
                }
                if v.len() < count && rest.len() > 0 {
                    assert(v.last() == rest.last());
                }
            },
        }
    }
}

impl CronSchedule {
    /// The next `count` instants the schedule fires at after `from`.
    pub fn upcoming(&self, from: Timestamp, zone: &str, count: usize) -> (r: Vec<Timestamp>)
        requires
            self.well_formed(),
        ensures
            r@.map_values(|t: Timestamp| t.secs as int) == upcoming_spec(self@, zone@, from.secs as int, from.nanos as int, count as nat),
            forall|i: int| 0 <= i < r@.len() ==> (#[trigger] r@[i]).nanos == 0,
    {
        let mut out: Vec<Timestamp> = Vec::new();
        let mut cursor = from;
        let mut k: usize = 0;
        while k < count
            invariant
                self.well_formed(),
                k <= count,
                upcoming_spec(self@, zone@, from.secs as int, from.nanos as int, count as nat)
                    == out@.map_values(|t: Timestamp| t.secs as int) + upcoming_spec(self@, zone@, cursor.secs as int, cursor.nanos as int, (count - k) as nat),
                forall|i: int| 0 <= i < out@.len() ==> (#[trigger] out@[i]).nanos == 0,
            decreases count - k,
        {
            match self.next_after(cursor, zone) {
                Some(next) => {
                    let ghost before = out@.map_values(|t: Timestamp| t.secs as int);
                    out.push(next);
                    proof {
                        assert(out@.map_values(|t: Timestamp| t.secs as int) == before.push(next.secs as int));
                        assert(before + (seq![next.secs as int] + upcoming_spec(self@, zone@, next.secs as int, 0, (count - k - 1) as nat))
                            == before.push(next.secs as int) + upcoming_spec(self@, zone@, next.secs as int, 0, (count - k - 1) as nat));
                    }
                    cursor = next;
                },
                None => {
                    proof {
                        assert(out@.map_values(|t: Timestamp| t.secs as int) + Seq::<int>::empty() == out@.map_values(|t: Timestamp| t.secs as int));
                    }
                    return out;
                },
            }
            k = k + 1;
        }
        proof {
            assert(out@.map_values(|t: Timestamp| t.secs as int) + Seq::<int>::empty() == out@.map_values(|t: Timestamp| t.secs as int));
        }
        out
    }
}

} // verus!
