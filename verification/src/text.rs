//! Character-level text handling shared by the parsers: whitespace, trimming,
//! line and field splitting, decimal numbers. Every function here works on
//! `Seq<char>` views, so the parsers can state their contracts in the same
//! terms Rust's `str` methods document.
use vstd::prelude::*;
use vstd::string::StringExecFns;

verus! {

/// `char::is_whitespace`: the Unicode `White_Space` property.
pub open spec fn is_ws(c: char) -> bool {
    let u = c as u32;
    ||| u == 0x20
    ||| (0x09 <= u && u <= 0x0d)
    ||| u == 0x85
    ||| u == 0xa0
    ||| u == 0x1680
    ||| (0x2000 <= u && u <= 0x200a)
    ||| u == 0x2028
    ||| u == 0x2029
    ||| u == 0x202f
    ||| u == 0x205f
    ||| u == 0x3000
}

pub fn is_ws_exec(c: char) -> (b: bool)
    ensures
        b == is_ws(c),
{
    let u = c as u32;
    u == 0x20 || (0x09 <= u && u <= 0x0d) || u == 0x85 || u == 0xa0 || u == 0x1680 || (0x2000
        <= u && u <= 0x200a) || u == 0x2028 || u == 0x2029 || u == 0x202f || u == 0x205f || u
        == 0x3000
}

/// Index of the first non-whitespace character at or after `i` (or `s.len()`).
pub open spec fn skip_ws(s: Seq<char>, i: int) -> int
    decreases s.len() - i,
{
    if i < 0 || i >= s.len() {
        if i < 0 { 0 } else { s.len() as int }
    } else if is_ws(s[i]) {
        skip_ws(s, i + 1)
    } else {
        i
    }
}

/// Index of the first whitespace character at or after `i` (or `s.len()`).
pub open spec fn skip_non_ws(s: Seq<char>, i: int) -> int
    decreases s.len() - i,
{
    if i < 0 || i >= s.len() {
        if i < 0 { 0 } else { s.len() as int }
    } else if !is_ws(s[i]) {
        skip_non_ws(s, i + 1)
    } else {
        i
    }
}

/// End of `s` once trailing whitespace is dropped, looking only below `j`.
pub open spec fn trim_end_at(s: Seq<char>, j: int) -> int
    decreases j,
{
    if j <= 0 {
        0
    } else if j > s.len() {
        trim_end_at(s, s.len() as int)
    } else if is_ws(s[j - 1]) {
        trim_end_at(s, j - 1)
    } else {
        j
    }
}

/// `str::trim_start`.
pub open spec fn trim_start(s: Seq<char>) -> Seq<char> {
    s.subrange(skip_ws(s, 0), s.len() as int)
}

/// `str::trim_end`.
pub open spec fn trim_end(s: Seq<char>) -> Seq<char> {
    s.subrange(0, trim_end_at(s, s.len() as int))
}

/// `str::trim`.
pub open spec fn trim(s: Seq<char>) -> Seq<char> {
    trim_end(trim_start(s))
}

/// First index of `c` at or after `i`, or -1.
pub open spec fn find_from(s: Seq<char>, c: char, i: int) -> int
    decreases s.len() - i,
{
    if i < 0 || i >= s.len() {
        -1
    } else if s[i] == c {
        i
    } else {
        find_from(s, c, i + 1)
    }
}

/// A line as `str::lines` yields it: the text before a `\n`, without a `\r`
/// that directly precedes the `\n`.
pub open spec fn strip_cr(s: Seq<char>) -> Seq<char> {
    if s.len() > 0 && s.last() == '\r' {
        s.drop_last()
    } else {
        s
    }
}

/// `str::lines` on the text from `i` on.
pub open spec fn lines_from(s: Seq<char>, i: int) -> Seq<Seq<char>>
    decreases s.len() - i,
{
    if i < 0 || i >= s.len() {
        Seq::empty()
    } else {
        let j = find_from(s, '\n', i);
        if j < 0 {
            seq![s.subrange(i, s.len() as int)]
        } else {
            proof {
                lemma_find_from_bounds(s, '\n', i);
            }
            seq![strip_cr(s.subrange(i, j))] + lines_from(s, j + 1)
        }
    }
}

/// `str::lines`.
pub open spec fn lines(s: Seq<char>) -> Seq<Seq<char>> {
    lines_from(s, 0)
}

/// `str::split(c)` on the text from `i` on (there is always one piece).
pub open spec fn split_from(s: Seq<char>, c: char, i: int) -> Seq<Seq<char>>
    decreases s.len() + 1 - i,
{
    if i < 0 || i > s.len() {
        Seq::empty()
    } else {
        let j = find_from(s, c, i);
        if j < 0 {
            seq![s.subrange(i, s.len() as int)]
        } else {
            proof {
                lemma_find_from_bounds(s, c, i);
            }
            seq![s.subrange(i, j)] + split_from(s, c, j + 1)
        }
    }
}

/// `str::split(c)`.
pub open spec fn split_on(s: Seq<char>, c: char) -> Seq<Seq<char>> {
    split_from(s, c, 0)
}

/// `str::split_whitespace` on the text from `i` on.
pub open spec fn words_from(s: Seq<char>, i: int) -> Seq<Seq<char>>
    decreases s.len() - i,
{
    if i < 0 || i >= s.len() {
        Seq::empty()
    } else {
        let k = skip_ws(s, i);
        if k >= s.len() {
            Seq::empty()
        } else {
            let e = skip_non_ws(s, k);
            proof {
                lemma_skip_ws_bounds(s, i);
                lemma_skip_non_ws_bounds(s, k + 1);
                assert(e == skip_non_ws(s, k + 1));
            }
            seq![s.subrange(k, e)] + words_from(s, e)
        }
    }
}

/// `str::split_whitespace`.
pub open spec fn words(s: Seq<char>) -> Seq<Seq<char>> {
    words_from(s, 0)
}

/// `str::split_once(c)`.
pub open spec fn split_once(s: Seq<char>, c: char) -> Option<(Seq<char>, Seq<char>)> {
    let j = find_from(s, c, 0);
    if j < 0 {
        None
    } else {
        Some((s.subrange(0, j), s.subrange(j + 1, s.len() as int)))
    }
}

/// `str::starts_with` for a text prefix.
pub open spec fn starts_with(s: Seq<char>, p: Seq<char>) -> bool {
    p.len() <= s.len() && s.subrange(0, p.len() as int) == p
}

/// `str::strip_prefix`.
pub open spec fn strip_prefix(s: Seq<char>, p: Seq<char>) -> Option<Seq<char>> {
    if starts_with(s, p) {
        Some(s.subrange(p.len() as int, s.len() as int))
    } else {
        None
    }
}

/// `str::contains(c)`.
pub open spec fn has_char(s: Seq<char>, c: char) -> bool {
    exists|i: int| 0 <= i < s.len() && s[i] == c
}

pub open spec fn is_digit(c: char) -> bool {
    '0' <= c && c <= '9'
}

pub open spec fn all_digits(s: Seq<char>) -> bool {
    forall|i: int| 0 <= i < s.len() ==> is_digit(#[trigger] s[i])
}

/// The number a string of decimal digits spells.
pub open spec fn digits_value(s: Seq<char>) -> nat
    decreases s.len(),
{
    if s.len() == 0 {
        0
    } else {
        digits_value(s.drop_last()) * 10 + ((s.last() as u32) - ('0' as u32)) as nat
    }
}

/// The digits after an optional leading `+`, as the `FromStr` impls of the
/// unsigned integer types read them.
pub open spec fn unsigned_digits(s: Seq<char>) -> Seq<char> {
    if s.len() > 0 && s[0] == '+' {
        s.drop_first()
    } else {
        s
    }
}

/// `str::parse` for an unsigned integer type whose largest value is `max`:
/// an optional `+`, then at least one ASCII digit and nothing else.
pub open spec fn parse_unsigned(s: Seq<char>, max: nat) -> Option<nat> {
    let d = unsigned_digits(s);
    if d.len() > 0 && all_digits(d) && digits_value(d) <= max {
        Some(digits_value(d))
    } else {
        None
    }
}

pub open spec fn digit_char(d: nat) -> char {
    if d == 0 { '0' } else if d == 1 { '1' } else if d == 2 { '2' } else if d == 3 { '3' }
    else if d == 4 { '4' } else if d == 5 { '5' } else if d == 6 { '6' } else if d == 7 { '7' }
    else if d == 8 { '8' } else { '9' }
}

fn digit_char_exec(d: u64) -> (c: char)
    requires
        d < 10,
    ensures
        c == digit_char(d as nat),
{
    match d {
        0 => '0',
        1 => '1',
        2 => '2',
        3 => '3',
        4 => '4',
        5 => '5',
        6 => '6',
        7 => '7',
        8 => '8',
        _ => '9',
    }
}

/// The decimal form `Display` gives a non-negative integer.
pub open spec fn decimal(n: nat) -> Seq<char>
    decreases n,
{
    if n < 10 {
        seq![digit_char(n)]
    } else {
        decimal(n / 10).push(digit_char(n % 10))
    }
}

/// `char::to_ascii_lowercase`.
pub open spec fn ascii_lower(c: char) -> char {
    if 'A' <= c && c <= 'Z' {
        (((c as u32) + 32) as u8) as char
    } else {
        c
    }
}

/// `str::to_ascii_lowercase`.
pub open spec fn ascii_lowercase(s: Seq<char>) -> Seq<char> {
    Seq::new(s.len(), |i: int| ascii_lower(s[i]))
}

/// `String::push`, which vstd leaves without a contract.
#[verifier::external_body]
pub fn push_char(s: &mut String, c: char)
    ensures
        final(s)@ == old(s)@.push(c),
{
    s.push(c);
}

/// An owned copy of a string slice.
pub fn lit(s: &str) -> (r: String)
    ensures
        r@ == s@,
{
    String::from_str(s)
}

/// Copies the characters of a string slice into a vector.
pub fn chars_of(s: &str) -> (v: Vec<char>)
    ensures
        v@ == s@,
{
    let mut v: Vec<char> = Vec::new();
    for c in it: s.chars()
        invariant
            v@ == it.seq().take(it.index() as int),
    {
        v.push(c);
    }
    v
}

/// Builds a `String` from characters.
pub fn string_of(v: &[char]) -> (s: String)
    ensures
        s@ == v@,
{
    let mut s = String::new();
    let mut i: usize = 0;
    while i < v.len()
        invariant
            i <= v@.len(),
            s@ == v@.subrange(0, i as int),
        decreases v@.len() - i,
    {
        push_char(&mut s, v[i]);
        assert(v@.subrange(0, i + 1) == v@.subrange(0, i as int).push(v@[i as int]));
        i = i + 1;
    }
    assert(v@.subrange(0, v@.len() as int) == v@);
    s
}

/// Copies `v[lo..hi]`.
pub fn slice_to_vec(v: &[char], lo: usize, hi: usize) -> (r: Vec<char>)
    requires
        lo <= hi <= v@.len(),
    ensures
        r@ == v@.subrange(lo as int, hi as int),
{
    let mut r: Vec<char> = Vec::new();
    let mut i = lo;
    while i < hi
        invariant
            lo <= i <= hi,
            hi <= v@.len(),
            r@ == v@.subrange(lo as int, i as int),
        decreases hi - i,
    {
        r.push(v[i]);
        assert(v@.subrange(lo as int, i + 1) == v@.subrange(lo as int, i as int).push(v@[i as int]));
        i = i + 1;
    }
    r
}

/// The string for `v[lo..hi]`.
pub fn substring(v: &[char], lo: usize, hi: usize) -> (s: String)
    requires
        lo <= hi <= v@.len(),
    ensures
        s@ == v@.subrange(lo as int, hi as int),
{
    let r = slice_to_vec(v, lo, hi);
    string_of(r.as_slice())
}

pub proof fn lemma_skip_ws_bounds(s: Seq<char>, i: int)
    requires
        0 <= i <= s.len(),
    ensures
        i <= skip_ws(s, i) <= s.len(),
        forall|k: int| i <= k < skip_ws(s, i) ==> is_ws(#[trigger] s[k]),
        skip_ws(s, i) < s.len() ==> !is_ws(s[skip_ws(s, i)]),
    decreases s.len() - i,
{
    if i < s.len() && is_ws(s[i]) {
        lemma_skip_ws_bounds(s, i + 1);
    }
}

pub proof fn lemma_skip_non_ws_bounds(s: Seq<char>, i: int)
    requires
        0 <= i <= s.len(),
    ensures
        i <= skip_non_ws(s, i) <= s.len(),
        forall|k: int| i <= k < skip_non_ws(s, i) ==> !is_ws(#[trigger] s[k]),
        skip_non_ws(s, i) < s.len() ==> is_ws(s[skip_non_ws(s, i)]),
    decreases s.len() - i,
{
    if i < s.len() && !is_ws(s[i]) {
        lemma_skip_non_ws_bounds(s, i + 1);
    }
}

pub proof fn lemma_trim_end_bounds(s: Seq<char>, j: int)
    requires
        0 <= j <= s.len(),
    ensures
        0 <= trim_end_at(s, j) <= j,
        forall|k: int| trim_end_at(s, j) <= k < j ==> is_ws(#[trigger] s[k]),
        trim_end_at(s, j) > 0 ==> !is_ws(s[trim_end_at(s, j) - 1]),
    decreases j,
{
    if j > 0 && is_ws(s[j - 1]) {
        lemma_trim_end_bounds(s, j - 1);
    }
}

pub proof fn lemma_find_from_bounds(s: Seq<char>, c: char, i: int)
    requires
        0 <= i,
    ensures
        find_from(s, c, i) == -1 || (i <= find_from(s, c, i) < s.len() && s[find_from(s, c, i)]
            == c),
        forall|k: int|
            i <= k < (if find_from(s, c, i) < 0 { s.len() as int } else { find_from(s, c, i) })
                ==> #[trigger] s[k] != c,
    decreases s.len() - i,
{
    if i < s.len() && s[i] != c {
        lemma_find_from_bounds(s, c, i + 1);
    }
}

/// `skip_ws` from `i`, computed.
pub fn skip_ws_exec(v: &[char], i: usize) -> (k: usize)
    requires
        i <= v@.len(),
    ensures
        k as int == skip_ws(v@, i as int),
{
    let mut k = i;
    while k < v.len() && is_ws_exec(v[k])
        invariant
            i <= k <= v@.len(),
            skip_ws(v@, i as int) == skip_ws(v@, k as int),
        decreases v@.len() - k,
    {
        k = k + 1;
    }
    k
}

/// `skip_non_ws` from `i`, computed.
pub fn skip_non_ws_exec(v: &[char], i: usize) -> (k: usize)
    requires
        i <= v@.len(),
    ensures
        k as int == skip_non_ws(v@, i as int),
{
    let mut k = i;
    while k < v.len() && !is_ws_exec(v[k])
        invariant
            i <= k <= v@.len(),
            skip_non_ws(v@, i as int) == skip_non_ws(v@, k as int),
        decreases v@.len() - k,
    {
        k = k + 1;
    }
    k
}

/// `find_from`, computed.
pub fn find_exec(v: &[char], c: char, i: usize) -> (r: Option<usize>)
    requires
        i <= v@.len(),
    ensures
        match r {
            Some(j) => j as int == find_from(v@, c, i as int),
            None => find_from(v@, c, i as int) == -1,
        },
{
    let mut k = i;
    while k < v.len()
        invariant
            i <= k <= v@.len(),
            find_from(v@, c, i as int) == find_from(v@, c, k as int),
        decreases v@.len() - k,
    {
        if v[k] == c {
            return Some(k);
        }
        k = k + 1;
    }
    None
}

/// Bounds of `trim(v[lo..hi])` inside `v`.
pub fn trim_bounds(v: &[char], lo: usize, hi: usize) -> (r: (usize, usize))
    requires
        lo <= hi <= v@.len(),
    ensures
        lo <= r.0 <= r.1 <= hi,
        v@.subrange(r.0 as int, r.1 as int) == trim(v@.subrange(lo as int, hi as int)),
{
    let ghost s = v@.subrange(lo as int, hi as int);
    let mut a = lo;
    while a < hi && is_ws_exec(v[a])
        invariant
            lo <= a <= hi,
            hi <= v@.len(),
            s == v@.subrange(lo as int, hi as int),
            skip_ws(s, 0) == skip_ws(s, a - lo),
        decreases hi - a,
    {
        assert(s[a - lo] == v@[a as int]);
        a = a + 1;
    }
    proof {
        if a < hi {
            assert(s[a - lo] == v@[a as int]);
        }
        assert(skip_ws(s, 0) == a - lo);
    }
    let ghost t = trim_start(s);
    assert(t == v@.subrange(a as int, hi as int));
    let mut b = hi;
    while b > a && is_ws_exec(v[b - 1])
        invariant
            lo <= a <= b <= hi,
            hi <= v@.len(),
            t == v@.subrange(a as int, hi as int),
            trim_end_at(t, t.len() as int) == trim_end_at(t, b - a),
        decreases b - a,
    {
        assert(t[b - 1 - a] == v@[b - 1]);
        b = b - 1;
    }
    proof {
        if b > a {
            assert(t[b - 1 - a] == v@[b - 1]);
        }
        assert(trim_end_at(t, b - a) == b - a);
        assert(trim(s) == t.subrange(0, b - a));
        assert(t.subrange(0, b - a) == v@.subrange(a as int, b as int));
    }
    (a, b)
}

/// `str::trim`, as a new vector.
pub fn trim_vec(v: &[char]) -> (r: Vec<char>)
    ensures
        r@ == trim(v@),
{
    let (a, b) = trim_bounds(v, 0, v.len());
    assert(v@.subrange(0, v@.len() as int) == v@);
    slice_to_vec(v, a, b)
}

/// `str::lines`, each line copied out.
pub fn lines_vec(v: &[char]) -> (r: Vec<Vec<char>>)
    ensures
        r@.map_values(|x: Vec<char>| x@) == lines(v@),
{
    let mut r: Vec<Vec<char>> = Vec::new();
    let mut pos: usize = 0;
    while pos < v.len()
        invariant
            pos <= v@.len(),
            lines(v@) == r@.map_values(|x: Vec<char>| x@) + lines_from(v@, pos as int),
        decreases v@.len() - pos,
    {
        let ghost old_r = r@.map_values(|x: Vec<char>| x@);
        match find_exec(v, '\n', pos) {
            Some(j) => {
                proof {
                    lemma_find_from_bounds(v@, '\n', pos as int);
                }
                let mut end = j;
                if end > pos && v[end - 1] == '\r' {
                    end = end - 1;
                }
                let line = slice_to_vec(v, pos, end);
                proof {
                    let raw = v@.subrange(pos as int, j as int);
                    assert(strip_cr(raw) == line@);
                }
                r.push(line);
                proof {
                    assert(r@.map_values(|x: Vec<char>| x@) == old_r.push(line@));
                    assert(lines_from(v@, pos as int) == seq![line@] + lines_from(
                        v@,
                        j + 1,
                    ));
                    assert(old_r.push(line@) + lines_from(v@, j + 1) == old_r + (seq![line@]
                        + lines_from(v@, j + 1)));
                }
                pos = j + 1;
            },
            None => {
                let line = slice_to_vec(v, pos, v.len());
                r.push(line);
                proof {
                    assert(r@.map_values(|x: Vec<char>| x@) == old_r.push(line@));
                    assert(lines_from(v@, pos as int) == seq![line@]);
                    assert(lines_from(v@, v@.len() as int) == Seq::<Seq<char>>::empty());
                }
                pos = v.len();
            },
        }
    }
    r
}

/// `str::split(c)`, each piece copied out.
pub fn split_vec(v: &[char], c: char) -> (r: Vec<Vec<char>>)
    ensures
        r@.map_values(|x: Vec<char>| x@) == split_on(v@, c),
        r@.len() >= 1,
{
    let mut r: Vec<Vec<char>> = Vec::new();
    let mut pos: usize = 0;
    let n = v.len();
    loop
        invariant
            pos <= v@.len(),
            n == v@.len(),
            split_on(v@, c) == r@.map_values(|x: Vec<char>| x@) + split_from(v@, c, pos as int),
        decreases v@.len() - pos,
    {
        let ghost old_r = r@.map_values(|x: Vec<char>| x@);
        match find_exec(v, c, pos) {
            Some(j) => {
                proof {
                    lemma_find_from_bounds(v@, c, pos as int);
                }
                assert(j < v@.len());
                let piece = slice_to_vec(v, pos, j);
                r.push(piece);
                proof {
                    assert(r@.map_values(|x: Vec<char>| x@) == old_r.push(piece@));
                    assert(split_from(v@, c, pos as int) == seq![piece@] + split_from(
                        v@,
                        c,
                        j + 1,
                    ));
                    assert(old_r.push(piece@) + split_from(v@, c, j + 1) == old_r + (seq![piece@]
                        + split_from(v@, c, j + 1)));
                }
                pos = j + 1;
            },
            None => {
                let piece = slice_to_vec(v, pos, v.len());
                r.push(piece);
                proof {
                    assert(r@.map_values(|x: Vec<char>| x@) == old_r.push(piece@));
                    assert(split_from(v@, c, pos as int) == seq![piece@]);
                    assert(old_r.push(piece@) == old_r + seq![piece@]);
                }
                return r;
            },
        }
    }
}

/// `str::split_whitespace`, each word copied out.
pub fn words_vec(v: &[char]) -> (r: Vec<Vec<char>>)
    ensures
        r@.map_values(|x: Vec<char>| x@) == words(v@),
{
    let mut r: Vec<Vec<char>> = Vec::new();
    let mut pos: usize = 0;
    while pos < v.len()
        invariant
            pos <= v@.len(),
            words(v@) == r@.map_values(|x: Vec<char>| x@) + words_from(v@, pos as int),
        decreases v@.len() - pos,
    {
        let ghost old_r = r@.map_values(|x: Vec<char>| x@);
        let k = skip_ws_exec(v, pos);
        proof {
            lemma_skip_ws_bounds(v@, pos as int);
        }
        if k >= v.len() {
            proof {
                assert(words_from(v@, pos as int) == Seq::<Seq<char>>::empty());
                assert(words_from(v@, v@.len() as int) == Seq::<Seq<char>>::empty());
            }
            pos = v.len();
        } else {
            let e = skip_non_ws_exec(v, k);
            proof {
                lemma_skip_non_ws_bounds(v@, k as int);
            }
            let w = slice_to_vec(v, k, e);
            r.push(w);
            proof {
                assert(r@.map_values(|x: Vec<char>| x@) == old_r.push(w@));
                assert(words_from(v@, pos as int) == seq![w@] + words_from(v@, e as int));
                assert(old_r.push(w@) + words_from(v@, e as int) == old_r + (seq![w@]
                    + words_from(v@, e as int)));
            }
            pos = e;
        }
    }
    proof {
        assert(words_from(v@, pos as int) == Seq::<Seq<char>>::empty());
    }
    r
}

/// Whether `v[lo..]` begins with `p`.
pub fn starts_with_at(v: &[char], lo: usize, p: &[char]) -> (b: bool)
    requires
        lo <= v@.len(),
    ensures
        b == starts_with(v@.subrange(lo as int, v@.len() as int), p@),
{
    let ghost s = v@.subrange(lo as int, v@.len() as int);
    if p.len() > v.len() - lo {
        return false;
    }
    let mut i: usize = 0;
    let n = v.len();
    while i < p.len()
        invariant
            i <= p@.len(),
            n == v@.len(),
            lo <= v@.len(),
            p@.len() <= v@.len() - lo,
            lo + p@.len() <= v@.len(),
            s == v@.subrange(lo as int, v@.len() as int),
            forall|k: int| 0 <= k < i ==> s[k] == p@[k],
        decreases p@.len() - i,
    {
        if v[lo + i] != p[i] {
            assert(s.subrange(0, p@.len() as int)[i as int] != p@[i as int]);
            return false;
        }
        i = i + 1;
    }
    assert(s.subrange(0, p@.len() as int) == p@);
    true
}

/// Whether two character sequences are equal.
pub fn chars_eq(a: &[char], b: &[char]) -> (r: bool)
    ensures
        r == (a@ == b@),
{
    if a.len() != b.len() {
        return false;
    }
    let mut i: usize = 0;
    while i < a.len()
        invariant
            i <= a@.len(),
            a@.len() == b@.len(),
            forall|k: int| 0 <= k < i ==> a@[k] == b@[k],
        decreases a@.len() - i,
    {
        if a[i] != b[i] {
            return false;
        }
        i = i + 1;
    }
    assert(a@ =~= b@);
    true
}

/// Whether `v` holds `c`.
pub fn contains_char(v: &[char], c: char) -> (r: bool)
    ensures
        r == has_char(v@, c),
{
    let mut i: usize = 0;
    while i < v.len()
        invariant
            i <= v@.len(),
            forall|k: int| 0 <= k < i ==> v@[k] != c,
        decreases v@.len() - i,
    {
        if v[i] == c {
            return true;
        }
        i = i + 1;
    }
    false
}

pub proof fn lemma_digits_value_grows(s: Seq<char>, t: Seq<char>)
    requires
        all_digits(t),
    ensures
        digits_value(s + t) >= digits_value(s),
    decreases t.len(),
{
    if t.len() > 0 {
        let u = t.drop_last();
        assert(all_digits(u));
        lemma_digits_value_grows(s, u);
        assert((s + t).drop_last() == s + u);
    }
}

/// `str::parse` for an unsigned integer type whose largest value is `max`.
pub fn parse_unsigned_exec(v: &[char], max: u64) -> (r: Option<u64>)
    ensures
        match r {
            Some(n) => parse_unsigned(v@, max as nat) == Some(n as nat),
            None => parse_unsigned(v@, max as nat) is None,
        },
{
    let start: usize = if v.len() > 0 && v[0] == '+' { 1 } else { 0 };
    let ghost d = unsigned_digits(v@);
    assert(d == v@.subrange(start as int, v@.len() as int));
    if start >= v.len() {
        assert(d.len() == 0);
        return None;
    }
    let mut acc: u64 = 0;
    let mut over = false;
    let mut i = start;
    while i < v.len()
        invariant
            start <= i <= v@.len(),
            d == unsigned_digits(v@),
            d == v@.subrange(start as int, v@.len() as int),
            all_digits(v@.subrange(start as int, i as int)),
            !over ==> acc as nat == digits_value(v@.subrange(start as int, i as int)) && acc
                <= max,
            over ==> digits_value(v@.subrange(start as int, i as int)) > max,
        decreases v@.len() - i,
    {
        let c = v[i];
        let ghost pre = v@.subrange(start as int, i as int);
        let ghost next = v@.subrange(start as int, i + 1);
        assert(next.drop_last() == pre);
        assert(next.last() == c);
        if !('0' <= c && c <= '9') {
            proof {
                assert(d[i - start] == v@[i as int]);
                assert(!is_digit(d[i - start]));
            }
            return None;
        }
        let dig = (c as u32 - '0' as u32) as u64;
        assert(all_digits(next)) by {
            assert forall|k: int| 0 <= k < next.len() implies is_digit(#[trigger] next[k]) by {
                if k < pre.len() {
                    assert(next[k] == pre[k]);
                }
            }
        }
        if !over {
            if dig > max || acc > (max - dig) / 10 {
                over = true;
                assert(digits_value(next) > max) by (nonlinear_arith)
                    requires
                        digits_value(next) == digits_value(pre) * 10 + dig,
                        acc as nat == digits_value(pre),
                        dig > max || acc > (max - dig) / 10,
                {
                }
            } else {
                assert(acc * 10 + dig <= max) by (nonlinear_arith)
                    requires
                        acc <= (max - dig) / 10,
                        dig <= max,
                {
                }
                acc = acc * 10 + dig;
            }
        } else {
            assert(digits_value(next) >= digits_value(pre)) by (nonlinear_arith)
                requires
                    digits_value(next) == digits_value(pre) * 10 + dig,
            {
            }
        }
        i = i + 1;
    }
    assert(v@.subrange(start as int, v@.len() as int) == d);
    if over {
        None
    } else {
        Some(acc)
    }
}

/// The decimal digits of `n`.
pub fn decimal_chars(n: u64) -> (v: Vec<char>)
    ensures
        v@ == decimal(n as nat),
    decreases n,
{
    let d = digit_char_exec(n % 10);
    if n < 10 {
        let mut v: Vec<char> = Vec::new();
        v.push(d);
        v
    } else {
        let mut v = decimal_chars(n / 10);
        v.push(d);
        v
    }
}

/// `n.to_string()` for an unsigned integer.
pub fn decimal_string(n: u64) -> (s: String)
    ensures
        s@ == decimal(n as nat),
{
    let v = decimal_chars(n);
    string_of(v.as_slice())
}

/// The decimal form `Display` gives a signed integer.
pub open spec fn signed_decimal(n: int) -> Seq<char> {
    if n < 0 {
        seq!['-'] + decimal((-n) as nat)
    } else {
        decimal(n as nat)
    }
}

/// `n.to_string()` for an `i64`.
pub fn signed_decimal_string(n: i64) -> (s: String)
    ensures
        s@ == signed_decimal(n as int),
{
    if n < 0 {
        let magnitude: u64 = ((-(n + 1)) as u64) + 1;
        let mut s = lit("-");
        proof {
            reveal_strlit("-");
        }
        s.append(decimal_string(magnitude).as_str());
        s
    } else {
        decimal_string(n as u64)
    }
}


/// The upper-case form `str::to_uppercase` gives: each character mapped by
/// the Unicode upper-case mapping, which may turn one character into several.
pub uninterp spec fn upper(s: Seq<char>) -> Seq<char>;

/// `str::to_uppercase` of std.
#[verifier::external_body]
pub(crate) fn to_uppercase(s: &str) -> (r: String)
    ensures
        r@ == upper(s@),
{
    s.to_uppercase()
}

/// The lower-case form `str::to_lowercase` gives: each character mapped by
/// the Unicode lower-case mapping, which may turn one character into several.
pub uninterp spec fn lower(s: Seq<char>) -> Seq<char>;

/// `str::to_lowercase` of std.
#[verifier::external_body]
pub(crate) fn to_lowercase(s: &str) -> (r: String)
    ensures
        r@ == lower(s@),
{
    s.to_lowercase()
}

/// The text from `i` on.
pub open spec fn after(s: Seq<char>, i: int) -> Seq<char> {
    if i <= s.len() {
        s.subrange(i, s.len() as int)
    } else {
        Seq::empty()
    }
}

/// Copies the text from `i` on.
pub fn after_vec(v: &[char], i: usize) -> (r: Vec<char>)
    ensures
        r@ == after(v@, i as int),
{
    if i <= v.len() {
        slice_to_vec(v, i, v.len())
    } else {
        Vec::new()
    }
}

/// `str::trim_start`.
pub fn trim_start_vec(v: &[char]) -> (r: Vec<char>)
    ensures
        r@ == trim_start(v@),
{
    let k = skip_ws_exec(v, 0);
    proof {
        lemma_skip_ws_bounds(v@, 0);
    }
    slice_to_vec(v, k, v.len())
}

/// The text before the first `c`, or all of it.
pub open spec fn before_char(s: Seq<char>, c: char) -> Seq<char> {
    let j = find_from(s, c, 0);
    if j < 0 {
        s
    } else {
        s.subrange(0, j)
    }
}

/// Copies the text before the first `c`, or all of it.
pub fn before_char_vec(v: &[char], c: char) -> (r: Vec<char>)
    ensures
        r@ == before_char(v@, c),
{
    match find_exec(v, c, 0) {
        Some(j) => {
            proof {
                lemma_find_from_bounds(v@, c, 0);
            }
            slice_to_vec(v, 0, j)
        },
        None => {
            assert(v@.subrange(0, v@.len() as int) == v@);
            slice_to_vec(v, 0, v.len())
        },
    }
}

/// The text with every leading `c` removed.
pub open spec fn trim_start_char(s: Seq<char>, c: char) -> Seq<char>
    decreases s.len(),
{
    if s.len() > 0 && s[0] == c {
        trim_start_char(s.drop_first(), c)
    } else {
        s
    }
}

/// The text with every trailing `c` removed.
pub open spec fn trim_end_char(s: Seq<char>, c: char) -> Seq<char>
    decreases s.len(),
{
    if s.len() > 0 && s.last() == c {
        trim_end_char(s.drop_last(), c)
    } else {
        s
    }
}

pub open spec fn is_quote(c: char) -> bool {
    c == '"' || c == '\''
}

/// The text with every leading and trailing quote removed.
pub open spec fn trim_quotes(s: Seq<char>) -> Seq<char>
    decreases s.len(),
{
    if s.len() > 0 && is_quote(s[0]) {
        trim_quotes(s.drop_first())
    } else if s.len() > 0 && is_quote(s.last()) {
        trim_quotes(s.drop_last())
    } else {
        s
    }
}

/// Removes every leading `c`.
pub fn trim_start_char_vec(v: &[char], c: char) -> (r: Vec<char>)
    ensures
        r@ == trim_start_char(v@, c),
{
    let mut i: usize = 0;
    proof {
        assert(v@.subrange(0, v@.len() as int) == v@);
    }
    while i < v.len() && v[i] == c
        invariant
            i <= v@.len(),
            trim_start_char(v@, c) == trim_start_char(v@.subrange(i as int, v@.len() as int), c),
        decreases v@.len() - i,
    {
        assert(v@.subrange(i as int, v@.len() as int).drop_first() == v@.subrange(i + 1, v@.len() as int));
        i = i + 1;
    }
    slice_to_vec(v, i, v.len())
}

/// Removes every trailing `c`.
pub fn trim_end_char_vec(v: &[char], c: char) -> (r: Vec<char>)
    ensures
        r@ == trim_end_char(v@, c),
{
    let mut j: usize = v.len();
    proof {
        assert(v@.subrange(0, j as int) == v@);
    }
    while j > 0 && v[j - 1] == c
        invariant
            j <= v@.len(),
            trim_end_char(v@, c) == trim_end_char(v@.subrange(0, j as int), c),
        decreases j,
    {
        assert(v@.subrange(0, j as int).drop_last() == v@.subrange(0, j - 1));
        j = j - 1;
    }
    slice_to_vec(v, 0, j)
}

/// Removes every leading and trailing quote.
pub fn trim_quotes_vec(v: &[char]) -> (r: Vec<char>)
    ensures
        r@ == trim_quotes(v@),
{
    let mut i: usize = 0;
    let mut j: usize = v.len();
    proof {
        assert(v@.subrange(0, j as int) == v@);
    }
    while i < j && (v[i] == '"' || v[i] == '\'')
        invariant
            i <= j <= v@.len(),
            j == v@.len(),
            trim_quotes(v@) == trim_quotes(v@.subrange(i as int, j as int)),
        decreases j - i,
    {
        assert(v@.subrange(i as int, j as int).drop_first() == v@.subrange(i + 1, j as int));
        i = i + 1;
    }
    while i < j && (v[j - 1] == '"' || v[j - 1] == '\'')
        invariant
            i <= j <= v@.len(),
            trim_quotes(v@) == trim_quotes(v@.subrange(i as int, j as int)),
            i < j ==> !is_quote(v@[i as int]),
        decreases j - i,
    {
        assert(v@.subrange(i as int, j as int).drop_last() == v@.subrange(i as int, j - 1));
        j = j - 1;
    }
    slice_to_vec(v, i, j)
}


/// `str::ends_with` for a text suffix.
pub open spec fn ends_with(s: Seq<char>, p: Seq<char>) -> bool {
    p.len() <= s.len() && s.subrange(s.len() - p.len(), s.len() as int) == p
}

/// `p` occurs in `s` at `k`.
pub open spec fn occurs_at(s: Seq<char>, p: Seq<char>, k: int) -> bool {
    0 <= k && k + p.len() <= s.len() && s.subrange(k, k + p.len()) == p
}

/// The first position at or after `i` where `p` occurs in `s`, or -1
/// (`str::find` with a text pattern, from `i`).
pub open spec fn find_sub(s: Seq<char>, p: Seq<char>, i: int) -> int
    decreases s.len() - i,
{
    if i < 0 || i + p.len() > s.len() {
        -1
    } else if occurs_at(s, p, i) {
        i
    } else {
        proof {
            assert(p.len() == 0 ==> s.subrange(i, i + p.len()) =~= p);
        }
        find_sub(s, p, i + 1)
    }
}

pub proof fn lemma_find_sub_bounds(s: Seq<char>, p: Seq<char>, i: int)
    requires
        0 <= i,
    ensures
        find_sub(s, p, i) == -1 || (i <= find_sub(s, p, i) && occurs_at(s, p, find_sub(s, p, i))),
    decreases s.len() - i,
{
    if i + p.len() <= s.len() && !occurs_at(s, p, i) {
        assert(p.len() == 0 ==> s.subrange(i, i + p.len()) =~= p);
        lemma_find_sub_bounds(s, p, i + 1);
    }
}

/// `v[lo..hi].find(p)`: the first position, counted from `lo`, where `p`
/// occurs within `v[lo..hi]`.
pub fn find_sub_exec(v: &[char], lo: usize, hi: usize, p: &[char]) -> (r: Option<usize>)
    requires
        lo <= hi <= v@.len(),
    ensures
        match r {
            Some(k) => k as int == find_sub(v@.subrange(lo as int, hi as int), p@, 0),
            None => find_sub(v@.subrange(lo as int, hi as int), p@, 0) == -1,
        },
{
    let ghost s = v@.subrange(lo as int, hi as int);
    let n = hi - lo;
    let m = p.len();
    if m > n {
        return None;
    }
    let mut k: usize = 0;
    while k <= n - m
        invariant
            n == hi - lo,
            m == p@.len(),
            m <= n,
            k <= n - m + 1,
            s == v@.subrange(lo as int, hi as int),
            hi <= v@.len(),
            find_sub(s, p@, 0) == find_sub(s, p@, k as int),
        decreases n - m + 1 - k,
    {
        let mut j: usize = 0;
        let mut same = true;
        while j < m
            invariant
                j <= m,
                m == p@.len(),
                k + m <= n,
                n == hi - lo,
                hi <= v@.len(),
                s == v@.subrange(lo as int, hi as int),
                same == (forall|q: int| 0 <= q < j ==> s[k + q] == p@[q]),
            decreases m - j,
        {
            if v[lo + k + j] != p[j] {
                same = false;
            }
            j = j + 1;
        }
        if same {
            assert(s.subrange(k as int, k + m) =~= p@);
            return Some(k);
        }
        assert(!occurs_at(s, p@, k as int)) by {
            if occurs_at(s, p@, k as int) {
                assert forall|q: int| 0 <= q < m implies s[k + q] == p@[q] by {
                    assert(s.subrange(k as int, k + m)[q] == s[k + q]);
                }
            }
        }
        k = k + 1;
    }
    None
}

/// The text with every leading copy of `p` removed (`str::trim_start_matches`
/// with a text pattern).
pub open spec fn trim_start_text(s: Seq<char>, p: Seq<char>) -> Seq<char>
    decreases s.len(),
{
    if p.len() > 0 && starts_with(s, p) {
        trim_start_text(s.subrange(p.len() as int, s.len() as int), p)
    } else {
        s
    }
}

/// Removes every leading copy of `p`.
pub fn trim_start_text_vec(v: &[char], p: &[char]) -> (r: Vec<char>)
    ensures
        r@ == trim_start_text(v@, p@),
{
    let mut i: usize = 0;
    proof {
        assert(v@.subrange(0, v@.len() as int) == v@);
    }
    while p.len() > 0 && i <= v.len() && starts_with_at(v, i, p)
        invariant
            i <= v@.len(),
            trim_start_text(v@, p@) == trim_start_text(v@.subrange(i as int, v@.len() as int), p@),
        decreases v@.len() - i,
    {
        let ghost s = v@.subrange(i as int, v@.len() as int);
        assert(s.subrange(p@.len() as int, s.len() as int) == v@.subrange(i + p@.len(), v@.len() as int));
        i = i + p.len();
    }
    slice_to_vec(v, i, v.len())
}


/// Whether reading the digits `d` from position `k` on, the way the
/// `FromStr` impls of the unsigned integer types do, meets a character that
/// is not a digit before the value grows past `max`.
pub open spec fn invalid_before_overflow(d: Seq<char>, max: nat, k: int) -> bool
    decreases d.len() - k,
{
    if k < 0 || k >= d.len() {
        true
    } else if !is_digit(d[k]) {
        true
    } else if digits_value(d.subrange(0, k + 1)) > max {
        false
    } else {
        invalid_before_overflow(d, max, k + 1)
    }
}

/// The message of the error `str::parse` gives for text that is not an
/// unsigned integer at most `max`.
pub open spec fn int_error_message(s: Seq<char>, max: nat) -> Seq<char> {
    if s.len() == 0 {
        "cannot parse integer from empty string"@
    } else if unsigned_digits(s).len() == 0 || invalid_before_overflow(unsigned_digits(s), max, 0) {
        "invalid digit found in string"@
    } else {
        "number too large to fit in target type"@
    }
}

/// The message of the error `str::parse` gives for `v` as an unsigned
/// integer at most `max`.
pub fn int_error_message_exec(v: &[char], max: u64) -> (m: String)
    ensures
        m@ == int_error_message(v@, max as nat),
{
    if v.len() == 0 {
        return lit("cannot parse integer from empty string");
    }
    let start: usize = if v[0] == '+' { 1 } else { 0 };
    let ghost d = unsigned_digits(v@);
    assert(d == v@.subrange(start as int, v@.len() as int));
    if start >= v.len() {
        return lit("invalid digit found in string");
    }
    let mut acc: u64 = 0;
    let mut i = start;
    while i < v.len()
        invariant
            start <= i <= v@.len(),
            start < v@.len(),
            d == unsigned_digits(v@),
            d == v@.subrange(start as int, v@.len() as int),
            all_digits(v@.subrange(start as int, i as int)),
            acc as nat == digits_value(v@.subrange(start as int, i as int)),
            acc <= max,
            invalid_before_overflow(d, max as nat, 0) == invalid_before_overflow(d, max as nat, i - start),
        decreases v@.len() - i,
    {
        let c = v[i];
        let ghost pre = v@.subrange(start as int, i as int);
        let ghost next = v@.subrange(start as int, i + 1);
        assert(next.drop_last() == pre);
        assert(next.last() == c);
        assert(d.subrange(0, i - start + 1) == next);
        assert(d[i - start] == c);
        if !('0' <= c && c <= '9') {
            return lit("invalid digit found in string");
        }
        let dig = (c as u32 - '0' as u32) as u64;
        assert(all_digits(next)) by {
            assert forall|k: int| 0 <= k < next.len() implies is_digit(#[trigger] next[k]) by {
                if k < pre.len() {
                    assert(next[k] == pre[k]);
                }
            }
        }
        if dig > max || acc > (max - dig) / 10 {
            assert(digits_value(next) > max) by (nonlinear_arith)
                requires
                    digits_value(next) == digits_value(pre) * 10 + dig,
                    acc as nat == digits_value(pre),
                    dig > max || acc > (max - dig) / 10,
            {
            }
            return lit("number too large to fit in target type");
        }
        assert(acc * 10 + dig <= max) by (nonlinear_arith)
            requires
                acc <= (max - dig) / 10,
                dig <= max,
        {
        }
        acc = acc * 10 + dig;
        i = i + 1;
    }
    lit("invalid digit found in string")
}

/// `str::to_ascii_lowercase`.
pub fn ascii_lowercase_vec(v: &[char]) -> (r: Vec<char>)
    ensures
        r@ == ascii_lowercase(v@),
{
    let mut r: Vec<char> = Vec::new();
    let mut i: usize = 0;
    while i < v.len()
        invariant
            i <= v@.len(),
            r@.len() == i,
            forall|k: int| 0 <= k < i ==> r@[k] == ascii_lower(#[trigger] v@[k]),
        decreases v@.len() - i,
    {
        let c = v[i];
        let l = if 'A' <= c && c <= 'Z' {
            ((c as u32) + 32) as u8 as char
        } else {
            c
        };
        r.push(l);
        i = i + 1;
    }
    assert(r@ =~= ascii_lowercase(v@));
    r
}

/// The views of a list of strings.
pub open spec fn views(v: Seq<String>) -> Seq<Seq<char>> {
    v.map_values(|s: String| s@)
}

/// A copy of a list of strings.
pub fn clone_strings(v: &Vec<String>) -> (r: Vec<String>)
    ensures
        r@ == v@,
{
    let mut r: Vec<String> = Vec::new();
    let mut i: usize = 0;
    while i < v.len()
        invariant
            i <= v@.len(),
            r@ == v@.take(i as int),
        decreases v@.len() - i,
    {
        r.push(v[i].clone());
        assert(v@.take(i + 1) =~= v@.take(i as int).push(v@[i as int]));
        i = i + 1;
    }
    assert(v@.take(v@.len() as int) =~= v@);
    r
}

/// `s` from `i` on with every occurrence of `p`, scanned from the left and
/// without overlaps, replaced by `r` (`str::replace` for a non-empty `p`).
pub open spec fn replace_from(s: Seq<char>, p: Seq<char>, r: Seq<char>, i: int) -> Seq<char>
    decreases s.len() - i,
{
    if i < 0 || i >= s.len() {
        Seq::empty()
    } else if p.len() > 0 && occurs_at(s, p, i) {
        r + replace_from(s, p, r, i + p.len())
    } else {
        seq![s[i]] + replace_from(s, p, r, i + 1)
    }
}

/// `s.replace(p, r)` for a non-empty pattern.
pub fn replace_text(s: &str, p: &str, r: &str) -> (out: String)
    requires
        p@.len() > 0,
    ensures
        out@ == replace_from(s@, p@, r@, 0),
{
    let v = chars_of(s);
    let pv = chars_of(p);
    let mut out = String::new();
    let mut i: usize = 0;
    assert(out@ + replace_from(v@, p@, r@, 0) =~= replace_from(v@, p@, r@, 0));
    while i < v.len()
        invariant
            i <= v@.len(),
            v@ == s@,
            pv@ == p@,
            p@.len() > 0,
            out@ + replace_from(v@, p@, r@, i as int) == replace_from(v@, p@, r@, 0),
        decreases v@.len() - i,
    {
        let hit = starts_with_at(v.as_slice(), i, pv.as_slice());
        proof {
            let rest = v@.subrange(i as int, v@.len() as int);
            if i + p@.len() <= v@.len() {
                assert(rest.subrange(0, p@.len() as int) =~= v@.subrange(i as int, i + p@.len()));
            }
        }
        let ghost before = out@;
        if hit {
            out.append(r);
            assert(before + replace_from(v@, p@, r@, i as int) == out@ + replace_from(v@, p@, r@, i + p@.len()));
            i = i + pv.len();
        } else {
            push_char(&mut out, v[i]);
            assert(before + replace_from(v@, p@, r@, i as int) == out@ + replace_from(v@, p@, r@, i + 1));
            i = i + 1;
        }
    }
    assert(out@ + replace_from(v@, p@, r@, i as int) == out@);
    out
}

} // verus!
