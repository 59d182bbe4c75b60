//! Field extraction from one unit of the diagnostic stream. Four field shapes
//! are recognised, each at its leftmost occurrence in the unit:
//! `Duration: HH:MM:SS.FF`, `time=HH:MM:SS.FF`, `speed=<digits>.<digits>` and
//! `size=<blanks><digits>`. Digits are Unicode decimal digits (category Nd);
//! blanks are ASCII whitespace. A field whose number is written with digits
//! other than ASCII ones is malformed.
use vstd::prelude::*;

verus! {

/// A Unicode decimal digit (general category Nd).
pub open spec fn is_digit(c: char) -> bool {
    ('0' <= c && c <= '9')
        || ('\u{660}' <= c && c <= '\u{669}')
        || ('\u{6f0}' <= c && c <= '\u{6f9}')
        || ('\u{7c0}' <= c && c <= '\u{7c9}')
        || ('\u{966}' <= c && c <= '\u{96f}')
        || ('\u{9e6}' <= c && c <= '\u{9ef}')
        || ('\u{a66}' <= c && c <= '\u{a6f}')
        || ('\u{ae6}' <= c && c <= '\u{aef}')
        || ('\u{b66}' <= c && c <= '\u{b6f}')
        || ('\u{be6}' <= c && c <= '\u{bef}')
        || ('\u{c66}' <= c && c <= '\u{c6f}')
        || ('\u{ce6}' <= c && c <= '\u{cef}')
        || ('\u{d66}' <= c && c <= '\u{d6f}')
        || ('\u{de6}' <= c && c <= '\u{def}')
        || ('\u{e50}' <= c && c <= '\u{e59}')
        || ('\u{ed0}' <= c && c <= '\u{ed9}')
        || ('\u{f20}' <= c && c <= '\u{f29}')
        || ('\u{1040}' <= c && c <= '\u{1049}')
        || ('\u{1090}' <= c && c <= '\u{1099}')
        || ('\u{17e0}' <= c && c <= '\u{17e9}')
        || ('\u{1810}' <= c && c <= '\u{1819}')
        || ('\u{1946}' <= c && c <= '\u{194f}')
        || ('\u{19d0}' <= c && c <= '\u{19d9}')
        || ('\u{1a80}' <= c && c <= '\u{1a89}')
        || ('\u{1a90}' <= c && c <= '\u{1a99}')
        || ('\u{1b50}' <= c && c <= '\u{1b59}')
        || ('\u{1bb0}' <= c && c <= '\u{1bb9}')
        || ('\u{1c40}' <= c && c <= '\u{1c49}')
        || ('\u{1c50}' <= c && c <= '\u{1c59}')
        || ('\u{a620}' <= c && c <= '\u{a629}')
        || ('\u{a8d0}' <= c && c <= '\u{a8d9}')
        || ('\u{a900}' <= c && c <= '\u{a909}')
        || ('\u{a9d0}' <= c && c <= '\u{a9d9}')
        || ('\u{a9f0}' <= c && c <= '\u{a9f9}')
        || ('\u{aa50}' <= c && c <= '\u{aa59}')
        || ('\u{abf0}' <= c && c <= '\u{abf9}')
        || ('\u{ff10}' <= c && c <= '\u{ff19}')
        || ('\u{104a0}' <= c && c <= '\u{104a9}')
        || ('\u{10d30}' <= c && c <= '\u{10d39}')
        || ('\u{11066}' <= c && c <= '\u{1106f}')
        || ('\u{110f0}' <= c && c <= '\u{110f9}')
        || ('\u{11136}' <= c && c <= '\u{1113f}')
        || ('\u{111d0}' <= c && c <= '\u{111d9}')
        || ('\u{112f0}' <= c && c <= '\u{112f9}')
        || ('\u{11450}' <= c && c <= '\u{11459}')
        || ('\u{114d0}' <= c && c <= '\u{114d9}')
        || ('\u{11650}' <= c && c <= '\u{11659}')
        || ('\u{116c0}' <= c && c <= '\u{116c9}')
        || ('\u{11730}' <= c && c <= '\u{11739}')
        || ('\u{118e0}' <= c && c <= '\u{118e9}')
        || ('\u{11950}' <= c && c <= '\u{11959}')
        || ('\u{11c50}' <= c && c <= '\u{11c59}')
        || ('\u{11d50}' <= c && c <= '\u{11d59}')
        || ('\u{11da0}' <= c && c <= '\u{11da9}')
        || ('\u{16a60}' <= c && c <= '\u{16a69}')
        || ('\u{16ac0}' <= c && c <= '\u{16ac9}')
        || ('\u{16b50}' <= c && c <= '\u{16b59}')
        || ('\u{1d7ce}' <= c && c <= '\u{1d7ff}')
        || ('\u{1e140}' <= c && c <= '\u{1e149}')
        || ('\u{1e2f0}' <= c && c <= '\u{1e2f9}')
        || ('\u{1e950}' <= c && c <= '\u{1e959}')
        || ('\u{1fbf0}' <= c && c <= '\u{1fbf9}')
}

pub open spec fn is_ascii_digit(c: char) -> bool {
    '0' <= c && c <= '9'
}

/// The characters `s[from..to]` are all ASCII digits.
pub open spec fn all_ascii(s: Seq<char>, from: int, to: int) -> bool {
    forall|k: int| from <= k < to ==> is_ascii_digit(#[trigger] s[k])
}

/// A field could not be read: its number holds digits other than ASCII ones.
#[derive(PartialEq, Eq, Structural, Clone, Copy, Debug)]
pub struct MalformedField;

pub open spec fn is_blank(c: char) -> bool {
    c == ' ' || c == '\t' || c == '\n' || c == '\r' || c == '\x0B' || c == '\x0C'
}

pub open spec fn digit_val(c: char) -> nat {
    (c as nat - '0' as nat) as nat
}

/// The number written by a sequence of digits.
pub open spec fn digits_value(d: Seq<char>) -> nat
    decreases d.len(),
{
    if d.len() == 0 {
        0
    } else {
        digits_value(d.drop_last()) * 10 + digit_val(d.last())
    }
}

/// `v`, saturated at the largest `u64`.
pub open spec fn sat(v: nat) -> nat {
    if v <= u64::MAX { v } else { u64::MAX as nat }
}

/// `w` occurs in `s` at position `i`.
pub open spec fn has_at(s: Seq<char>, i: int, w: Seq<char>) -> bool {
    0 <= i && i + w.len() <= s.len() && s.subrange(i, i + w.len()) == w
}

/// `w` occurs somewhere in `s`.
pub open spec fn contains(s: Seq<char>, w: Seq<char>) -> bool {
    exists|i: int| has_at(s, i, w)
}

/// Number of consecutive digits of `s` from position `j`.
pub open spec fn digit_run(s: Seq<char>, j: int) -> nat
    decreases s.len() - j,
{
    if 0 <= j < s.len() && is_digit(s[j]) {
        1 + digit_run(s, j + 1)
    } else {
        0
    }
}

/// Number of consecutive blanks of `s` from position `j`.
pub open spec fn blank_run(s: Seq<char>, j: int) -> nat
    decreases s.len() - j,
{
    if 0 <= j < s.len() && is_blank(s[j]) {
        1 + blank_run(s, j + 1)
    } else {
        0
    }
}

pub open spec fn duration_tag() -> Seq<char> {
    seq!['D', 'u', 'r', 'a', 't', 'i', 'o', 'n', ':', ' ']
}

pub open spec fn time_tag() -> Seq<char> {
    seq!['t', 'i', 'm', 'e', '=']
}

pub open spec fn speed_tag() -> Seq<char> {
    seq!['s', 'p', 'e', 'e', 'd', '=']
}

pub open spec fn size_tag() -> Seq<char> {
    seq!['s', 'i', 'z', 'e', '=']
}

/// A clock `HH:MM:SS.FF` starts at position `j`.
pub open spec fn clock_at(s: Seq<char>, j: int) -> bool {
    &&& 0 <= j && j + 11 <= s.len()
    &&& is_digit(s[j]) && is_digit(s[j + 1]) && s[j + 2] == ':'
    &&& is_digit(s[j + 3]) && is_digit(s[j + 4]) && s[j + 5] == ':'
    &&& is_digit(s[j + 6]) && is_digit(s[j + 7]) && s[j + 8] == '.'
    &&& is_digit(s[j + 9]) && is_digit(s[j + 10])
}

pub open spec fn two_digits(s: Seq<char>, j: int) -> nat {
    digit_val(s[j]) * 10 + digit_val(s[j + 1])
}

/// Whole seconds of the clock at `j`; its hundredths are dropped.
pub open spec fn clock_secs(s: Seq<char>, j: int) -> nat {
    two_digits(s, j) * 3600 + two_digits(s, j + 3) * 60 + two_digits(s, j + 6)
}

/// Seconds of the leftmost `tag` followed by a clock, at or after `i`.
pub open spec fn first_clock(s: Seq<char>, tag: Seq<char>, i: int) -> Option<nat>
    decreases s.len() - i,
{
    if i < 0 || i >= s.len() {
        None
    } else if has_at(s, i, tag) && clock_at(s, i + tag.len()) {
        Some(clock_secs(s, i + tag.len()))
    } else {
        first_clock(s, tag, i + 1)
    }
}

/// The hours, minutes and seconds of the clock at `j` are ASCII digits.
pub open spec fn clock_ascii(s: Seq<char>, j: int) -> bool {
    &&& is_ascii_digit(s[j]) && is_ascii_digit(s[j + 1])
    &&& is_ascii_digit(s[j + 3]) && is_ascii_digit(s[j + 4])
    &&& is_ascii_digit(s[j + 6]) && is_ascii_digit(s[j + 7])
}

/// The leftmost `tag` followed by a clock, at or after `i`, is malformed.
pub open spec fn clock_malformed(s: Seq<char>, tag: Seq<char>, i: int) -> bool
    decreases s.len() - i,
{
    if i < 0 || i >= s.len() {
        false
    } else if has_at(s, i, tag) && clock_at(s, i + tag.len()) {
        !clock_ascii(s, i + tag.len())
    } else {
        clock_malformed(s, tag, i + 1)
    }
}

/// A speed field `speed=<digits>.<digits>` starts at `i`.
pub open spec fn speed_at(s: Seq<char>, i: int) -> bool {
    let j = i + 6;
    let a = digit_run(s, j);
    &&& has_at(s, i, speed_tag())
    &&& a > 0
    &&& j + a < s.len()
    &&& s[j + a] == '.'
    &&& digit_run(s, j + a + 1) > 0
}

/// The digits of the speed at `i` scaled to thousandths: the whole part, then
/// the first three decimals, padded with zeros.
pub open spec fn speed_digits(s: Seq<char>, i: int) -> Seq<char> {
    let j = i + 6;
    let a = digit_run(s, j) as int;
    let b = digit_run(s, j + a + 1) as int;
    s.subrange(j, j + a) + (s.subrange(j + a + 1, j + a + 1 + b) + seq!['0', '0', '0']).take(3)
}

/// Thousandths of the leftmost speed field at or after `i`, saturated.
pub open spec fn first_speed(s: Seq<char>, i: int) -> Option<nat>
    decreases s.len() - i,
{
    if i < 0 || i >= s.len() {
        None
    } else if speed_at(s, i) {
        Some(sat(digits_value(speed_digits(s, i))))
    } else {
        first_speed(s, i + 1)
    }
}

/// Both digit runs of the speed at `i` are ASCII digits.
pub open spec fn speed_ascii(s: Seq<char>, i: int) -> bool {
    let j = i + 6;
    let a = digit_run(s, j) as int;
    all_ascii(s, j, j + a) && all_ascii(s, j + a + 1, j + a + 1 + digit_run(s, j + a + 1))
}

/// The leftmost speed field at or after `i` is malformed.
pub open spec fn speed_malformed(s: Seq<char>, i: int) -> bool
    decreases s.len() - i,
{
    if i < 0 || i >= s.len() {
        false
    } else if speed_at(s, i) {
        !speed_ascii(s, i)
    } else {
        speed_malformed(s, i + 1)
    }
}

/// A size field `size=<blanks><digits>` starts at `i`.
pub open spec fn size_at(s: Seq<char>, i: int) -> bool {
    has_at(s, i, size_tag()) && digit_run(s, i + 5 + blank_run(s, i + 5)) > 0
}

/// The digits of the size field at `i`.
pub open spec fn size_digits(s: Seq<char>, i: int) -> Seq<char> {
    let j = i + 5 + blank_run(s, i + 5);
    s.subrange(j, j + digit_run(s, j))
}

/// Kilobytes of the leftmost size field at or after `i`, saturated.
pub open spec fn first_size(s: Seq<char>, i: int) -> Option<nat>
    decreases s.len() - i,
{
    if i < 0 || i >= s.len() {
        None
    } else if size_at(s, i) {
        Some(sat(digits_value(size_digits(s, i))))
    } else {
        first_size(s, i + 1)
    }
}

/// The digits of the size field at `i` are ASCII digits.
pub open spec fn size_ascii(s: Seq<char>, i: int) -> bool {
    let j = i + 5 + blank_run(s, i + 5);
    all_ascii(s, j, j + digit_run(s, j))
}

/// The leftmost size field at or after `i` is malformed.
pub open spec fn size_malformed(s: Seq<char>, i: int) -> bool
    decreases s.len() - i,
{
    if i < 0 || i >= s.len() {
        false
    } else if size_at(s, i) {
        !size_ascii(s, i)
    } else {
        size_malformed(s, i + 1)
    }
}

pub open spec fn some_u32(r: Option<u32>) -> Option<nat> {
    match r {
        Some(v) => Some(v as nat),
        None => None,
    }
}

pub open spec fn some_u64(r: Option<u64>) -> Option<nat> {
    match r {
        Some(v) => Some(v as nat),
        None => None,
    }
}

/// The characters of `s`.
pub fn chars_of(s: &str) -> (r: Vec<char>)
    ensures
        r@ == s@,
{
    let n = s.unicode_len();
    let mut v: Vec<char> = Vec::new();
    let mut i: usize = 0;
    while i < n
        invariant
            n == s@.len(),
            i <= n,
            v@ == s@.subrange(0, i as int),
        decreases n - i,
    {
        v.push(s.get_char(i));
        i = i + 1;
        assert(v@ =~= s@.subrange(0, i as int));
    }
    assert(v@ =~= s@);
    v
}

/// Whether `w` occurs in `s` at position `i`.
fn has_at_exec(s: &[char], i: usize, w: &[char]) -> (r: bool)
    ensures
        r == has_at(s@, i as int, w@),
{
    if i > s.len() || w.len() > s.len() - i {
        return false;
    }
    let mut k: usize = 0;
    while k < w.len()
        invariant
            i + w@.len() <= s@.len(),
            s@.len() <= usize::MAX,
            k <= w@.len(),
            forall|m: int| 0 <= m < k ==> s@[i + m] == w@[m],
        decreases w.len() - k,
    {
        assert(i + k < s@.len());
        if s[i + k] != w[k] {
            assert(s@.subrange(i as int, i + w@.len())[k as int] != w@[k as int]);
            return false;
        }
        k = k + 1;
    }
    assert(s@.subrange(i as int, i + w@.len()) =~= w@);
    true
}

/// Whether `w` occurs somewhere in `s`.
pub fn contains_exec(s: &[char], w: &[char]) -> (r: bool)
    ensures
        r == contains(s@, w@),
{
    if w.len() == 0 {
        assert(has_at(s@, 0, w@)) by {
            assert(s@.subrange(0, 0) =~= w@);
        }
        return true;
    }
    let mut i: usize = 0;
    while i < s.len()
        invariant
            i <= s@.len(),
            w@.len() > 0,
            forall|k: int| 0 <= k < i ==> !has_at(s@, k, w@),
        decreases s.len() - i,
    {
        if has_at_exec(s, i, w) {
            return true;
        }
        i = i + 1;
    }
    assert forall|k: int| !has_at(s@, k, w@) by {
        if 0 <= k < i {
        }
    }
    false
}

fn is_digit_exec(c: char) -> (r: bool)
    ensures
        r == is_digit(c),
{
    ('0' <= c && c <= '9')
        || ('\u{660}' <= c && c <= '\u{669}')
        || ('\u{6f0}' <= c && c <= '\u{6f9}')
        || ('\u{7c0}' <= c && c <= '\u{7c9}')
        || ('\u{966}' <= c && c <= '\u{96f}')
        || ('\u{9e6}' <= c && c <= '\u{9ef}')
        || ('\u{a66}' <= c && c <= '\u{a6f}')
        || ('\u{ae6}' <= c && c <= '\u{aef}')
        || ('\u{b66}' <= c && c <= '\u{b6f}')
        || ('\u{be6}' <= c && c <= '\u{bef}')
        || ('\u{c66}' <= c && c <= '\u{c6f}')
        || ('\u{ce6}' <= c && c <= '\u{cef}')
        || ('\u{d66}' <= c && c <= '\u{d6f}')
        || ('\u{de6}' <= c && c <= '\u{def}')
        || ('\u{e50}' <= c && c <= '\u{e59}')
        || ('\u{ed0}' <= c && c <= '\u{ed9}')
        || ('\u{f20}' <= c && c <= '\u{f29}')
        || ('\u{1040}' <= c && c <= '\u{1049}')
        || ('\u{1090}' <= c && c <= '\u{1099}')
        || ('\u{17e0}' <= c && c <= '\u{17e9}')
        || ('\u{1810}' <= c && c <= '\u{1819}')
        || ('\u{1946}' <= c && c <= '\u{194f}')
        || ('\u{19d0}' <= c && c <= '\u{19d9}')
        || ('\u{1a80}' <= c && c <= '\u{1a89}')
        || ('\u{1a90}' <= c && c <= '\u{1a99}')
        || ('\u{1b50}' <= c && c <= '\u{1b59}')
        || ('\u{1bb0}' <= c && c <= '\u{1bb9}')
        || ('\u{1c40}' <= c && c <= '\u{1c49}')
        || ('\u{1c50}' <= c && c <= '\u{1c59}')
        || ('\u{a620}' <= c && c <= '\u{a629}')
        || ('\u{a8d0}' <= c && c <= '\u{a8d9}')
        || ('\u{a900}' <= c && c <= '\u{a909}')
        || ('\u{a9d0}' <= c && c <= '\u{a9d9}')
        || ('\u{a9f0}' <= c && c <= '\u{a9f9}')
        || ('\u{aa50}' <= c && c <= '\u{aa59}')
        || ('\u{abf0}' <= c && c <= '\u{abf9}')
        || ('\u{ff10}' <= c && c <= '\u{ff19}')
        || ('\u{104a0}' <= c && c <= '\u{104a9}')
        || ('\u{10d30}' <= c && c <= '\u{10d39}')
        || ('\u{11066}' <= c && c <= '\u{1106f}')
        || ('\u{110f0}' <= c && c <= '\u{110f9}')
        || ('\u{11136}' <= c && c <= '\u{1113f}')
        || ('\u{111d0}' <= c && c <= '\u{111d9}')
        || ('\u{112f0}' <= c && c <= '\u{112f9}')
        || ('\u{11450}' <= c && c <= '\u{11459}')
        || ('\u{114d0}' <= c && c <= '\u{114d9}')
        || ('\u{11650}' <= c && c <= '\u{11659}')
        || ('\u{116c0}' <= c && c <= '\u{116c9}')
        || ('\u{11730}' <= c && c <= '\u{11739}')
        || ('\u{118e0}' <= c && c <= '\u{118e9}')
        || ('\u{11950}' <= c && c <= '\u{11959}')
        || ('\u{11c50}' <= c && c <= '\u{11c59}')
        || ('\u{11d50}' <= c && c <= '\u{11d59}')
        || ('\u{11da0}' <= c && c <= '\u{11da9}')
        || ('\u{16a60}' <= c && c <= '\u{16a69}')
        || ('\u{16ac0}' <= c && c <= '\u{16ac9}')
        || ('\u{16b50}' <= c && c <= '\u{16b59}')
        || ('\u{1d7ce}' <= c && c <= '\u{1d7ff}')
        || ('\u{1e140}' <= c && c <= '\u{1e149}')
        || ('\u{1e2f0}' <= c && c <= '\u{1e2f9}')
        || ('\u{1e950}' <= c && c <= '\u{1e959}')
        || ('\u{1fbf0}' <= c && c <= '\u{1fbf9}')
}

fn is_ascii_digit_exec(c: char) -> (r: bool)
    ensures
        r == is_ascii_digit(c),
{
    '0' <= c && c <= '9'
}

/// Whether `s[from..to]` are all ASCII digits.
fn all_ascii_exec(s: &[char], from: usize, to: usize) -> (r: bool)
    requires
        from <= to <= s@.len(),
    ensures
        r == all_ascii(s@, from as int, to as int),
{
    let mut k: usize = from;
    while k < to
        invariant
            from <= k <= to <= s@.len(),
            all_ascii(s@, from as int, k as int),
        decreases to - k,
    {
        if !is_ascii_digit_exec(s[k]) {
            return false;
        }
        k = k + 1;
    }
    true
}

fn is_blank_exec(c: char) -> (r: bool)
    ensures
        r == is_blank(c),
{
    c == ' ' || c == '\t' || c == '\n' || c == '\r' || c == '\x0B' || c == '\x0C'
}

/// Number of consecutive digits of `s` from position `j`.
fn digit_run_exec(s: &[char], j: usize) -> (r: usize)
    requires
        j <= s@.len(),
    ensures
        r == digit_run(s@, j as int),
        j + r <= s@.len(),
{
    let mut k: usize = j;
    while k < s.len() && is_digit_exec(s[k])
        invariant
            j <= k <= s@.len(),
            digit_run(s@, j as int) == (k - j) + digit_run(s@, k as int),
        decreases s.len() - k,
    {
        k = k + 1;
    }
    k - j
}

/// Number of consecutive blanks of `s` from position `j`.
fn blank_run_exec(s: &[char], j: usize) -> (r: usize)
    requires
        j <= s@.len(),
    ensures
        r == blank_run(s@, j as int),
        j + r <= s@.len(),
{
    let mut k: usize = j;
    while k < s.len() && is_blank_exec(s[k])
        invariant
            j <= k <= s@.len(),
            blank_run(s@, j as int) == (k - j) + blank_run(s@, k as int),
        decreases s.len() - k,
    {
        k = k + 1;
    }
    k - j
}

proof fn lemma_digits_push(d: Seq<char>, c: char)
    ensures
        digits_value(d.push(c)) == digits_value(d) * 10 + digit_val(c),
{
    assert(d.push(c).drop_last() =~= d);
}

/// Appends one digit to a saturated value.
fn push_digit_sat(acc: u64, c: char, Ghost(v): Ghost<nat>) -> (r: u64)
    requires
        is_ascii_digit(c),
        acc == sat(v),
    ensures
        r == sat(v * 10 + digit_val(c)),
{
    let d = (c as u32 - '0' as u32) as u64;
    assert(d == digit_val(c));
    if acc > (u64::MAX - d) / 10 {
        assert(v * 10 + d > u64::MAX) by (nonlinear_arith)
            requires
                acc > (u64::MAX - d) / 10,
                acc <= v,
                d <= 9,
        ;
        u64::MAX
    } else {
        assert(acc == v);
        acc * 10 + d
    }
}

/// The saturated number written by the digits `s[from..to]`.
fn digits_sat(s: &[char], from: usize, to: usize) -> (r: u64)
    requires
        from <= to <= s@.len(),
        all_ascii(s@, from as int, to as int),
    ensures
        r == sat(digits_value(s@.subrange(from as int, to as int))),
{
    let mut acc: u64 = 0;
    let mut k: usize = from;
    assert(s@.subrange(from as int, from as int).len() == 0);
    while k < to
        invariant
            from <= k <= to <= s@.len(),
            all_ascii(s@, from as int, to as int),
            acc == sat(digits_value(s@.subrange(from as int, k as int))),
        decreases to - k,
    {
        let ghost prev = s@.subrange(from as int, k as int);
        acc = push_digit_sat(acc, s[k], Ghost(digits_value(prev)));
        proof {
            lemma_digits_push(prev, s@[k as int]);
            assert(prev.push(s@[k as int]) =~= s@.subrange(from as int, k + 1));
        }
        k = k + 1;
    }
    acc
}

/// Whether a clock `HH:MM:SS.FF` starts at position `j`.
fn clock_at_exec(s: &[char], j: usize) -> (r: bool)
    ensures
        r == clock_at(s@, j as int),
{
    if j > s.len() || s.len() - j < 11 {
        return false;
    }
    is_digit_exec(s[j]) && is_digit_exec(s[j + 1]) && s[j + 2] == ':'
        && is_digit_exec(s[j + 3]) && is_digit_exec(s[j + 4]) && s[j + 5] == ':'
        && is_digit_exec(s[j + 6]) && is_digit_exec(s[j + 7]) && s[j + 8] == '.'
        && is_digit_exec(s[j + 9]) && is_digit_exec(s[j + 10])
}

fn two_digits_exec(s: &[char], j: usize) -> (r: u32)
    requires
        j + 1 < s@.len(),
        is_ascii_digit(s@[j as int]),
        is_ascii_digit(s@[j + 1]),
    ensures
        r == two_digits(s@, j as int),
        r <= 99,
{
    (s[j] as u32 - '0' as u32) * 10 + (s[j + 1] as u32 - '0' as u32)
}

/// Seconds of the leftmost `tag` followed by a clock.
fn find_clock(s: &[char], tag: &[char]) -> (r: Result<Option<u32>, MalformedField>)
    ensures
        r is Err == clock_malformed(s@, tag@, 0),
        r is Ok ==> some_u32(r->Ok_0) == first_clock(s@, tag@, 0),
{
    let mut i: usize = 0;
    while i < s.len()
        invariant
            i <= s@.len(),
            first_clock(s@, tag@, 0) == first_clock(s@, tag@, i as int),
            clock_malformed(s@, tag@, 0) == clock_malformed(s@, tag@, i as int),
        decreases s.len() - i,
    {
        if has_at_exec(s, i, tag) && clock_at_exec(s, i + tag.len()) {
            let j = i + tag.len();
            if !(is_ascii_digit_exec(s[j]) && is_ascii_digit_exec(s[j + 1])
                && is_ascii_digit_exec(s[j + 3]) && is_ascii_digit_exec(s[j + 4])
                && is_ascii_digit_exec(s[j + 6]) && is_ascii_digit_exec(s[j + 7])) {
                return Err(MalformedField);
            }
            let h = two_digits_exec(s, j);
            let m = two_digits_exec(s, j + 3);
            let sec = two_digits_exec(s, j + 6);
            return Ok(Some(h * 3600 + m * 60 + sec));
        }
        i = i + 1;
    }
    Ok(None)
}

/// Seconds of the stream duration announced in a unit (`Duration: HH:MM:SS.FF`),
/// if the unit holds one; an error if that field is malformed.
pub fn duration_field(s: &[char]) -> (r: Result<Option<u32>, MalformedField>)
    ensures
        r is Err == clock_malformed(s@, duration_tag(), 0),
        r is Ok ==> some_u32(r->Ok_0) == first_clock(s@, duration_tag(), 0),
{
    let tag = ['D', 'u', 'r', 'a', 't', 'i', 'o', 'n', ':', ' '];
    assert(tag@ =~= duration_tag());
    find_clock(s, &tag)
}

/// Seconds of the elapsed media time reported in a unit (`time=HH:MM:SS.FF`),
/// if the unit holds one; an error if that field is malformed.
pub fn time_field(s: &[char]) -> (r: Result<Option<u32>, MalformedField>)
    ensures
        r is Err == clock_malformed(s@, time_tag(), 0),
        r is Ok ==> some_u32(r->Ok_0) == first_clock(s@, time_tag(), 0),
{
    let tag = ['t', 'i', 'm', 'e', '='];
    assert(tag@ =~= time_tag());
    find_clock(s, &tag)
}

/// Whether a speed field starts at `i`.
fn speed_at_exec(s: &[char], i: usize) -> (r: bool)
    ensures
        r == speed_at(s@, i as int),
{
    let tag = ['s', 'p', 'e', 'e', 'd', '='];
    assert(tag@ =~= speed_tag());
    let n = s.len();
    if !has_at_exec(s, i, &tag) {
        return false;
    }
    let j = i + 6;
    let a = digit_run_exec(s, j);
    if a == 0 || j + a >= s.len() || s[j + a] != '.' {
        return false;
    }
    digit_run_exec(s, j + a + 1) > 0
}

/// Thousandths of the speed field at `i`.
fn speed_value(s: &[char], i: usize) -> (r: u64)
    requires
        speed_at(s@, i as int),
        speed_ascii(s@, i as int),
    ensures
        r == sat(digits_value(speed_digits(s@, i as int))),
{
    let n = s.len();
    let j = i + 6;
    let a = digit_run_exec(s, j);
    let b = digit_run_exec(s, j + a + 1);
    let ghost whole = s@.subrange(j as int, j + a);
    let ghost frac = s@.subrange(j + a + 1, j + a + 1 + b);
    let ghost pad = (frac + seq!['0', '0', '0']).take(3);
    let mut acc = digits_sat(s, j, j + a);
    let mut m: usize = 0;
    while m < 3
        invariant
            m <= 3,
            b == frac.len(),
            j + a + 1 + b <= s@.len(),
            s@.len() == n,
            frac == s@.subrange(j + a + 1, j + a + 1 + b),
            pad == (frac + seq!['0', '0', '0']).take(3),
            all_ascii(s@, j + a + 1, j + a + 1 + b),
            acc == sat(digits_value(whole + pad.take(m as int))),
        decreases 3 - m,
    {
        let c = if m < b { s[j + a + 1 + m] } else { '0' };
        assert(c == pad[m as int]);
        let ghost before = whole + pad.take(m as int);
        acc = push_digit_sat(acc, c, Ghost(digits_value(before)));
        proof {
            lemma_digits_push(before, c);
            assert(before.push(c) =~= whole + pad.take(m + 1));
        }
        m = m + 1;
    }
    assert(pad.take(3) =~= pad);
    acc
}

/// Thousandths of the processing speed reported in a unit
/// (`speed=<digits>.<digits>`), saturated, if the unit holds one; an error if
/// that field is malformed. Decimals beyond the third are dropped.
pub fn speed_field(s: &[char]) -> (r: Result<Option<u64>, MalformedField>)
    ensures
        r is Err == speed_malformed(s@, 0),
        r is Ok ==> some_u64(r->Ok_0) == first_speed(s@, 0),
{
    let mut i: usize = 0;
    while i < s.len()
        invariant
            i <= s@.len(),
            first_speed(s@, 0) == first_speed(s@, i as int),
            speed_malformed(s@, 0) == speed_malformed(s@, i as int),
        decreases s.len() - i,
    {
        if speed_at_exec(s, i) {
            let j = i + 6;
            let a = digit_run_exec(s, j);
            let b = digit_run_exec(s, j + a + 1);
            if !(all_ascii_exec(s, j, j + a) && all_ascii_exec(s, j + a + 1, j + a + 1 + b)) {
                return Err(MalformedField);
            }
            return Ok(Some(speed_value(s, i)));
        }
        i = i + 1;
    }
    Ok(None)
}

/// Whether a size field starts at `i`.
fn size_at_exec(s: &[char], i: usize) -> (r: bool)
    ensures
        r == size_at(s@, i as int),
{
    let tag = ['s', 'i', 'z', 'e', '='];
    assert(tag@ =~= size_tag());
    let n = s.len();
    if !has_at_exec(s, i, &tag) {
        return false;
    }
    let j = i + 5 + blank_run_exec(s, i + 5);
    digit_run_exec(s, j) > 0
}

/// Kilobytes written so far as reported in a unit (`size=<blanks><digits>`),
/// saturated, if the unit holds one; an error if that field is malformed.
pub fn size_field(s: &[char]) -> (r: Result<Option<u64>, MalformedField>)
    ensures
        r is Err == size_malformed(s@, 0),
        r is Ok ==> some_u64(r->Ok_0) == first_size(s@, 0),
{
    let mut i: usize = 0;
    while i < s.len()
        invariant
            i <= s@.len(),
            first_size(s@, 0) == first_size(s@, i as int),
            size_malformed(s@, 0) == size_malformed(s@, i as int),
        decreases s.len() - i,
    {
        if size_at_exec(s, i) {
            let j = i + 5 + blank_run_exec(s, i + 5);
            let d = digit_run_exec(s, j);
            if !all_ascii_exec(s, j, j + d) {
                return Err(MalformedField);
            }
            return Ok(Some(digits_sat(s, j, j + d)));
        }
        i = i + 1;
    }
    Ok(None)
}

/// The text by which the subprocess asks whether to overwrite an existing file.
pub open spec fn prompt_marker() -> Seq<char> {
    seq!['a', 'l', 'r', 'e', 'a', 'd', 'y', ' ', 'e', 'x', 'i', 's', 't', 's', '.', ' ', 'O', 'v', 'e', 'r', 'w', 'r', 'i', 't', 'e', '?', ' ', '[', 'y', '/', 'N']
}

/// Whether a unit holds the overwrite question.
pub fn is_prompt(s: &[char]) -> (r: bool)
    ensures
        r == contains(s@, prompt_marker()),
{
    let marker = ['a', 'l', 'r', 'e', 'a', 'd', 'y', ' ', 'e', 'x', 'i', 's', 't', 's', '.', ' ', 'O', 'v', 'e', 'r', 'w', 'r', 'i', 't', 'e', '?', ' ', '[', 'y', '/', 'N'];
    assert(marker@ =~= prompt_marker());
    contains_exec(s, &marker)
}

/// Position just after the last newline among the first `k` characters of
/// `s`, or 0 when there is none.
pub open spec fn line_start(s: Seq<char>, k: int) -> int
    decreases k,
{
    if k <= 0 {
        0
    } else if s[k - 1] == '\n' {
        k
    } else {
        line_start(s, k - 1)
    }
}

/// What follows the last newline of `s`: all of `s` when it has none.
pub open spec fn last_line(s: Seq<char>) -> Seq<char> {
    s.subrange(line_start(s, s.len() as int), s.len() as int)
}

/// Position just after the last newline of `s`, or 0 when there is none.
pub fn last_line_start(s: &[char]) -> (r: usize)
    ensures
        r == line_start(s@, s@.len() as int),
        r <= s@.len(),
{
    let mut k: usize = s.len();
    while k > 0 && s[k - 1] != '\n'
        invariant
            k <= s@.len(),
            line_start(s@, s@.len() as int) == line_start(s@, k as int),
        decreases k,
    {
        k = k - 1;
    }
    k
}

} // verus!
