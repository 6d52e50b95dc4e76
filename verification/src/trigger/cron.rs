//! Vixie / POSIX 5-field cron parser.
//!
//! Only the shapes the trigger needs are supported: `*`, integer atoms, month and weekday
//! names, ranges (`a-b`), lists (`a,b,c`) and steps (`*/k` or `a-b/k`).
use std::collections::BTreeSet;

use vstd::prelude::*;
use vstd::utf8::encode_utf8;

use crate::bytes::{le_bytes_i64, write_i64_le, write_slice};
use crate::VigylError;

verus! {

// ---------------------------------------------------------------------------------------------
// The character classes and scanning functions the grammar is written in
// ---------------------------------------------------------------------------------------------

/// Unicode `White_Space`: what trimming removes.
pub open spec fn is_unicode_ws(c: char) -> bool {
    let u = c as u32;
    ||| 9 <= u <= 13
    ||| u == 32
    ||| u == 0x85
    ||| u == 0xa0
    ||| u == 0x1680
    ||| 0x2000 <= u <= 0x200a
    ||| u == 0x2028
    ||| u == 0x2029
    ||| u == 0x202f
    ||| u == 0x205f
    ||| u == 0x3000
}

/// ASCII whitespace: what separates the five fields (vertical tab is not among them).
pub open spec fn is_ascii_ws(c: char) -> bool {
    c == ' ' || c == '\t' || c == '\n' || c == '\x0C' || c == '\r'
}

/// `s` without its leading whitespace.
pub open spec fn trim_left(s: Seq<char>) -> Seq<char>
    decreases s.len(),
{
    if s.len() > 0 && is_unicode_ws(s[0]) {
        trim_left(s.drop_first())
    } else {
        s
    }
}

/// `s` without its trailing whitespace.
pub open spec fn trim_right(s: Seq<char>) -> Seq<char>
    decreases s.len(),
{
    if s.len() > 0 && is_unicode_ws(s.last()) {
        trim_right(s.drop_last())
    } else {
        s
    }
}

/// `s` without leading and trailing whitespace.
pub open spec fn trim(s: Seq<char>) -> Seq<char> {
    trim_right(trim_left(s))
}

/// The first index at or after `i` that holds `c`, or the length when there is none.
pub open spec fn find_from(s: Seq<char>, c: char, i: int) -> int
    decreases s.len() - i,
{
    if i < 0 || i >= s.len() {
        s.len() as int
    } else if s[i] == c {
        i
    } else {
        find_from(s, c, i + 1)
    }
}

/// The first index at or after `i` that is not ASCII whitespace, or the length.
pub open spec fn skip_ascii_ws(s: Seq<char>, i: int) -> int
    decreases s.len() - i,
{
    if 0 <= i < s.len() && is_ascii_ws(s[i]) {
        skip_ascii_ws(s, i + 1)
    } else {
        i
    }
}

/// The first index at or after `i` that is ASCII whitespace, or the length.
pub open spec fn token_end(s: Seq<char>, i: int) -> int
    decreases s.len() - i,
{
    if 0 <= i < s.len() && !is_ascii_ws(s[i]) {
        token_end(s, i + 1)
    } else {
        i
    }
}

pub proof fn lemma_skip_ascii_ws_bounds(s: Seq<char>, i: int)
    requires
        0 <= i <= s.len(),
    ensures
        i <= skip_ascii_ws(s, i) <= s.len(),
        skip_ascii_ws(s, i) < s.len() ==> !is_ascii_ws(s[skip_ascii_ws(s, i)]),
    decreases s.len() - i,
{
    if i < s.len() && is_ascii_ws(s[i]) {
        lemma_skip_ascii_ws_bounds(s, i + 1);
    }
}

pub proof fn lemma_token_end_bounds(s: Seq<char>, i: int)
    requires
        0 <= i <= s.len(),
    ensures
        i <= token_end(s, i) <= s.len(),
        i < s.len() && !is_ascii_ws(s[i]) ==> i < token_end(s, i),
    decreases s.len() - i,
{
    if i < s.len() && !is_ascii_ws(s[i]) {
        lemma_token_end_bounds(s, i + 1);
    }
}

pub proof fn lemma_find_from_bounds(s: Seq<char>, c: char, i: int)
    requires
        0 <= i <= s.len(),
    ensures
        i <= find_from(s, c, i) <= s.len(),
        find_from(s, c, i) < s.len() ==> s[find_from(s, c, i)] == c,
        forall|k: int| i <= k < find_from(s, c, i) ==> s[k] != c,
    decreases s.len() - i,
{
    if i < s.len() && s[i] != c {
        lemma_find_from_bounds(s, c, i + 1);
    }
}

/// The ASCII-whitespace separated fields of `s` from index `i` on, none of them empty.
pub open spec fn fields_from(s: Seq<char>, i: int) -> Seq<Seq<char>>
    decreases s.len() - i,
{
    if i < 0 || i > s.len() {
        Seq::empty()
    } else {
        let j = skip_ascii_ws(s, i);
        if j >= s.len() {
            Seq::empty()
        } else {
            let k = token_end(s, j);
            proof {
                lemma_skip_ascii_ws_bounds(s, i);
                lemma_token_end_bounds(s, j);
            }
            seq![s.subrange(j, k)] + fields_from(s, k)
        }
    }
}

// ---------------------------------------------------------------------------------------------
// Numbers and names
// ---------------------------------------------------------------------------------------------

/// Whether every character of `d` is an ASCII digit.
pub open spec fn all_digits(d: Seq<char>) -> bool {
    forall|k: int| 0 <= k < d.len() ==> 48 <= (#[trigger] d[k]) as u32 <= 57
}

/// The decimal value of a digit string.
pub open spec fn digits_value(d: Seq<char>) -> nat
    decreases d.len(),
{
    if d.len() == 0 {
        0
    } else {
        digits_value(d.drop_last()) * 10 + ((d.last() as u32) - 48) as nat
    }
}

/// The digits of an unsigned number: an optional leading `+` is not one of them.
pub open spec fn number_body(t: Seq<char>) -> Seq<char> {
    if t.len() > 0 && t[0] == '+' {
        t.drop_first()
    } else {
        t
    }
}

/// The byte that `s` spells as an unsigned decimal after trimming, if any.
pub open spec fn parse_u8(s: Seq<char>) -> Option<u8> {
    let d = number_body(trim(s));
    if d.len() > 0 && all_digits(d) && digits_value(d) <= 255 {
        Some(digits_value(d) as u8)
    } else {
        None
    }
}

/// `s` with the ASCII lower-case letters made upper-case.
pub open spec fn ascii_upper(s: Seq<char>) -> Seq<char> {
    s.map_values(|c: char| upper_char(c))
}

/// `c` made upper-case when it is an ASCII lower-case letter.
pub open spec fn upper_char(c: char) -> char {
    if 97 <= c as u32 <= 122 {
        ((c as u32) - 32) as char
    } else {
        c
    }
}

/// Whether `s` is the three letters `a`, `b`, `c`.
pub open spec fn is_word(s: Seq<char>, a: char, b: char, c: char) -> bool {
    s.len() == 3 && s[0] == a && s[1] == b && s[2] == c
}

/// The month a three-letter upper-case name stands for.
pub open spec fn month_alias(s: Seq<char>) -> Option<u8> {
    if is_word(s, 'J', 'A', 'N') {
        Some(1u8)
    } else if is_word(s, 'F', 'E', 'B') {
        Some(2u8)
    } else if is_word(s, 'M', 'A', 'R') {
        Some(3u8)
    } else if is_word(s, 'A', 'P', 'R') {
        Some(4u8)
    } else if is_word(s, 'M', 'A', 'Y') {
        Some(5u8)
    } else if is_word(s, 'J', 'U', 'N') {
        Some(6u8)
    } else if is_word(s, 'J', 'U', 'L') {
        Some(7u8)
    } else if is_word(s, 'A', 'U', 'G') {
        Some(8u8)
    } else if is_word(s, 'S', 'E', 'P') {
        Some(9u8)
    } else if is_word(s, 'O', 'C', 'T') {
        Some(10u8)
    } else if is_word(s, 'N', 'O', 'V') {
        Some(11u8)
    } else if is_word(s, 'D', 'E', 'C') {
        Some(12u8)
    } else {
        None
    }
}

/// The weekday a three-letter upper-case name stands for (Sunday is 0).
pub open spec fn day_alias(s: Seq<char>) -> Option<u8> {
    if is_word(s, 'S', 'U', 'N') {
        Some(0u8)
    } else if is_word(s, 'M', 'O', 'N') {
        Some(1u8)
    } else if is_word(s, 'T', 'U', 'E') {
        Some(2u8)
    } else if is_word(s, 'W', 'E', 'D') {
        Some(3u8)
    } else if is_word(s, 'T', 'H', 'U') {
        Some(4u8)
    } else if is_word(s, 'F', 'R', 'I') {
        Some(5u8)
    } else if is_word(s, 'S', 'A', 'T') {
        Some(6u8)
    } else {
        None
    }
}

// ---------------------------------------------------------------------------------------------
// What goes wrong, and how it reads
// ---------------------------------------------------------------------------------------------

/// Why an expression is rejected. Field numbers count from 1.
pub enum CronFault {
    Empty,
    TooLong,
    FieldCount(nat),
    ZeroStep(nat),
    OutOfRange(nat),
    EmptySet(nat),
    BadNumber(Seq<char>),
}

/// The character of a decimal digit.
pub open spec fn digit_char(d: nat) -> char {
    (48 + d) as char
}

/// The decimal spelling of `n`.
pub open spec fn decimal(n: nat) -> Seq<char>
    decreases n,
{
    if n < 10 {
        seq![digit_char(n)]
    } else {
        decimal(n / 10).push(digit_char(n % 10))
    }
}

/// The message an `InvalidCron` error carries for each fault.
pub open spec fn fault_message(f: CronFault) -> Seq<char> {
    match f {
        CronFault::Empty => "empty expression"@,
        CronFault::TooLong => "expression exceeds 40 characters (on-chain buffer)"@,
        CronFault::FieldCount(n) => "expected 5 fields, got "@ + decimal(n),
        CronFault::ZeroStep(i) => "step must be > 0 at field "@ + decimal(i),
        CronFault::OutOfRange(i) => "value out of range at field "@ + decimal(i),
        CronFault::EmptySet(i) => "empty set at field "@ + decimal(i),
        CronFault::BadNumber(s) => "invalid number \""@ + s + "\""@,
    }
}

/// Whether `e` is the `InvalidCron` error for fault `f`.
pub open spec fn is_cron_error(e: VigylError, f: CronFault) -> bool {
    e matches VigylError::InvalidCron(m) && m@ == fault_message(f)
}

// ---------------------------------------------------------------------------------------------
// Executable scanning
// ---------------------------------------------------------------------------------------------

/// Calls `String::push`. Trusted: the string afterwards is the string before with `c` appended.
#[verifier::external_body]
fn push_char(s: &mut String, c: char)
    ensures
        final(s)@ == old(s)@.push(c),
{
    s.push(c);
}

/// Appends the decimal spelling of `n`.
fn push_decimal(s: &mut String, n: usize)
    ensures
        final(s)@ == old(s)@ + decimal(n as nat),
    decreases n,
{
    if n >= 10 {
        push_decimal(s, n / 10);
    }
    let d = (n % 10) as u8;
    let c = (48u8 + d) as char;
    assert(c == digit_char((n % 10) as nat));
    push_char(s, c);
    assert(s@ =~= old(s)@ + decimal(n as nat));
}

/// `prefix` followed by the decimal spelling of `n`.
fn numbered_message(prefix: &str, n: usize) -> (m: String)
    ensures
        m@ == prefix@ + decimal(n as nat),
{
    let mut m = String::from_str(prefix);
    push_decimal(&mut m, n);
    m
}

/// The characters of `s`, in order.
fn chars_of(s: &str) -> (v: Vec<char>)
    ensures
        v@ == s@,
{
    let mut v: Vec<char> = Vec::new();
    for c in it: s.chars()
        invariant
            it.seq() == s@,
            v@ == s@.take(it.index()),
        ensures
            v@ == s@,
    {
        v.push(c);
        assert(v@ =~= s@.take(it.index() + 1));
    }
    v
}

/// The characters of `v` from `a` up to `b`.
fn slice_chars(v: &Vec<char>, a: usize, b: usize) -> (r: Vec<char>)
    requires
        a <= b <= v@.len(),
    ensures
        r@ == v@.subrange(a as int, b as int),
{
    let mut r: Vec<char> = Vec::new();
    let mut i: usize = a;
    while i < b
        invariant
            a <= i <= b <= v@.len(),
            r@ == v@.subrange(a as int, i as int),
        decreases b - i,
    {
        r.push(v[i]);
        i += 1;
        assert(r@ =~= v@.subrange(a as int, i as int));
    }
    r
}

fn is_ws(c: char) -> (b: bool)
    ensures
        b == is_unicode_ws(c),
{
    let u = c as u32;
    (9 <= u && u <= 13) || u == 32 || u == 0x85 || u == 0xa0 || u == 0x1680 || (0x2000 <= u && u
        <= 0x200a) || u == 0x2028 || u == 0x2029 || u == 0x202f || u == 0x205f || u == 0x3000
}

fn is_aws(c: char) -> (b: bool)
    ensures
        b == is_ascii_ws(c),
{
    c == ' ' || c == '\t' || c == '\n' || c == '\x0C' || c == '\r'
}

/// Where the trimmed part of `v` starts and ends.
fn trim_bounds(v: &Vec<char>) -> (r: (usize, usize))
    ensures
        r.0 <= r.1 <= v@.len(),
        v@.subrange(r.0 as int, r.1 as int) == trim(v@),
{
    let n = v.len();
    let mut a: usize = 0;
    assert(v@.subrange(0, n as int) =~= v@);
    while a < n && is_ws(v[a])
        invariant
            n == v@.len(),
            a <= n,
            trim_left(v@.subrange(a as int, n as int)) == trim_left(v@),
        decreases n - a,
    {
        assert(v@.subrange(a as int, n as int).drop_first() =~= v@.subrange(a + 1, n as int));
        a += 1;
    }
    let mut b: usize = n;
    assert(trim_left(v@) == v@.subrange(a as int, n as int));
    while b > a && is_ws(v[b - 1])
        invariant
            n == v@.len(),
            a <= b <= n,
            trim_left(v@) == v@.subrange(a as int, n as int),
            trim_right(v@.subrange(a as int, b as int)) == trim(v@),
        decreases b - a,
    {
        assert(v@.subrange(a as int, b as int).drop_last() =~= v@.subrange(a as int, b - 1));
        b -= 1;
    }
    (a, b)
}

/// `v` without leading and trailing whitespace.
fn trimmed(v: &Vec<char>) -> (r: Vec<char>)
    ensures
        r@ == trim(v@),
{
    let (a, b) = trim_bounds(v);
    slice_chars(v, a, b)
}

/// The first index at or after `from` that holds `c`, or the length.
fn find_char(v: &Vec<char>, c: char, from: usize) -> (k: usize)
    requires
        from <= v@.len(),
    ensures
        k == find_from(v@, c, from as int),
{
    let mut k = from;
    while k < v.len() && v[k] != c
        invariant
            from <= k <= v@.len(),
            find_from(v@, c, k as int) == find_from(v@, c, from as int),
        decreases v@.len() - k,
    {
        k += 1;
    }
    k
}

/// `v` with ASCII lower-case letters made upper-case.
fn upper(v: &Vec<char>) -> (r: Vec<char>)
    ensures
        r@ == ascii_upper(v@),
{
    let mut r: Vec<char> = Vec::new();
    let mut i: usize = 0;
    while i < v.len()
        invariant
            i <= v@.len(),
            r@ == ascii_upper(v@.take(i as int)),
        decreases v@.len() - i,
    {
        let c = v[i];
        let u = c as u32;
        let d = if 97 <= u && u <= 122 {
            ((u - 32) as u8) as char
        } else {
            c
        };
        assert(d == upper_char(c));
        r.push(d);
        i += 1;
        assert(r@ =~= ascii_upper(v@.take(i as int)));
    }
    assert(v@.take(v@.len() as int) =~= v@);
    r
}

proof fn lemma_digits_step(d: Seq<char>, i: int)
    requires
        0 <= i < d.len(),
    ensures
        digits_value(d.take(i + 1)) == digits_value(d.take(i)) * 10 + ((d[i] as u32) - 48) as nat,
{
    assert(d.take(i + 1).drop_last() =~= d.take(i));
}

/// The byte that `v` spells after trimming, if any.
fn parse_u8_chars(v: &Vec<char>) -> (r: Option<u8>)
    ensures
        r == parse_u8(v@),
{
    let t = trimmed(v);
    let start: usize = if t.len() > 0 && t[0] == '+' {
        1
    } else {
        0
    };
    let d = slice_chars(&t, start, t.len());
    assert(d@ =~= number_body(t@));
    if d.len() == 0 {
        return None;
    }
    let mut acc: u32 = 0;
    let mut big = false;
    let mut i: usize = 0;
    while i < d.len()
        invariant
            d@ == number_body(trim(v@)),
            d@.len() > 0,
            i <= d@.len(),
            all_digits(d@.take(i as int)),
            !big ==> acc == digits_value(d@.take(i as int)) && acc <= 255,
            big ==> digits_value(d@.take(i as int)) > 255,
        decreases d@.len() - i,
    {
        let u = d[i] as u32;
        if u < 48 || u > 57 {
            assert(!all_digits(d@));
            return None;
        }
        proof {
            lemma_digits_step(d@, i as int);
        }
        if !big {
            let next = acc * 10 + (u - 48);
            if next > 255 {
                big = true;
            } else {
                acc = next;
            }
        }
        i += 1;
        assert(all_digits(d@.take(i as int)));
    }
    assert(d@.take(d@.len() as int) =~= d@);
    if big {
        None
    } else {
        Some(acc as u8)
    }
}

// ---------------------------------------------------------------------------------------------
// The grammar of one field
// ---------------------------------------------------------------------------------------------

/// The smallest value of field `idx` (minute, hour, day of month, month, weekday).
pub open spec fn field_min(idx: nat) -> u8 {
    if idx == 2 || idx == 3 {
        1
    } else {
        0
    }
}

/// The largest value of field `idx`; weekday 7 is Sunday as well as 0.
pub open spec fn field_max(idx: nat) -> u8 {
    if idx == 0 {
        59
    } else if idx == 1 {
        23
    } else if idx == 2 {
        31
    } else if idx == 3 {
        12
    } else {
        7
    }
}

/// A single value: a month name in the month field, a weekday name in the weekday field,
/// otherwise a number; names are matched after trimming and upper-casing.
pub open spec fn atom_value(s: Seq<char>, idx: nat) -> Result<u8, CronFault> {
    let up = ascii_upper(trim(s));
    if idx == 3 && month_alias(up) is Some {
        Ok(month_alias(up)->0)
    } else if idx == 4 && day_alias(up) is Some {
        Ok(day_alias(up)->0)
    } else {
        match parse_u8(up) {
            Some(v) => Ok(v),
            None => Err(CronFault::BadNumber(up)),
        }
    }
}

/// The step after a `/`: 1 when there is none.
pub open spec fn parse_step(sp: Option<Seq<char>>) -> Result<u8, CronFault> {
    match sp {
        None => Ok(1u8),
        Some(x) => match parse_u8(x) {
            Some(v) => Ok(v),
            None => Err(CronFault::BadNumber(x)),
        },
    }
}

/// The first and last value of a range part: the whole field for `*` or nothing, `a-b`
/// (split at the first `-`), or a single value.
pub open spec fn part_bounds(rp: Seq<char>, idx: nat) -> Result<(u8, u8), CronFault> {
    if rp == seq!['*'] || rp.len() == 0 {
        Ok((field_min(idx), field_max(idx)))
    } else {
        let dash = find_from(rp, '-', 0);
        if dash < rp.len() {
            match atom_value(rp.subrange(0, dash), idx) {
                Err(e) => Err(e),
                Ok(a) => match atom_value(rp.subrange(dash + 1, rp.len() as int), idx) {
                    Err(e) => Err(e),
                    Ok(b) => Ok((a, b)),
                },
            }
        } else {
            match atom_value(rp, idx) {
                Err(e) => Err(e),
                Ok(n) => Ok((n, n)),
            }
        }
    }
}

/// The values from `start` to `end` reached in steps of `step`.
pub open spec fn stepped(start: u8, end: u8, step: u8) -> Set<u8> {
    Set::new(|v: u8| start <= v <= end && (v - start) % (step as int) == 0)
}

/// The values one comma-separated part stands for. The step (after the first `/`) is read
/// first, then the range; the range must lie within the field.
pub open spec fn part_values(p: Seq<char>, idx: nat) -> Result<Set<u8>, CronFault> {
    let slash = find_from(p, '/', 0);
    let rp = if slash < p.len() {
        p.subrange(0, slash)
    } else {
        p
    };
    let sp = if slash < p.len() {
        Some(p.subrange(slash + 1, p.len() as int))
    } else {
        None
    };
    match parse_step(sp) {
        Err(e) => Err(e),
        Ok(step) => if step == 0 {
            Err(CronFault::ZeroStep(idx + 1))
        } else {
            match part_bounds(rp, idx) {
                Err(e) => Err(e),
                Ok(b) => if b.0 > b.1 || b.0 < field_min(idx) || b.1 > field_max(idx) {
                    Err(CronFault::OutOfRange(idx + 1))
                } else {
                    Ok(stepped(b.0, b.1, step))
                },
            }
        },
    }
}

/// The union of `acc` and the values of the parts of `f` from index `i` on, or the fault of
/// the first part that has one.
pub open spec fn expand_from(f: Seq<char>, idx: nat, i: int, acc: Set<u8>) -> Result<
    Set<u8>,
    CronFault,
>
    decreases f.len() - i,
{
    if i < 0 || i > f.len() {
        Ok(acc)
    } else {
        let k = find_from(f, ',', i);
        proof {
            lemma_find_from_bounds(f, ',', i);
        }
        match part_values(f.subrange(i, k), idx) {
            Err(e) => Err(e),
            Ok(vs) => if k < f.len() {
                expand_from(f, idx, k + 1, acc.union(vs))
            } else {
                Ok(acc.union(vs))
            },
        }
    }
}

/// The values of field `idx`: the union of its comma-separated parts, which must not be
/// empty.
pub open spec fn field_values(f: Seq<char>, idx: nat) -> Result<Set<u8>, CronFault> {
    match expand_from(f, idx, 0, Set::empty()) {
        Err(e) => Err(e),
        Ok(s) => if s.is_empty() {
            Err(CronFault::EmptySet(idx + 1))
        } else {
            Ok(s)
        },
    }
}

/// Whether `r` is what a parse with outcome `spec` returns: the same value, or the message of
/// the same fault.
pub open spec fn reports<T>(r: Result<T, String>, spec: Result<T, CronFault>) -> bool {
    match spec {
        Ok(v) => r == Ok::<T, String>(v),
        Err(f) => r matches Err(m) && m@ == fault_message(f),
    }
}

fn field_min_of(idx: usize) -> (m: u8)
    ensures
        m == field_min(idx as nat),
{
    if idx == 2 || idx == 3 {
        1
    } else {
        0
    }
}

fn field_max_of(idx: usize) -> (m: u8)
    ensures
        m == field_max(idx as nat),
{
    if idx == 0 {
        59
    } else if idx == 1 {
        23
    } else if idx == 2 {
        31
    } else if idx == 3 {
        12
    } else {
        7
    }
}

/// The number `s` spells after trimming, or the bad-number message quoting `s`.
fn parse_number(s: &Vec<char>) -> (r: Result<u8, String>)
    ensures
        reports(
            r,
            match parse_u8(s@) {
                Some(v) => Ok(v),
                None => Err(CronFault::BadNumber(s@)),
            },
        ),
{
    match parse_u8_chars(s) {
        Some(v) => Ok(v),
        None => {
            let mut m = String::from_str("invalid number \"");
            let mut i: usize = 0;
            while i < s.len()
                invariant
                    i <= s@.len(),
                    m@ == "invalid number \""@ + s@.take(i as int),
                decreases s@.len() - i,
            {
                push_char(&mut m, s[i]);
                i += 1;
                assert(m@ =~= "invalid number \""@ + s@.take(i as int));
            }
            m.append("\"");
            assert(s@.take(s@.len() as int) =~= s@);
            assert(m@ =~= "invalid number \""@ + s@ + "\""@);
            Err(m)
        },
    }
}

fn word_is(v: &Vec<char>, a: char, b: char, c: char) -> (r: bool)
    ensures
        r == is_word(v@, a, b, c),
{
    v.len() == 3 && v[0] == a && v[1] == b && v[2] == c
}

fn month_of(v: &Vec<char>) -> (r: Option<u8>)
    ensures
        r == month_alias(v@),
{
    if word_is(v, 'J', 'A', 'N') {
        Some(1)
    } else if word_is(v, 'F', 'E', 'B') {
        Some(2)
    } else if word_is(v, 'M', 'A', 'R') {
        Some(3)
    } else if word_is(v, 'A', 'P', 'R') {
        Some(4)
    } else if word_is(v, 'M', 'A', 'Y') {
        Some(5)
    } else if word_is(v, 'J', 'U', 'N') {
        Some(6)
    } else if word_is(v, 'J', 'U', 'L') {
        Some(7)
    } else if word_is(v, 'A', 'U', 'G') {
        Some(8)
    } else if word_is(v, 'S', 'E', 'P') {
        Some(9)
    } else if word_is(v, 'O', 'C', 'T') {
        Some(10)
    } else if word_is(v, 'N', 'O', 'V') {
        Some(11)
    } else if word_is(v, 'D', 'E', 'C') {
        Some(12)
    } else {
        None
    }
}

fn weekday_of(v: &Vec<char>) -> (r: Option<u8>)
    ensures
        r == day_alias(v@),
{
    if word_is(v, 'S', 'U', 'N') {
        Some(0)
    } else if word_is(v, 'M', 'O', 'N') {
        Some(1)
    } else if word_is(v, 'T', 'U', 'E') {
        Some(2)
    } else if word_is(v, 'W', 'E', 'D') {
        Some(3)
    } else if word_is(v, 'T', 'H', 'U') {
        Some(4)
    } else if word_is(v, 'F', 'R', 'I') {
        Some(5)
    } else if word_is(v, 'S', 'A', 'T') {
        Some(6)
    } else {
        None
    }
}

fn parse_atom(s: &Vec<char>, idx: usize) -> (r: Result<u8, String>)
    ensures
        reports(r, atom_value(s@, idx as nat)),
{
    let t = trimmed(s);
    let up = upper(&t);
    if idx == 3 {
        if let Some(v) = month_of(&up) {
            return Ok(v);
        }
    }
    if idx == 4 {
        if let Some(v) = weekday_of(&up) {
            return Ok(v);
        }
    }
    parse_number(&up)
}

fn bounds_of(rp: &Vec<char>, idx: usize) -> (r: Result<(u8, u8), String>)
    ensures
        reports(r, part_bounds(rp@, idx as nat)),
{
    if (rp.len() == 1 && rp[0] == '*') || rp.len() == 0 {
        assert(rp@.len() == 1 && rp@[0] == '*' ==> rp@ =~= seq!['*']);
        return Ok((field_min_of(idx), field_max_of(idx)));
    }
    assert(rp@ != seq!['*']);
    let dash = find_char(rp, '-', 0);
    proof {
        lemma_find_from_bounds(rp@, '-', 0);
    }
    if dash < rp.len() {
        let left = slice_chars(rp, 0, dash);
        let a = match parse_atom(&left, idx) {
            Ok(v) => v,
            Err(m) => return Err(m),
        };
        let right = slice_chars(rp, dash + 1, rp.len());
        let b = match parse_atom(&right, idx) {
            Ok(v) => v,
            Err(m) => return Err(m),
        };
        Ok((a, b))
    } else {
        let n = match parse_atom(rp, idx) {
            Ok(v) => v,
            Err(m) => return Err(m),
        };
        Ok((n, n))
    }
}

/// The range and step a part stands for, or the message of its fault.
fn part_range(p: &Vec<char>, idx: usize) -> (r: Result<(u8, u8, u8), String>)
    requires
        idx < 5,
    ensures
        match part_values(p@, idx as nat) {
            Ok(vs) => r matches Ok(t) && vs == stepped(t.0, t.1, t.2) && t.0 <= t.1 <= 59 && t.2
                > 0,
            Err(f) => r matches Err(m) && m@ == fault_message(f),
        },
{
    let slash = find_char(p, '/', 0);
    proof {
        lemma_find_from_bounds(p@, '/', 0);
    }
    let rp = if slash < p.len() {
        slice_chars(p, 0, slash)
    } else {
        slice_chars(p, 0, p.len())
    };
    assert(slash >= p@.len() ==> rp@ =~= p@);
    let step = if slash < p.len() {
        let sp = slice_chars(p, slash + 1, p.len());
        match parse_number(&sp) {
            Ok(v) => v,
            Err(m) => return Err(m),
        }
    } else {
        1
    };
    if step == 0 {
        return Err(numbered_message("step must be > 0 at field ", idx + 1));
    }
    let (start, end) = match bounds_of(&rp, idx) {
        Ok(b) => b,
        Err(m) => return Err(m),
    };
    if start > end || start < field_min_of(idx) || end > field_max_of(idx) {
        return Err(numbered_message("value out of range at field ", idx + 1));
    }
    Ok((start, end, step))
}

/// Two distinct multiples of `s` (offsets from a common start) lie at least `s` apart.
proof fn lemma_multiples_apart(a: int, b: int, s: int)
    requires
        0 <= a < b,
        s > 0,
        a % s == 0,
        b % s == 0,
    ensures
        b - a >= s,
{
    assert(b - a >= s) by (nonlinear_arith)
        requires
            0 <= a < b,
            s > 0,
            a % s == 0,
            b % s == 0,
    {
        assert(a == s * (a / s));
        assert(b == s * (b / s));
        assert(a / s < b / s);
    }
}

/// Adds `start`, `start + step`, ... up to `end` to `out`.
fn insert_stepped(out: &mut BTreeSet<u8>, start: u8, end: u8, step: u8)
    requires
        start <= end,
        step > 0,
    ensures
        final(out)@ == old(out)@.union(stepped(start, end, step)),
{
    let mut v: u8 = start;
    assert(((v - start) as int) % (step as int) == 0) by (nonlinear_arith)
        requires
            v == start,
            step > 0,
    ;
    loop
        invariant_except_break
            start <= v <= end,
            step > 0,
            (v - start) % (step as int) == 0,
            out@ == old(out)@.union(
                Set::new(|w: u8| start <= w < v && (w - start) % (step as int) == 0),
            ),
        ensures
            out@ == old(out)@.union(stepped(start, end, step)),
        decreases 256 - v,
    {
        out.insert(v);
        let next = v.checked_add(step);
        let more = match next {
            Some(n) => n <= end,
            None => false,
        };
        if more {
            let n = next.unwrap();
            assert(((n - start) as int) % (step as int) == 0) by (nonlinear_arith)
                requires
                    (v - start) % (step as int) == 0,
                    n == v + step,
                    step > 0,
            ;
            assert forall|w: u8|
                start <= w < n && (w - start) % (step as int) == 0 implies #[trigger] out@.contains(
                    w,
                ) by {
                if v < w {
                    lemma_multiples_apart((v - start) as int, (w - start) as int, step as int);
                }
            }
            assert(out@ =~= old(out)@.union(
                Set::new(|w: u8| start <= w < n && (w - start) % (step as int) == 0),
            ));
            v = n;
        } else {
            assert(v + step > end);
            assert forall|w: u8| #[trigger] stepped(start, end, step).contains(w) implies out@.contains(
                w,
            ) by {
                if w > v {
                    lemma_multiples_apart((v - start) as int, (w - start) as int, step as int);
                }
            }
            assert(out@ =~= old(out)@.union(stepped(start, end, step)));
            break ;
        }
    }
}

/// The values of field `idx`, or the message of its first fault.
fn expand(field: &Vec<char>, idx: usize) -> (r: Result<BTreeSet<u8>, String>)
    requires
        idx < 5,
    ensures
        match field_values(field@, idx as nat) {
            Ok(vs) => r matches Ok(o) && o@ == vs,
            Err(f) => r matches Err(m) && m@ == fault_message(f),
        },
{
    let mut out: BTreeSet<u8> = BTreeSet::new();
    let mut i: usize = 0;
    loop
        invariant_except_break
            idx < 5,
            i <= field@.len(),
            expand_from(field@, idx as nat, i as int, out@) == expand_from(
                field@,
                idx as nat,
                0,
                Set::empty(),
            ),
        ensures
            expand_from(field@, idx as nat, 0, Set::empty()) == Ok::<Set<u8>, CronFault>(out@),
        decreases field@.len() - i,
    {
        let k = find_char(field, ',', i);
        proof {
            lemma_find_from_bounds(field@, ',', i as int);
        }
        let part = slice_chars(field, i, k);
        let (start, end, step) = match part_range(&part, idx) {
            Ok(t) => t,
            Err(m) => return Err(m),
        };
        insert_stepped(&mut out, start, end, step);
        if k < field.len() {
            i = k + 1;
        } else {
            break ;
        }
    }
    if out.is_empty() {
        return Err(numbered_message("empty set at field ", idx + 1));
    }
    Ok(out)
}

// ---------------------------------------------------------------------------------------------
// The whole expression
// ---------------------------------------------------------------------------------------------

/// What a parsed schedule stands for.
pub struct CronModel {
    pub expression: Seq<char>,
    pub minutes: Set<u8>,
    pub hours: Set<u8>,
    pub days: Set<u8>,
    pub months: Set<u8>,
    pub weekdays: Set<u8>,
}

/// Weekday 7 read as 0: both mean Sunday.
pub open spec fn sunday_normalised(s: Set<u8>) -> Set<u8> {
    Set::new(|v: u8| (s.contains(v) && v != 7) || (v == 0 && s.contains(7u8)))
}

/// The schedule an expression stands for, or the first fault found in it. The expression is
/// trimmed; it must be non-empty, at most 40 bytes of UTF-8, and have exactly five fields,
/// which are read in order.
pub open spec fn cron_parse(e: Seq<char>) -> Result<CronModel, CronFault> {
    cron_parse_trimmed(trim(e))
}

/// The schedule an already trimmed expression stands for.
pub open spec fn cron_parse_trimmed(t: Seq<char>) -> Result<CronModel, CronFault> {
    if t.len() == 0 {
        Err(CronFault::Empty)
    } else if encode_utf8(t).len() > 40 {
        Err(CronFault::TooLong)
    } else {
        let fs = fields_from(t, 0);
        if fs.len() != 5 {
            Err(CronFault::FieldCount(fs.len()))
        } else {
            schedule_of_fields(t, fs)
        }
    }
}

/// The schedule that five fields stand for, read in order: minutes, hours, days, months,
/// weekdays.
pub open spec fn schedule_of_fields(t: Seq<char>, fs: Seq<Seq<char>>) -> Result<CronModel, CronFault> {
    match field_values(fs[0], 0) {
        Err(f) => Err(f),
        Ok(minutes) => match field_values(fs[1], 1) {
            Err(f) => Err(f),
            Ok(hours) => match field_values(fs[2], 2) {
                Err(f) => Err(f),
                Ok(days) => match field_values(fs[3], 3) {
                    Err(f) => Err(f),
                    Ok(months) => match field_values(fs[4], 4) {
                        Err(f) => Err(f),
                        Ok(weekdays) => Ok(
                            CronModel {
                                expression: t,
                                minutes,
                                hours,
                                days,
                                months,
                                weekdays: sunday_normalised(weekdays),
                            },
                        ),
                    },
                },
            },
        },
    }
}

#[derive(Clone, Debug, PartialEq, Eq)]
pub struct CronSchedule {
    pub expression: String,
    pub minutes: BTreeSet<u8>,
    pub hours: BTreeSet<u8>,
    pub days: BTreeSet<u8>,
    pub months: BTreeSet<u8>,
    pub weekdays: BTreeSet<u8>,
}

impl View for CronSchedule {
    type V = CronModel;

    open spec fn view(&self) -> CronModel {
        CronModel {
            expression: self.expression@,
            minutes: self.minutes@,
            hours: self.hours@,
            days: self.days@,
            months: self.months@,
            weekdays: self.weekdays@,
        }
    }
}

/// Whether a schedule fires at the given minute, hour, day, month and weekday.
pub open spec fn cron_matches(
    m: CronModel,
    minute: u8,
    hour: u8,
    day: u8,
    month: u8,
    weekday: u8,
) -> bool {
    &&& m.minutes.contains(minute)
    &&& m.hours.contains(hour)
    &&& m.days.contains(day)
    &&& m.months.contains(month)
    &&& m.weekdays.contains(weekday)
}

/// A set of bytes has at most 256 members.
pub proof fn lemma_u8_set_len(s: Set<u8>)
    ensures
        s.finite(),
        s.len() <= 256,
{
    let full = Set::<u8>::range(0u8, 255u8).insert(255u8);
    <u8 as vstd::set_lib::FiniteRange>::range_properties(0u8, 255u8);
    assert(s.subset_of(full));
    vstd::set_lib::lemma_len_subset(s, full);
}

/// Encoding a concatenation concatenates the encodings.
pub proof fn lemma_encode_utf8_concat(x: Seq<char>, y: Seq<char>)
    ensures
        encode_utf8(x + y) == encode_utf8(x) + encode_utf8(y),
    decreases x.len(),
{
    if x.len() > 0 {
        assert((x + y).drop_first() =~= x.drop_first() + y);
        assert((x + y)[0] == x[0]);
        lemma_encode_utf8_concat(x.drop_first(), y);
        assert(encode_utf8(x + y) =~= encode_utf8(x) + encode_utf8(y));
    } else {
        assert(x + y =~= y);
        assert(encode_utf8(x) =~= Seq::<u8>::empty());
        assert(encode_utf8(x) + encode_utf8(y) =~= encode_utf8(y));
    }
}

/// The number of bytes in the UTF-8 encoding of `c`.
fn utf8_width(c: char) -> (w: usize)
    ensures
        w == encode_utf8(seq![c]).len(),
        1 <= w <= 4,
{
    let u = c as u32;
    assert(encode_utf8(seq![c]) =~= vstd::utf8::encode_scalar(c as u32) + encode_utf8(
        seq![c].drop_first(),
    ));
    assert(seq![c].drop_first() =~= Seq::<char>::empty());
    proof {
        vstd::utf8::char_is_scalar(c);
    }
    if u <= 0x7f {
        1
    } else if u <= 0x7ff {
        2
    } else if u <= 0xffff {
        3
    } else {
        4
    }
}

/// Whether the UTF-8 encoding of the characters of `cs` from `a` to `b` takes more than 40
/// bytes.
fn utf8_longer_than_40(cs: &Vec<char>, a: usize, b: usize) -> (r: bool)
    requires
        a <= b <= cs@.len(),
    ensures
        r == (encode_utf8(cs@.subrange(a as int, b as int)).len() > 40),
{
    let ghost t = cs@.subrange(a as int, b as int);
    let mut total: usize = 0;
    let mut i: usize = a;
    while i < b
        invariant
            a <= i <= b <= cs@.len(),
            t == cs@.subrange(a as int, b as int),
            total <= 40,
            total == encode_utf8(t.take(i - a)).len(),
        decreases b - i,
    {
        let w = utf8_width(cs[i]);
        proof {
            assert(t.take(i - a + 1) =~= t.take(i - a) + seq![cs@[i as int]]);
            lemma_encode_utf8_concat(t.take(i - a), seq![cs@[i as int]]);
        }
        total = total + w;
        i += 1;
        if total > 40 {
            proof {
                assert(t =~= t.take(i - a) + t.skip(i - a));
                lemma_encode_utf8_concat(t.take(i - a), t.skip(i - a));
            }
            return true;
        }
    }
    assert(t.take(b - a) =~= t);
    false
}

/// The length a byte set reports is the size of its contents, at most 256.
proof fn lemma_byte_set_len(s: &BTreeSet<u8>)
    ensures
        s.len() == s@.len(),
        s@.len() <= 256,
{
    lemma_u8_set_len(s@);
    assert(vstd::laws_cmp::obeys_cmp::<u8>());
    assert(vstd::std_specs::btree::key_obeys_cmp_spec::<u8>());
}

/// The fields of `t` and where they start.
fn split_fields(t: &Vec<char>) -> (r: Vec<Vec<char>>)
    ensures
        r@.map_values(|v: Vec<char>| v@) == fields_from(t@, 0),
{
    let mut r: Vec<Vec<char>> = Vec::new();
    let mut i: usize = 0;
    let n = t.len();
    loop
        invariant_except_break
            n == t@.len(),
            i <= n,
            r@.map_values(|v: Vec<char>| v@) + fields_from(t@, i as int) == fields_from(t@, 0),
        ensures
            r@.map_values(|v: Vec<char>| v@) == fields_from(t@, 0),
        decreases n - i,
    {
        let mut j = i;
        while j < n && is_aws(t[j])
            invariant
                n == t@.len(),
                i <= j <= n,
                skip_ascii_ws(t@, j as int) == skip_ascii_ws(t@, i as int),
            decreases n - j,
        {
            j += 1;
        }
        if j >= n {
            assert(fields_from(t@, i as int) =~= Seq::<Seq<char>>::empty());
            assert(r@.map_values(|v: Vec<char>| v@) + Seq::<Seq<char>>::empty() =~= r@.map_values(
                |v: Vec<char>| v@,
            ));
            break ;
        }
        let mut k = j;
        while k < n && !is_aws(t[k])
            invariant
                n == t@.len(),
                j <= k <= n,
                token_end(t@, k as int) == token_end(t@, j as int),
            decreases n - k,
        {
            k += 1;
        }
        proof {
            lemma_skip_ascii_ws_bounds(t@, i as int);
            lemma_token_end_bounds(t@, j as int);
        }
        let ghost before = r@.map_values(|v: Vec<char>| v@);
        let field = slice_chars(t, j, k);
        r.push(field);
        assert(r@.map_values(|v: Vec<char>| v@) =~= before.push(t@.subrange(j as int, k as int)));
        assert(fields_from(t@, i as int) == seq![t@.subrange(j as int, k as int)] + fields_from(
            t@,
            k as int,
        ));
        assert(before.push(t@.subrange(j as int, k as int)) + fields_from(t@, k as int) =~= before
            + fields_from(t@, i as int));
        i = k;
    }
    r
}

/// Reads weekday 7 as 0.
fn normalise_weekdays(w: &mut BTreeSet<u8>)
    ensures
        final(w)@ == sunday_normalised(old(w)@),
{
    if w.contains(&7) {
        w.remove(&7);
        w.insert(0);
    }
    assert(w@ =~= sunday_normalised(old(w)@));
}

/// The characters of `expr` and the bounds of its trimmed part.
fn trimmed_expression(expr: &str) -> (r: (Vec<char>, usize, usize))
    ensures
        r.0@ == expr@,
        r.1 <= r.2 <= expr@.len(),
        expr@.subrange(r.1 as int, r.2 as int) == trim(expr@),
{
    let cs = chars_of(expr);
    let (a, b) = trim_bounds(&cs);
    (cs, a, b)
}

impl CronSchedule {
    /// Parse a five-field cron expression. Fails with `InvalidCron` carrying the message of
    /// the first fault found, exactly as `cron_parse` describes.
    pub fn parse(expr: &str) -> (r: Result<Self, VigylError>)
        ensures
            match cron_parse(expr@) {
                Ok(m) => r matches Ok(s) && s@ == m,
                Err(f) => r matches Err(e) && is_cron_error(e, f),
            },
    {
        let (cs, a, b) = trimmed_expression(expr);
        let text = expr.substring_char(a, b);
        Self::parse_trimmed(&cs, a, b, text)
    }

    /// Parse the trimmed expression `text`, the characters of `cs` from `a` to `b`.
    fn parse_trimmed(cs: &Vec<char>, a: usize, b: usize, text: &str) -> (r: Result<
        Self,
        VigylError,
    >)
        requires
            a <= b <= cs@.len(),
            text@ == cs@.subrange(a as int, b as int),
        ensures
            match cron_parse_trimmed(text@) {
                Ok(m) => r matches Ok(s) && s@ == m,
                Err(f) => r matches Err(e) && is_cron_error(e, f),
            },
    {
        if a == b {
            return Err(VigylError::InvalidCron(String::from_str("empty expression")));
        }
        if utf8_longer_than_40(cs, a, b) {
            return Err(
                VigylError::InvalidCron(
                    String::from_str("expression exceeds 40 characters (on-chain buffer)"),
                ),
            );
        }
        let t = slice_chars(&cs, a, b);
        let fields = split_fields(&t);
        let ghost fs = fields_from(t@, 0);
        assert(fields@.map_values(|v: Vec<char>| v@).len() == fields@.len());
        if fields.len() != 5 {
            return Err(
                VigylError::InvalidCron(numbered_message("expected 5 fields, got ", fields.len())),
            );
        }
        assert(fields@[0]@ == fs[0] && fields@[1]@ == fs[1] && fields@[2]@ == fs[2]);
        assert(fields@[3]@ == fs[3] && fields@[4]@ == fs[4]);
        Self::from_fields(&fields, text, Ghost(fs))
    }

    /// The schedule five fields stand for, with `text` as its expression.
    fn from_fields(fields: &Vec<Vec<char>>, text: &str, fs: Ghost<Seq<Seq<char>>>) -> (r: Result<
        Self,
        VigylError,
    >)
        requires
            fields@.len() == 5,
            fs@.len() == 5,
            forall|k: int| 0 <= k < 5 ==> #[trigger] fields@[k]@ == fs@[k],
        ensures
            match schedule_of_fields(text@, fs@) {
                Ok(m) => r matches Ok(s) && s@ == m,
                Err(f) => r matches Err(e) && is_cron_error(e, f),
            },
    {
        assert(fields@[0]@ == fs@[0] && fields@[1]@ == fs@[1] && fields@[2]@ == fs@[2]);
        assert(fields@[3]@ == fs@[3] && fields@[4]@ == fs@[4]);
        let minutes = match expand(&fields[0], 0) {
            Ok(s) => s,
            Err(m) => return Err(VigylError::InvalidCron(m)),
        };
        let hours = match expand(&fields[1], 1) {
            Ok(s) => s,
            Err(m) => return Err(VigylError::InvalidCron(m)),
        };
        let days = match expand(&fields[2], 2) {
            Ok(s) => s,
            Err(m) => return Err(VigylError::InvalidCron(m)),
        };
        let months = match expand(&fields[3], 3) {
            Ok(s) => s,
            Err(m) => return Err(VigylError::InvalidCron(m)),
        };
        let mut weekdays = match expand(&fields[4], 4) {
            Ok(s) => s,
            Err(m) => return Err(VigylError::InvalidCron(m)),
        };
        normalise_weekdays(&mut weekdays);
        Ok(
            CronSchedule {
                expression: String::from_str(text),
                minutes,
                hours,
                days,
                months,
                weekdays,
            },
        )
    }

    /// How many minute ticks per day fire: minute values times hour values.
    pub fn executions_per_day(&self) -> (n: u64)
        ensures
            n == self.minutes@.len() * self.hours@.len(),
    {
        proof {
            lemma_byte_set_len(&self.minutes);
            lemma_byte_set_len(&self.hours);
        }
        let m = self.minutes.len() as u64;
        let h = self.hours.len() as u64;
        assert(m * h <= 65536) by (nonlinear_arith)
            requires
                m <= 256,
                h <= 256,
        ;
        let per_day = m * h;
        per_day
    }

    /// Whether the schedule fires at the given `(minute, hour, day, month, weekday)`.
    pub fn matches(&self, minute: u8, hour: u8, day: u8, month: u8, weekday: u8) -> (b: bool)
        ensures
            b == cron_matches(self@, minute, hour, day, month, weekday),
    {
        self.minutes.contains(&minute) && self.hours.contains(&hour) && self.days.contains(&day)
            && self.months.contains(&month) && self.weekdays.contains(&weekday)
    }
}

/// The 128-byte cron layout: the expression's bytes zero-padded to 40, the timezone offset at
/// 40..48, zeros after.
pub open spec fn cron_layout(expression: Seq<u8>, tz_offset_seconds: i64) -> Seq<u8> {
    expression + Seq::new((40 - expression.len()) as nat, |i: int| 0u8) + le_bytes_i64(
        tz_offset_seconds,
    ) + Seq::new(80, |i: int| 0u8)
}

/// Encode a cron trigger into the on-chain 128-byte buffer. The expression is validated by
/// parsing first; its trimmed UTF-8 bytes fill the start of the buffer.
pub fn encode_cron(expression: &str, tz_offset_seconds: i64) -> (r: Result<[u8; 128], VigylError>)
    ensures
        match cron_parse(expression@) {
            Ok(m) => r matches Ok(buf) && buf@ == cron_layout(encode_utf8(m.expression), tz_offset_seconds),
            Err(f) => r matches Err(e) && is_cron_error(e, f),
        },
{
    match CronSchedule::parse(expression) {
        Ok(_) => {},
        Err(e) => return Err(e),
    }
    let mut buf = [0u8; 128];
    let (_cs, a, b) = trimmed_expression(expression);
    let bytes = expression.substring_char(a, b).as_bytes();
    if bytes.len() > 40 {
        return Err(VigylError::InvalidCron(String::from_str("expression > 40 bytes")));
    }
    write_slice(&mut buf, 0, bytes);
    write_i64_le(&mut buf, 40, tz_offset_seconds);
    assert(buf@ =~= cron_layout(bytes@, tz_offset_seconds));
    Ok(buf)
}

// ---------------------------------------------------------------------------------------------
// What every parsed schedule satisfies
// ---------------------------------------------------------------------------------------------

/// Whether every value of `s` lies within field `idx`'s range.
pub open spec fn within_field(s: Set<u8>, idx: nat) -> bool {
    forall|v: u8| #[trigger] s.contains(v) ==> field_min(idx) <= v <= field_max(idx)
}

proof fn lemma_expand_within(f: Seq<char>, idx: nat, i: int, acc: Set<u8>)
    requires
        within_field(acc, idx),
    ensures
        expand_from(f, idx, i, acc) matches Ok(s) ==> within_field(s, idx),
    decreases f.len() - i,
{
    if 0 <= i <= f.len() {
        let k = find_from(f, ',', i);
        lemma_find_from_bounds(f, ',', i);
        if let Ok(vs) = part_values(f.subrange(i, k), idx) {
            assert(within_field(vs, idx));
            assert(within_field(acc.union(vs), idx));
            if k < f.len() {
                lemma_expand_within(f, idx, k + 1, acc.union(vs));
            }
        }
    }
}

proof fn lemma_field_values_within(f: Seq<char>, idx: nat)
    ensures
        field_values(f, idx) matches Ok(s) ==> within_field(s, idx) && !s.is_empty(),
{
    lemma_expand_within(f, idx, 0, Set::empty());
}

/// Every value of a parsed schedule lies within its field (minutes 0-59, hours 0-23, days
/// 1-31, months 1-12, weekdays 0-6: a 7 has become 0), and no field is empty.
pub proof fn lemma_parsed_schedule_in_range(e: Seq<char>)
    ensures
        cron_parse(e) matches Ok(m) ==> {
            &&& within_field(m.minutes, 0) && !m.minutes.is_empty()
            &&& within_field(m.hours, 1) && !m.hours.is_empty()
            &&& within_field(m.days, 2) && !m.days.is_empty()
            &&& within_field(m.months, 3) && !m.months.is_empty()
            &&& forall|v: u8| #[trigger] m.weekdays.contains(v) ==> v <= 6
            &&& !m.weekdays.is_empty()
        },
{
    let t = trim(e);
    let fs = fields_from(t, 0);
    if t.len() != 0 && encode_utf8(t).len() <= 40 && fs.len() == 5 {
        lemma_field_values_within(fs[0], 0);
        lemma_field_values_within(fs[1], 1);
        lemma_field_values_within(fs[2], 2);
        lemma_field_values_within(fs[3], 3);
        lemma_field_values_within(fs[4], 4);
        if let Ok(w) = field_values(fs[4], 4) {
            let n = sunday_normalised(w);
            let x = choose|x: u8| w.contains(x);
            assert(w.contains(x));
            if x == 7 {
                assert(n.contains(0));
            } else {
                assert(n.contains(x));
            }
        }
    }
}

/// Weekday 7 and weekday 0 both mean Sunday: a weekday list naming 7 fires on 0.
pub proof fn lemma_seven_is_sunday(s: Set<u8>)
    ensures
        s.contains(7u8) ==> sunday_normalised(s).contains(0u8),
        !sunday_normalised(s).contains(7u8),
        forall|v: u8| v != 0 && v != 7 ==> (sunday_normalised(s).contains(v) <==> s.contains(v)),
{
}

/// The timezone offset reads back from bytes 40..48 of an encoded cron buffer, and the
/// expression's bytes from its start.
pub proof fn lemma_cron_layout_reads_back(expression: Seq<u8>, tz_offset_seconds: i64)
    requires
        expression.len() <= 40,
    ensures
        cron_layout(expression, tz_offset_seconds).len() == 128,
        cron_layout(expression, tz_offset_seconds).subrange(0, expression.len() as int)
            == expression,
        crate::bytes::i64_from_le(cron_layout(expression, tz_offset_seconds).subrange(40, 48))
            == tz_offset_seconds,
{
    let b = cron_layout(expression, tz_offset_seconds);
    assert(b.subrange(0, expression.len() as int) =~= expression);
    assert(b.subrange(40, 48) =~= le_bytes_i64(tz_offset_seconds));
    crate::bytes::lemma_i64_roundtrip(tz_offset_seconds);
}

// ---------------------------------------------------------------------------------------------
// Month and weekday names
// ---------------------------------------------------------------------------------------------

/// The three-letter upper-case name of the `i`-th month of the calendar year, counting from 0.
pub open spec fn calendar_month_name(i: int) -> Seq<char> {
    if i == 0 {
        seq!['J', 'A', 'N']
    } else if i == 1 {
        seq!['F', 'E', 'B']
    } else if i == 2 {
        seq!['M', 'A', 'R']
    } else if i == 3 {
        seq!['A', 'P', 'R']
    } else if i == 4 {
        seq!['M', 'A', 'Y']
    } else if i == 5 {
        seq!['J', 'U', 'N']
    } else if i == 6 {
        seq!['J', 'U', 'L']
    } else if i == 7 {
        seq!['A', 'U', 'G']
    } else if i == 8 {
        seq!['S', 'E', 'P']
    } else if i == 9 {
        seq!['O', 'C', 'T']
    } else if i == 10 {
        seq!['N', 'O', 'V']
    } else {
        seq!['D', 'E', 'C']
    }
}

/// The three-letter upper-case name of the `i`-th day of the week, Sunday being 0.
pub open spec fn calendar_day_name(i: int) -> Seq<char> {
    if i == 0 {
        seq!['S', 'U', 'N']
    } else if i == 1 {
        seq!['M', 'O', 'N']
    } else if i == 2 {
        seq!['T', 'U', 'E']
    } else if i == 3 {
        seq!['W', 'E', 'D']
    } else if i == 4 {
        seq!['T', 'H', 'U']
    } else if i == 5 {
        seq!['F', 'R', 'I']
    } else {
        seq!['S', 'A', 'T']
    }
}

/// Whether `s` is three ASCII upper-case letters.
pub open spec fn is_upper_word(s: Seq<char>) -> bool {
    s.len() == 3 && forall|k: int| 0 <= k < 3 ==> 65 <= (#[trigger] s[k]) as u32 <= 90
}

/// Month names stand for their calendar numbers, January to December as 1 to 12, and no
/// other word names a month.
pub proof fn lemma_month_names_in_calendar_order(i: int)
    requires
        0 <= i < 12,
    ensures
        month_alias(calendar_month_name(i)) == Some((i + 1) as u8),
        forall|s: Seq<char>| #[trigger] month_alias(s) is Some ==> exists|j: int|
            0 <= j < 12 && s == calendar_month_name(j) && month_alias(s) == Some((j + 1) as u8),
{
    assert forall|s: Seq<char>| #[trigger] month_alias(s) is Some implies exists|j: int|
        0 <= j < 12 && s == calendar_month_name(j) && month_alias(s) == Some((j + 1) as u8) by {
        let m = month_alias(s)->0;
        let j = m - 1;
        assert(s =~= calendar_month_name(j));
    }
}

/// Weekday names stand for their day numbers, Sunday to Saturday as 0 to 6, and no other word
/// names a weekday.
pub proof fn lemma_day_names_in_week_order(i: int)
    requires
        0 <= i < 7,
    ensures
        day_alias(calendar_day_name(i)) == Some(i as u8),
        forall|s: Seq<char>| #[trigger] day_alias(s) is Some ==> exists|j: int|
            0 <= j < 7 && s == calendar_day_name(j) && day_alias(s) == Some(j as u8),
{
    assert forall|s: Seq<char>| #[trigger] day_alias(s) is Some implies exists|j: int|
        0 <= j < 7 && s == calendar_day_name(j) && day_alias(s) == Some(j as u8) by {
        let j = day_alias(s)->0 as int;
        assert(s =~= calendar_day_name(j));
    }
}

/// A three-letter upper-case word is its own trimmed, upper-cased form, and holds none of the
/// characters that separate parts, steps or ranges.
proof fn lemma_upper_word_plain(s: Seq<char>)
    requires
        is_upper_word(s),
    ensures
        trim(s) == s,
        ascii_upper(s) == s,
        find_from(s, ',', 0) == 3,
        find_from(s, '/', 0) == 3,
        find_from(s, '-', 0) == 3,
        s != seq!['*'],
{
    assert(65 <= s[0] as u32 <= 90 && 65 <= s[1] as u32 <= 90 && 65 <= s[2] as u32 <= 90);
    assert(!is_unicode_ws(s[0]) && !is_unicode_ws(s[2]));
    assert(trim_left(s) == s);
    assert(trim_right(s) == s);
    assert(ascii_upper(s) =~= s);
    assert((',' as u32) == 44 && ('/' as u32) == 47 && ('-' as u32) == 45);
    assert forall|k: int| 0 <= k < 3 implies #[trigger] s[k] != ',' && s[k] != '/' && s[k]
        != '-' by {
        assert(65 <= s[k] as u32);
    }
    assert(find_from(s, ',', 3) == 3);
    assert(find_from(s, ',', 2) == 3);
    assert(find_from(s, ',', 1) == 3);
    assert(find_from(s, '/', 3) == 3);
    assert(find_from(s, '/', 2) == 3);
    assert(find_from(s, '/', 1) == 3);
    assert(find_from(s, '-', 3) == 3);
    assert(find_from(s, '-', 2) == 3);
    assert(find_from(s, '-', 1) == 3);
}

/// A month field that is a single month name allows exactly that month's number: "JUN"
/// allows exactly June, 6.
pub proof fn lemma_month_name_field(i: int)
    requires
        0 <= i < 12,
    ensures
        field_values(calendar_month_name(i), 3) == Ok::<Set<u8>, CronFault>(
            Set::empty().insert((i + 1) as u8),
        ),
{
    let s = calendar_month_name(i);
    lemma_month_names_in_calendar_order(i);
    assert(is_upper_word(s));
    lemma_upper_word_plain(s);
    let m = (i + 1) as u8;
    assert(atom_value(s, 3) == Ok::<u8, CronFault>(m));
    assert(part_bounds(s, 3) == Ok::<(u8, u8), CronFault>((m, m)));
    assert(s.subrange(0, 3) =~= s);
    assert(parse_step(None) == Ok::<u8, CronFault>(1u8));
    assert(part_values(s, 3) == Ok::<Set<u8>, CronFault>(stepped(m, m, 1)));
    assert(stepped(m, m, 1) =~= Set::empty().insert(m));
    assert(expand_from(s, 3, 0, Set::empty()) == Ok::<Set<u8>, CronFault>(
        Set::<u8>::empty().union(stepped(m, m, 1)),
    ));
    assert(Set::<u8>::empty().union(stepped(m, m, 1)) =~= Set::empty().insert(m));
    assert(!Set::<u8>::empty().insert(m).is_empty()) by {
        assert(Set::<u8>::empty().insert(m).contains(m));
    }
}

// ---------------------------------------------------------------------------------------------
// Numbers, the whole-field wildcard and matching
// ---------------------------------------------------------------------------------------------

proof fn lemma_decimal_digits(n: nat)
    ensures
        decimal(n).len() > 0,
        all_digits(decimal(n)),
        digits_value(decimal(n)) == n,
        decimal(n)[0] != '+',
        forall|k: int| 0 <= k < decimal(n).len() ==> !is_unicode_ws(#[trigger] decimal(n)[k]),
    decreases n,
{
    if n >= 10 {
        lemma_decimal_digits(n / 10);
        let d = decimal(n / 10);
        let e = d.push(digit_char(n % 10));
        assert(e.drop_last() =~= d);
        assert(e.last() as u32 == 48 + n % 10);
        assert(digits_value(e) == digits_value(d) * 10 + n % 10);
        assert((n / 10) * 10 + n % 10 == n);
        assert(decimal(n) == e);
        assert(digits_value(e) == n);
        assert(e[0] == d[0]);
        assert forall|k: int| 0 <= k < e.len() implies 48 <= (#[trigger] e[k]) as u32 <= 57 by {
            if k < d.len() {
                assert(e[k] == d[k]);
            }
        }
        assert forall|k: int| 0 <= k < e.len() implies !is_unicode_ws(#[trigger] e[k]) by {
            if k < d.len() {
                assert(e[k] == d[k]);
            }
        }
    } else {
        assert(seq![digit_char(n)].drop_last() =~= Seq::<char>::empty());
        assert(digit_char(n) as u32 == 48 + n);
        let e = seq![digit_char(n)];
        assert(decimal(n) == e);
        assert(digits_value(e.drop_last()) == 0);
        assert(e.last() == digit_char(n));
        assert(digits_value(e) == n);
    }
}

/// Every byte value, written in decimal, reads back as itself.
pub proof fn lemma_parse_u8_decimal(n: u8)
    ensures
        parse_u8(decimal(n as nat)) == Some(n),
{
    let d = decimal(n as nat);
    lemma_decimal_digits(n as nat);
    assert(trim_left(d) == d);
    assert(trim_right(d) == d);
    assert(number_body(d) == d);
}

/// A number reads back only as the value of its digits: whatever `parse_u8` accepts is at
/// most 255 and is the decimal value of the digits after an optional leading `+`.
pub proof fn lemma_parse_u8_value(s: Seq<char>)
    ensures
        parse_u8(s) matches Some(v) ==> number_body(trim(s)).len() > 0 && all_digits(
            number_body(trim(s)),
        ) && v == digits_value(number_body(trim(s))),
{
}

/// The wildcard `*` allows every value of its field: minutes 0-59, hours 0-23, days 1-31,
/// months 1-12, weekdays 0-7 (7 being read as Sunday afterwards).
pub proof fn lemma_wildcard_field(idx: nat)
    requires
        idx < 5,
    ensures
        field_values(seq!['*'], idx) == Ok::<Set<u8>, CronFault>(
            Set::new(
                |v: u8|
                    (if idx == 2 || idx == 3 {
                        1int
                    } else {
                        0int
                    }) <= v <= (if idx == 0 {
                        59int
                    } else if idx == 1 {
                        23int
                    } else if idx == 2 {
                        31int
                    } else if idx == 3 {
                        12int
                    } else {
                        7int
                    }),
            ),
        ),
{
    let s = seq!['*'];
    assert(('*' as u32) == 42 && (',' as u32) == 44 && ('/' as u32) == 47);
    assert(find_from(s, ',', 1) == 1);
    assert(find_from(s, ',', 0) == 1);
    assert(find_from(s, '/', 1) == 1);
    assert(find_from(s, '/', 0) == 1);
    assert(s.subrange(0, 1) =~= s);
    let lo = field_min(idx);
    let hi = field_max(idx);
    assert(part_bounds(s, idx) == Ok::<(u8, u8), CronFault>((lo, hi)));
    assert(part_values(s, idx) == Ok::<Set<u8>, CronFault>(stepped(lo, hi, 1)));
    let full = Set::new(|v: u8| lo <= v <= hi);
    assert forall|v: u8| stepped(lo, hi, 1).contains(v) <==> full.contains(v) by {
        assert((v - lo) % 1 == 0);
    }
    assert(Set::<u8>::empty().union(stepped(lo, hi, 1)) =~= full);
    assert(full.contains(lo));
}

/// Every value of a parsed schedule lies within its field's calendar range.
pub proof fn lemma_parsed_values_calendar_ranges(e: Seq<char>)
    ensures
        cron_parse(e) matches Ok(m) ==> {
            &&& forall|v: u8| #[trigger] m.minutes.contains(v) ==> v <= 59
            &&& forall|v: u8| #[trigger] m.hours.contains(v) ==> v <= 23
            &&& forall|v: u8| #[trigger] m.days.contains(v) ==> 1 <= v <= 31
            &&& forall|v: u8| #[trigger] m.months.contains(v) ==> 1 <= v <= 12
            &&& forall|v: u8| #[trigger] m.weekdays.contains(v) ==> v <= 6
        },
{
    lemma_parsed_schedule_in_range(e);
}

/// A schedule fires at a time exactly when each of the five fields allows that time's value.
pub proof fn lemma_matches_needs_every_field(
    m: CronModel,
    minute: u8,
    hour: u8,
    day: u8,
    month: u8,
    weekday: u8,
)
    ensures
        cron_matches(m, minute, hour, day, month, weekday) <==> (m.minutes.contains(minute)
            && m.hours.contains(hour) && m.days.contains(day) && m.months.contains(month)
            && m.weekdays.contains(weekday)),
{
}

} // verus!
