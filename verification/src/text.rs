//! Verified text utilities over character sequences: substring search,
//! whitespace scanning, decimal parsing and rendering, and line splitting.

use vstd::prelude::*;
use vstd::string::StrSliceExecFns;
use vstd::string::StringExecFns;

verus! {

// ---------------------------------------------------------------------------
// Substring search
// ---------------------------------------------------------------------------

/// `needle` occurs in `hay` at position `i`.
pub open spec fn contains_at(hay: Seq<char>, needle: Seq<char>, i: int) -> bool {
    0 <= i && i + needle.len() <= hay.len() && hay.subrange(i, i + needle.len() as int) == needle
}

/// `needle` occurs somewhere in `hay`.
pub open spec fn contains_seq(hay: Seq<char>, needle: Seq<char>) -> bool {
    exists|i: int| contains_at(hay, needle, i)
}

/// `prefix` is a prefix of `s`.
pub open spec fn starts_with_seq(s: Seq<char>, prefix: Seq<char>) -> bool {
    prefix.len() <= s.len() && s.subrange(0, prefix.len() as int) == prefix
}

/// Whether `needle` occurs in `hay` starting exactly at `i`.
fn match_at(hay: &str, needle: &str, i: usize) -> (r: bool)
    requires
        i + needle@.len() <= hay@.len(),
    ensures
        r == contains_at(hay@, needle@, i as int),
{
    let hn = hay.unicode_len();
    let nn = needle.unicode_len();
    let mut j: usize = 0;
    while j < nn
        invariant
            j <= nn,
            hn == hay@.len(),
            nn == needle@.len(),
            i + nn <= hn,
            forall|k: int| 0 <= k < j ==> hay@[i + k] == needle@[k],
        decreases nn - j,
    {
        if hay.get_char(i + j) != needle.get_char(j) {
            assert(!contains_at(hay@, needle@, i as int)) by {
                if hay@.subrange(i as int, i + nn) == needle@ {
                    assert(hay@.subrange(i as int, i + nn)[j as int] == hay@[i + j]);
                }
            }
            return false;
        }
        j += 1;
    }
    assert(hay@.subrange(i as int, i + nn) =~= needle@);
    true
}

/// Substring search; the behaviour of `str::contains` for plain text needles.
pub fn str_contains(hay: &str, needle: &str) -> (r: bool)
    ensures
        r == contains_seq(hay@, needle@),
{
    let hn = hay.unicode_len();
    let nn = needle.unicode_len();
    if nn > hn {
        return false;
    }
    if nn == 0 {
        assert(hay@.subrange(0, 0) =~= needle@);
        assert(contains_at(hay@, needle@, 0));
        return true;
    }
    let mut i: usize = 0;
    while i <= hn - nn
        invariant
            1 <= nn <= hn,
            i <= hn - nn + 1,
            hn == hay@.len(),
            nn == needle@.len(),
            forall|k: int| 0 <= k < i ==> !contains_at(hay@, needle@, k),
        decreases hn - nn - i + 1,
    {
        if match_at(hay, needle, i) {
            return true;
        }
        i += 1;
    }
    false
}

/// Prefix test; the behaviour of `str::starts_with`.
pub fn str_starts_with(s: &str, prefix: &str) -> (r: bool)
    ensures
        r == starts_with_seq(s@, prefix@),
{
    let sn = s.unicode_len();
    let pn = prefix.unicode_len();
    if pn > sn {
        return false;
    }
    match_at(s, prefix, 0)
}

/// Character-for-character equality of two string slices.
pub fn str_eq(a: &str, b: &str) -> (r: bool)
    ensures
        r == (a@ == b@),
{
    let an = a.unicode_len();
    let bn = b.unicode_len();
    if an != bn {
        return false;
    }
    let mut i: usize = 0;
    while i < an
        invariant
            i <= an,
            an == a@.len(),
            an == b@.len(),
            forall|k: int| 0 <= k < i ==> a@[k] == b@[k],
        decreases an - i,
    {
        if a.get_char(i) != b.get_char(i) {
            return false;
        }
        i += 1;
    }
    assert(a@ =~= b@);
    true
}

// ---------------------------------------------------------------------------
// Whitespace and newline scanning
// ---------------------------------------------------------------------------

/// The blank characters recognised between fields and around values:
/// the ASCII space, tab, line feed and carriage return.
pub open spec fn is_space(c: char) -> bool {
    c == ' ' || c == '\t' || c == '\n' || c == '\r'
}

/// First position at or after `i` holding a blank character, or the length.
pub open spec fn next_space(s: Seq<char>, i: int) -> int
    decreases s.len() - i when 0 <= i <= s.len()
{
    if i == s.len() {
        i
    } else if is_space(s[i]) {
        i
    } else {
        next_space(s, i + 1)
    }
}

/// First position at or after `i` holding a non-blank character, or the length.
pub open spec fn next_nonspace(s: Seq<char>, i: int) -> int
    decreases s.len() - i when 0 <= i <= s.len()
{
    if i == s.len() {
        i
    } else if !is_space(s[i]) {
        i
    } else {
        next_nonspace(s, i + 1)
    }
}

/// First position at or after `i` holding a line feed, or the length.
pub open spec fn next_newline(s: Seq<char>, i: int) -> int
    decreases s.len() - i when 0 <= i <= s.len()
{
    if i == s.len() {
        i
    } else if s[i] == '\n' {
        i
    } else {
        next_newline(s, i + 1)
    }
}

pub proof fn lemma_next_nonspace(s: Seq<char>, i: int)
    requires
        0 <= i <= s.len(),
    ensures
        i <= next_nonspace(s, i) <= s.len(),
        forall|k: int| i <= k < next_nonspace(s, i) ==> is_space(s[k]),
        next_nonspace(s, i) < s.len() ==> !is_space(s[next_nonspace(s, i)]),
    decreases s.len() - i,
{
    if i < s.len() && is_space(s[i]) {
        lemma_next_nonspace(s, i + 1);
    }
}

pub proof fn lemma_next_newline(s: Seq<char>, i: int)
    requires
        0 <= i <= s.len(),
    ensures
        i <= next_newline(s, i) <= s.len(),
        forall|k: int| i <= k < next_newline(s, i) ==> s[k] != '\n',
        next_newline(s, i) < s.len() ==> s[next_newline(s, i)] == '\n',
    decreases s.len() - i,
{
    if i < s.len() && s[i] != '\n' {
        lemma_next_newline(s, i + 1);
    }
}

// ---------------------------------------------------------------------------
// Decimal numerals
// ---------------------------------------------------------------------------

pub open spec fn is_digit(c: char) -> bool {
    '0' as int <= c as int && c as int <= '9' as int
}

pub open spec fn digit_val(c: char) -> nat {
    (c as int - '0' as int) as nat
}

pub open spec fn all_digits(s: Seq<char>) -> bool {
    forall|i: int| 0 <= i < s.len() ==> is_digit(#[trigger] s[i])
}

/// The number a digit string denotes.
pub open spec fn digits_value(s: Seq<char>) -> nat
    decreases s.len(),
{
    if s.len() == 0 {
        0
    } else {
        digits_value(s.drop_last()) * 10 + digit_val(s.last())
    }
}

/// What `str::parse::<u64>` accepts and returns: an optional leading plus
/// sign, then one or more decimal digits, denoting a value within range.
pub open spec fn spec_parse_u64(s: Seq<char>) -> Option<u64> {
    let t = if s.len() > 0 && s[0] == '+' {
        s.skip(1)
    } else {
        s
    };
    if t.len() > 0 && all_digits(t) && digits_value(t) <= u64::MAX {
        Some(digits_value(t) as u64)
    } else {
        None
    }
}

proof fn lemma_digits_value_take_step(s: Seq<char>, k: int)
    requires
        0 <= k < s.len(),
    ensures
        digits_value(s.take(k + 1)) == digits_value(s.take(k)) * 10 + digit_val(s[k]),
{
    assert(s.take(k + 1).drop_last() =~= s.take(k));
    assert(s.take(k + 1).last() == s[k]);
}

proof fn lemma_digits_value_take_monotonic(s: Seq<char>, k: int)
    requires
        0 <= k <= s.len(),
    ensures
        digits_value(s.take(k)) <= digits_value(s),
    decreases s.len() - k,
{
    if k == s.len() {
        assert(s.take(k) =~= s);
    } else {
        lemma_digits_value_take_step(s, k);
        lemma_digits_value_take_monotonic(s, k + 1);
    }
}

/// Decimal parse of an unsigned 64-bit value, as `str::parse::<u64>` does it.
pub fn parse_u64(s: &str) -> (r: Option<u64>)
    ensures
        r == spec_parse_u64(s@),
{
    let n = s.unicode_len();
    if n == 0 {
        return None;
    }
    let plus = s.get_char(0) == '+';
    let start: usize = if plus {
        1
    } else {
        0
    };
    let ghost t = if plus {
        s@.skip(1)
    } else {
        s@
    };
    assert(t.len() == n - start);
    assert(forall|k: int| 0 <= k < t.len() ==> t[k] == s@[k + start]);
    if start == n {
        return None;
    }
    let mut acc: u64 = 0;
    let mut i: usize = start;
    while i < n
        invariant
            start <= i <= n,
            n == s@.len(),
            start <= 1,
            t.len() == n - start,
            forall|k: int| 0 <= k < t.len() ==> t[k] == s@[k + start],
            t == (if s@.len() > 0 && s@[0] == '+' {
                s@.skip(1)
            } else {
                s@
            }),
            forall|k: int| 0 <= k < i - start ==> is_digit(#[trigger] t[k]),
            acc == digits_value(t.take(i - start)),
        decreases n - i,
    {
        let c = s.get_char(i);
        let cu = c as u32;
        if cu < 48 || cu > 57 {
            assert(!is_digit(t[i - start]));
            return None;
        }
        let d = (cu - 48) as u64;
        assert(d == digit_val(t[i - start]));
        if acc > (u64::MAX - d) / 10 {
            // The value denoted so far already exceeds the range, and further
            // digits only grow it.
            proof {
                assert(acc * 10 + d > u64::MAX) by (nonlinear_arith)
                    requires
                        acc > (u64::MAX - d) / 10,
                        d <= 9,
                ;
                lemma_digits_value_take_step(t, i - start);
                if all_digits(t) {
                    lemma_digits_value_take_monotonic(t, i - start + 1);
                }
            }
            return None;
        }
        proof {
            assert(acc * 10 + d <= u64::MAX) by (nonlinear_arith)
                requires
                    acc <= (u64::MAX - d) / 10,
                    d <= 9,
            ;
            lemma_digits_value_take_step(t, i - start);
        }
        acc = acc * 10 + d;
        i += 1;
    }
    proof {
        assert(t.take(n - start) =~= t);
    }
    Some(acc)
}

/// The decimal numeral of `n`, most significant digit first.
pub open spec fn dec_digit_char(d: nat) -> char {
    if d == 0 {
        '0'
    } else if d == 1 {
        '1'
    } else if d == 2 {
        '2'
    } else if d == 3 {
        '3'
    } else if d == 4 {
        '4'
    } else if d == 5 {
        '5'
    } else if d == 6 {
        '6'
    } else if d == 7 {
        '7'
    } else if d == 8 {
        '8'
    } else {
        '9'
    }
}

pub open spec fn dec_str(n: nat) -> Seq<char>
    decreases n,
{
    if n < 10 {
        seq![dec_digit_char(n)]
    } else {
        dec_str(n / 10).push(dec_digit_char(n % 10))
    }
}

fn digit_string(d: u64) -> (r: String)
    requires
        d < 10,
    ensures
        r@ =~= seq![dec_digit_char(d as nat)],
{
    proof {
        reveal_strlit("0");
        reveal_strlit("1");
        reveal_strlit("2");
        reveal_strlit("3");
        reveal_strlit("4");
        reveal_strlit("5");
        reveal_strlit("6");
        reveal_strlit("7");
        reveal_strlit("8");
        reveal_strlit("9");
    }
    if d == 0 {
        "0".to_owned()
    } else if d == 1 {
        "1".to_owned()
    } else if d == 2 {
        "2".to_owned()
    } else if d == 3 {
        "3".to_owned()
    } else if d == 4 {
        "4".to_owned()
    } else if d == 5 {
        "5".to_owned()
    } else if d == 6 {
        "6".to_owned()
    } else if d == 7 {
        "7".to_owned()
    } else if d == 8 {
        "8".to_owned()
    } else {
        "9".to_owned()
    }
}

/// Renders `n` in decimal.
pub fn u64_to_string(n: u64) -> (r: String)
    ensures
        r@ == dec_str(n as nat),
    decreases n,
{
    if n < 10 {
        digit_string(n)
    } else {
        let mut s = u64_to_string(n / 10);
        let d = digit_string(n % 10);
        s.append(d.as_str());
        assert(s@ =~= dec_str((n / 10) as nat).push(dec_digit_char((n % 10) as nat)));
        s
    }
}

// ---------------------------------------------------------------------------
// Lines
// ---------------------------------------------------------------------------

/// A line with a trailing carriage return stripped, as `str::lines` yields it.
pub open spec fn strip_cr(line: Seq<char>) -> Seq<char> {
    if line.len() > 0 && line.last() == '\r' {
        line.drop_last()
    } else {
        line
    }
}

/// The lines of `s` from position `i` on: split at line feeds, each line
/// stripped of a trailing carriage return, a final line ending optional.
pub open spec fn spec_lines_from(s: Seq<char>, i: int) -> Seq<Seq<char>>
    decreases s.len() - i when 0 <= i <= s.len() via spec_lines_from_decreases
{
    if i == s.len() {
        Seq::empty()
    } else {
        let j = next_newline(s, i);
        if j == s.len() {
            seq![strip_cr(s.subrange(i, j))]
        } else {
            seq![strip_cr(s.subrange(i, j))] + spec_lines_from(s, j + 1)
        }
    }
}

#[via_fn]
proof fn spec_lines_from_decreases(s: Seq<char>, i: int) {
    lemma_next_newline(s, i);
}

/// The lines of `s`, as `str::lines` yields them.
pub open spec fn spec_lines(s: Seq<char>) -> Seq<Seq<char>> {
    spec_lines_from(s, 0)
}

/// Splits `s` into its lines.
pub fn split_lines(s: &str) -> (r: Vec<String>)
    ensures
        r.deep_view() == spec_lines(s@),
{
    let n = s.unicode_len();
    let mut res: Vec<String> = Vec::new();
    let mut i: usize = 0;
    while i < n
        invariant
            i <= n,
            n == s@.len(),
            res.deep_view() + spec_lines_from(s@, i as int) == spec_lines(s@),
        decreases n - i,
    {
        let ghost res0 = res.deep_view();
        let mut j: usize = i;
        while j < n && s.get_char(j) != '\n'
            invariant
                i <= j <= n,
                n == s@.len(),
                next_newline(s@, i as int) == next_newline(s@, j as int),
            decreases n - j,
        {
            j += 1;
        }
        assert(j == next_newline(s@, i as int));
        let end = if j > i && s.get_char(j - 1) == '\r' {
            j - 1
        } else {
            j
        };
        let line = s.substring_char(i, end).to_owned();
        proof {
            assert(line@ =~= strip_cr(s@.subrange(i as int, j as int))) by {
                if j > i && s@[j - 1] == '\r' {
                    assert(s@.subrange(i as int, j as int).last() == s@[j - 1]);
                    assert(s@.subrange(i as int, end as int) =~= s@.subrange(
                        i as int,
                        j as int,
                    ).drop_last());
                }
            }
        }
        res.push(line);
        proof {
            assert(res.deep_view() =~= res0.push(line@));
        }
        if j == n {
            i = n;
            proof {
                assert(res.deep_view() + spec_lines_from(s@, n as int) =~= spec_lines(s@));
            }
        } else {
            i = j + 1;
            proof {
                assert(res.deep_view() + spec_lines_from(s@, i as int) =~= spec_lines(s@));
            }
        }
    }
    proof {
        assert(res.deep_view() =~= spec_lines(s@));
    }
    res
}

/// The lines joined with line feeds, as `[&str]::join("\n")` yields them.
pub open spec fn spec_join_lines(ls: Seq<Seq<char>>) -> Seq<char>
    decreases ls.len(),
{
    if ls.len() == 0 {
        Seq::empty()
    } else if ls.len() == 1 {
        ls[0]
    } else {
        spec_join_lines(ls.drop_last()) + seq!['\n'] + ls.last()
    }
}

/// Joins `lines[start..]` with line feeds.
pub fn join_lines_from(lines: &Vec<String>, start: usize) -> (r: String)
    requires
        start <= lines@.len(),
    ensures
        r@ == spec_join_lines(lines.deep_view().skip(start as int)),
{
    let ghost dv = lines.deep_view();
    let mut r = String::new();
    let mut i: usize = start;
    proof {
        reveal_strlit("\n");
        assert(dv.skip(start as int).subrange(0, 0) =~= Seq::<Seq<char>>::empty());
    }
    while i < lines.len()
        invariant
            start <= i <= lines@.len(),
            dv == lines.deep_view(),
            dv.len() == lines@.len(),
            forall|k: int| 0 <= k < dv.len() ==> dv[k] == lines@[k]@,
            r@ == spec_join_lines(dv.subrange(start as int, i as int)),
        decreases lines@.len() - i,
    {
        if i > start {
            r.append("\n");
        }
        r.append(lines[i].as_str());
        proof {
            reveal_strlit("\n");
            let sub = dv.subrange(start as int, i + 1);
            assert(sub.drop_last() =~= dv.subrange(start as int, i as int));
            assert(sub.last() == dv[i as int]);
            if i == start {
                assert(r@ =~= spec_join_lines(sub));
            } else {
                assert(r@ =~= spec_join_lines(sub.drop_last()) + seq!['\n'] + sub.last());
            }
        }
        i += 1;
    }
    proof {
        assert(dv.subrange(start as int, dv.len() as int) =~= dv.skip(start as int));
    }
    r
}

// ---------------------------------------------------------------------------
// Tokens
// ---------------------------------------------------------------------------

/// The second whitespace-separated token of `s`, if there are at least two;
/// what `str::split_whitespace().nth(1)` yields.
pub open spec fn spec_second_token(s: Seq<char>) -> Option<Seq<char>> {
    let a0 = next_nonspace(s, 0);
    if a0 == s.len() {
        None
    } else {
        let e0 = next_space(s, a0);
        let a1 = next_nonspace(s, e0);
        if a1 == s.len() {
            None
        } else {
            Some(s.subrange(a1, next_space(s, a1)))
        }
    }
}

fn scan_nonspace(s: &str, from: usize) -> (r: usize)
    requires
        from <= s@.len(),
    ensures
        r == next_nonspace(s@, from as int),
        from <= r <= s@.len(),
{
    let n = s.unicode_len();
    let mut i = from;
    while i < n
        invariant
            from <= i <= n,
            n == s@.len(),
            next_nonspace(s@, from as int) == next_nonspace(s@, i as int),
        decreases n - i,
    {
        let c = s.get_char(i);
        if !(c == ' ' || c == '\t' || c == '\n' || c == '\r') {
            return i;
        }
        i += 1;
    }
    i
}

fn scan_space(s: &str, from: usize) -> (r: usize)
    requires
        from <= s@.len(),
    ensures
        r == next_space(s@, from as int),
        from <= r <= s@.len(),
{
    let n = s.unicode_len();
    let mut i = from;
    while i < n
        invariant
            from <= i <= n,
            n == s@.len(),
            next_space(s@, from as int) == next_space(s@, i as int),
        decreases n - i,
    {
        let c = s.get_char(i);
        if c == ' ' || c == '\t' || c == '\n' || c == '\r' {
            return i;
        }
        i += 1;
    }
    i
}

/// The second whitespace-separated token of `s`, if any.
pub fn second_token(s: &str) -> (r: Option<String>)
    ensures
        match r {
            Some(t) => spec_second_token(s@) == Some(t@),
            None => spec_second_token(s@) is None,
        },
{
    let n = s.unicode_len();
    let a0 = scan_nonspace(s, 0);
    if a0 == n {
        return None;
    }
    let e0 = scan_space(s, a0);
    let a1 = scan_nonspace(s, e0);
    if a1 == n {
        return None;
    }
    let e1 = scan_space(s, a1);
    Some(s.substring_char(a1, e1).to_owned())
}

// ---------------------------------------------------------------------------
// Trimming
// ---------------------------------------------------------------------------

/// Largest position at or before `i` holding a non-blank character, or -1.
pub open spec fn prev_nonspace(s: Seq<char>, i: int) -> int
    decreases i + 1 when -1 <= i < s.len()
{
    if i == -1 {
        i
    } else if !is_space(s[i]) {
        i
    } else {
        prev_nonspace(s, i - 1)
    }
}

pub proof fn lemma_prev_nonspace(s: Seq<char>, i: int)
    requires
        -1 <= i < s.len(),
    ensures
        -1 <= prev_nonspace(s, i) <= i,
        forall|k: int| prev_nonspace(s, i) < k <= i ==> is_space(s[k]),
        prev_nonspace(s, i) >= 0 ==> !is_space(s[prev_nonspace(s, i)]),
    decreases i + 1,
{
    if i >= 0 && is_space(s[i]) {
        lemma_prev_nonspace(s, i - 1);
    }
}

/// `s` with blank characters removed from both ends, as `str::trim` does.
pub open spec fn spec_trim(s: Seq<char>) -> Seq<char> {
    let b = prev_nonspace(s, s.len() - 1);
    if b == -1 {
        Seq::empty()
    } else {
        s.subrange(next_nonspace(s, 0), b + 1)
    }
}

/// Trims blank characters from both ends of `s`.
pub fn str_trim(s: &str) -> (r: String)
    ensures
        r@ == spec_trim(s@),
{
    let n = s.unicode_len();
    let a = scan_nonspace(s, 0);
    if a == n {
        proof {
            lemma_next_nonspace(s@, 0);
            lemma_prev_nonspace_all_space(s@);
        }
        return String::new();
    }
    let mut b = n;
    while b > a
        invariant
            a <= b <= n,
            n == s@.len(),
            a == next_nonspace(s@, 0),
            a < n,
            prev_nonspace(s@, n as int - 1) == prev_nonspace(s@, b as int - 1),
        decreases b,
    {
        let c = s.get_char(b - 1);
        if !(c == ' ' || c == '\t' || c == '\n' || c == '\r') {
            proof {
                lemma_next_nonspace(s@, 0);
            }
            return s.substring_char(a, b).to_owned();
        }
        b -= 1;
    }
    proof {
        lemma_next_nonspace(s@, 0);
        lemma_prev_nonspace_all_space_from(s@, a as int - 1);
        lemma_prev_nonspace(s@, n as int - 1);
        assert(is_space(s@[a as int]));
        assert(false);
    }
    String::new()
}

proof fn lemma_prev_nonspace_all_space(s: Seq<char>)
    requires
        forall|k: int| 0 <= k < s.len() ==> is_space(s[k]),
    ensures
        prev_nonspace(s, s.len() - 1) == -1,
{
    lemma_prev_nonspace_all_space_from(s, s.len() - 1);
}

proof fn lemma_prev_nonspace_all_space_from(s: Seq<char>, i: int)
    requires
        -1 <= i < s.len(),
        forall|k: int| 0 <= k <= i ==> is_space(s[k]),
    ensures
        prev_nonspace(s, i) == -1,
    decreases i + 1,
{
    if i >= 0 {
        lemma_prev_nonspace_all_space_from(s, i - 1);
    }
}

} // verus!
