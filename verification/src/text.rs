//! Verified text utilities for the line-oriented, pipe-delimited diagnostic
//! protocol: splitting, ASCII trimming, decimal parsing and formatting.
//!
//! Every function is specified against a direct mathematical definition over
//! `Seq<char>`, so the protocol parser's contracts can state exactly what
//! they produce from the input text.

use vstd::prelude::*;

verus! {

/// The character views of a sequence of strings.
pub open spec fn seq_views(ss: Seq<String>) -> Seq<Seq<char>> {
    ss.map_values(|s: String| s@)
}

/// Relies on `String::push`: appends exactly one character to the string.
#[verifier::external_body]
pub(crate) fn string_push(s: &mut String, c: char)
    ensures
        final(s)@ == old(s)@.push(c),
{
    s.push(c);
}

// ---------------------------------------------------------------------------
// Splitting
// ---------------------------------------------------------------------------

/// Fields of `s` delimited by `sep`, keeping empty fields; the empty input
/// has one empty field.
pub open spec fn spec_split(s: Seq<char>, sep: char) -> Seq<Seq<char>>
    decreases s.len(),
{
    if s.len() == 0 {
        seq![Seq::<char>::empty()]
    } else if s.last() == sep {
        spec_split(s.drop_last(), sep).push(Seq::<char>::empty())
    } else {
        let r = spec_split(s.drop_last(), sep);
        r.update(r.len() - 1, r.last().push(s.last()))
    }
}

pub proof fn lemma_spec_split_len(s: Seq<char>, sep: char)
    ensures
        spec_split(s, sep).len() >= 1,
    decreases s.len(),
{
    if s.len() > 0 {
        lemma_spec_split_len(s.drop_last(), sep);
    }
}

/// Split `s` at every occurrence of `sep`, keeping empty fields.
pub fn split(s: &str, sep: char) -> (r: Vec<String>)
    ensures
        seq_views(r@) == spec_split(s@, sep),
{
    let n = s.unicode_len();
    let mut done: Vec<String> = Vec::new();
    let mut cur: String = String::new();
    let mut i: usize = 0;
    while i < n
        invariant
            n == s@.len(),
            i <= n,
            seq_views(done@).push(cur@) == spec_split(s@.take(i as int), sep),
        decreases n - i,
    {
        let c = s.get_char(i);
        proof {
            assert(s@.take(i + 1).drop_last() =~= s@.take(i as int));
            assert(s@.take(i + 1).last() == s@[i as int]);
            lemma_spec_split_len(s@.take(i as int), sep);
        }
        if c == sep {
            let ghost prev_done = done@;
            let ghost prev_cur = cur@;
            done.push(cur);
            cur = String::new();
            proof {
                assert(seq_views(done@).push(cur@) =~= spec_split(s@.take(i + 1), sep));
            }
        } else {
            let ghost prev = seq_views(done@).push(cur@);
            string_push(&mut cur, c);
            proof {
                assert(seq_views(done@).push(cur@) =~= prev.update(
                    prev.len() - 1,
                    prev.last().push(c),
                ));
            }
        }
        i += 1;
    }
    proof {
        assert(s@.take(n as int) =~= s@);
    }
    done.push(cur);
    done
}

// ---------------------------------------------------------------------------
// ASCII trimming
// ---------------------------------------------------------------------------

/// ASCII whitespace, the only kind the diagnostic protocol produces.
pub open spec fn is_space(c: char) -> bool {
    c == ' ' || c == '\t' || c == '\n' || c == '\r'
}

pub open spec fn spec_trim_front(s: Seq<char>) -> Seq<char>
    decreases s.len(),
{
    if s.len() > 0 && is_space(s.first()) {
        spec_trim_front(s.drop_first())
    } else {
        s
    }
}

pub open spec fn spec_trim_back(s: Seq<char>) -> Seq<char>
    decreases s.len(),
{
    if s.len() > 0 && is_space(s.last()) {
        spec_trim_back(s.drop_last())
    } else {
        s
    }
}

/// `s` with leading and trailing ASCII whitespace removed.
pub open spec fn spec_trim(s: Seq<char>) -> Seq<char> {
    spec_trim_back(spec_trim_front(s))
}

/// Executable test for ASCII whitespace.
fn is_space_char(c: char) -> (r: bool)
    ensures
        r == is_space(c),
{
    c == ' ' || c == '\t' || c == '\n' || c == '\r'
}

/// Trim leading and trailing ASCII whitespace.
pub fn trim(s: &str) -> (r: String)
    ensures
        r@ == spec_trim(s@),
{
    let n = s.unicode_len();
    let mut lo: usize = 0;
    proof {
        assert(s@.skip(0) =~= s@);
    }
    while lo < n && is_space_char(s.get_char(lo))
        invariant
            n == s@.len(),
            lo <= n,
            spec_trim_front(s@) == spec_trim_front(s@.skip(lo as int)),
        decreases n - lo,
    {
        proof {
            assert(s@.skip(lo as int).first() == s@[lo as int]);
            assert(s@.skip(lo as int).drop_first() =~= s@.skip(lo + 1));
        }
        lo += 1;
    }
    proof {
        if lo < n {
            assert(s@.skip(lo as int).first() == s@[lo as int]);
        }
        assert(spec_trim_front(s@) =~= s@.skip(lo as int));
    }
    let mut hi: usize = n;
    while hi > lo && is_space_char(s.get_char(hi - 1))
        invariant
            n == s@.len(),
            lo <= hi <= n,
            spec_trim_front(s@) == s@.skip(lo as int),
            spec_trim_back(s@.skip(lo as int)) == spec_trim_back(s@.subrange(lo as int, hi as int)),
        decreases hi,
    {
        proof {
            assert(s@.subrange(lo as int, hi as int).last() == s@[hi - 1]);
            assert(s@.subrange(lo as int, hi as int).drop_last() =~= s@.subrange(
                lo as int,
                hi - 1,
            ));
        }
        hi -= 1;
    }
    proof {
        if hi > lo {
            assert(s@.subrange(lo as int, hi as int).last() == s@[hi - 1]);
        }
        assert(spec_trim_back(s@.subrange(lo as int, hi as int)) =~= s@.subrange(
            lo as int,
            hi as int,
        ));
    }
    s.substring_char(lo, hi).to_owned()
}

// ---------------------------------------------------------------------------
// Decimal parsing
// ---------------------------------------------------------------------------

pub open spec fn is_digit(c: char) -> bool {
    '0' <= c && c <= '9'
}

pub open spec fn digit_val(c: char) -> int {
    c as int - 48
}

pub open spec fn all_digits(s: Seq<char>) -> bool {
    forall|i: int| 0 <= i < s.len() ==> is_digit(#[trigger] s[i])
}

/// The integer value of a digit string, most significant digit first.
pub open spec fn dec_value(s: Seq<char>) -> int
    decreases s.len(),
{
    if s.len() == 0 {
        0
    } else {
        dec_value(s.drop_last()) * 10 + digit_val(s.last())
    }
}

pub proof fn lemma_dec_value_nonneg(s: Seq<char>)
    requires
        all_digits(s),
    ensures
        dec_value(s) >= 0,
    decreases s.len(),
{
    if s.len() > 0 {
        assert(all_digits(s.drop_last())) by {
            assert(forall|i: int|
                0 <= i < s.drop_last().len() ==> s.drop_last()[i] == #[trigger] s[i]);
        }
        lemma_dec_value_nonneg(s.drop_last());
    }
}

/// Extending a digit string can only grow its value.
pub proof fn lemma_dec_value_prefix_le(s: Seq<char>, i: int, j: int)
    requires
        all_digits(s),
        0 <= i <= j <= s.len(),
    ensures
        dec_value(s.take(i)) <= dec_value(s.take(j)),
    decreases j - i,
{
    if i < j {
        lemma_dec_value_prefix_le(s, i, j - 1);
        let p = s.take(j - 1);
        assert(all_digits(p)) by {
            assert(forall|k: int| 0 <= k < p.len() ==> p[k] == #[trigger] s[k]);
        }
        lemma_dec_value_nonneg(p);
        assert(s.take(j).drop_last() =~= p);
        assert(dec_value(s.take(j)) == dec_value(p) * 10 + digit_val(s[j - 1]));
        assert(dec_value(p) * 10 >= dec_value(p)) by (nonlinear_arith)
            requires
                dec_value(p) >= 0,
        ;
    }
}

/// What `str::parse::<u32>` accepts: an optional leading `+`, then at least
/// one digit, with a value that fits in 32 bits.
pub open spec fn spec_parse_u32(s: Seq<char>) -> Option<u32> {
    let t = if s.len() > 0 && s.first() == '+' {
        s.drop_first()
    } else {
        s
    };
    if t.len() > 0 && all_digits(t) && dec_value(t) <= u32::MAX {
        Some(dec_value(t) as u32)
    } else {
        None
    }
}

/// Parse a decimal `u32`, accepting an optional leading `+`.
pub fn parse_u32(s: &str) -> (r: Option<u32>)
    ensures
        r == spec_parse_u32(s@),
{
    let n = s.unicode_len();
    let mut start: usize = 0;
    if n > 0 && s.get_char(0) == '+' {
        start = 1;
    }
    let ghost t = if s@.len() > 0 && s@.first() == '+' {
        s@.drop_first()
    } else {
        s@
    };
    proof {
        assert(t =~= s@.skip(start as int));
    }
    if start == n {
        return None;
    }
    let mut acc: u32 = 0;
    let mut i: usize = start;
    while i < n
        invariant
            n == s@.len(),
            start <= i <= n,
            start < n,
            t == s@.skip(start as int),
            t == (if s@.len() > 0 && s@.first() == '+' {
                s@.drop_first()
            } else {
                s@
            }),
            all_digits(t.take(i - start)),
            acc == dec_value(t.take(i - start)),
        decreases n - i,
    {
        let c = s.get_char(i);
        let cv = c as u32;
        proof {
            assert(t[i - start] == s@[i as int]);
            assert(t.take(i - start + 1).drop_last() =~= t.take(i - start));
            assert(t.take(i - start + 1).last() == t[i - start]);
        }
        if cv < 48 || cv > 57 {
            proof {
                assert(!is_digit(t[i - start]));
                assert(!all_digits(t));
            }
            return None;
        }
        let d: u32 = cv - 48;
        if acc > (u32::MAX - d) / 10 {
            proof {
                // acc * 10 + d overflows, so the full value cannot fit either.
                let v = dec_value(t.take(i - start + 1));
                assert(v == acc * 10 + d);
                assert(acc * 10 + d > u32::MAX) by (nonlinear_arith)
                    requires
                        acc > (u32::MAX - d) / 10,
                        0 <= d <= 9,
                        acc >= 0,
                ;
                if all_digits(t) {
                    lemma_dec_value_prefix_le(t, i - start + 1, t.len() as int);
                    assert(t.take(t.len() as int) =~= t);
                }
            }
            return None;
        }
        proof {
            assert(acc * 10 + d <= u32::MAX) by (nonlinear_arith)
                requires
                    acc <= (u32::MAX - d) / 10,
                    0 <= d <= 9,
                    acc >= 0,
            ;
        }
        acc = acc * 10 + d;
        i += 1;
    }
    proof {
        assert(t.take(i - start) =~= t);
    }
    Some(acc)
}

/// A whitespace-tolerant numeric field: trimmed, then parsed, with 0 for
/// anything unparseable.
pub open spec fn spec_field_u32(s: Seq<char>) -> u32 {
    match spec_parse_u32(spec_trim(s)) {
        Some(v) => v,
        None => 0,
    }
}

/// Parse a numeric protocol field, defaulting to 0 when malformed.
pub fn field_u32(s: &str) -> (r: u32)
    ensures
        r == spec_field_u32(s@),
{
    let trimmed = trim(s);
    match parse_u32(trimmed.as_str()) {
        Some(v) => v,
        None => 0,
    }
}

/// The parseable entries of a comma-separated list, in order; unparseable
/// entries are dropped.
pub open spec fn filter_parsed(fields: Seq<Seq<char>>) -> Seq<u32>
    decreases fields.len(),
{
    if fields.len() == 0 {
        Seq::empty()
    } else {
        let rest = filter_parsed(fields.drop_last());
        match spec_parse_u32(spec_trim(fields.last())) {
            Some(v) => rest.push(v),
            None => rest,
        }
    }
}

/// The comma-separated integers of `s`, dropping unparseable entries.
pub open spec fn spec_csv_u32s(s: Seq<char>) -> Seq<u32> {
    filter_parsed(spec_split(s, ','))
}

/// Parse a comma-separated integer list, dropping unparseable entries.
pub fn parse_csv_u32s(s: &str) -> (r: Vec<u32>)
    ensures
        r@ == spec_csv_u32s(s@),
{
    let fields = split(s, ',');
    let ghost fviews = seq_views(fields@);
    let mut out: Vec<u32> = Vec::new();
    let mut i: usize = 0;
    while i < fields.len()
        invariant
            fviews == seq_views(fields@),
            i <= fields.len(),
            out@ == filter_parsed(fviews.take(i as int)),
        decreases fields.len() - i,
    {
        proof {
            assert(fviews.take(i + 1).drop_last() =~= fviews.take(i as int));
            assert(fviews.take(i + 1).last() == fviews[i as int]);
            assert(fviews[i as int] == fields@[i as int]@);
        }
        let trimmed = trim(fields[i].as_str());
        match parse_u32(trimmed.as_str()) {
            Some(v) => out.push(v),
            None => (),
        }
        i += 1;
    }
    proof {
        assert(fviews.take(fields@.len() as int) =~= fviews);
    }
    out
}

// ---------------------------------------------------------------------------
// Lines
// ---------------------------------------------------------------------------

/// A line with a trailing carriage return removed.
pub open spec fn strip_cr(l: Seq<char>) -> Seq<char> {
    if l.len() > 0 && l.last() == '\r' {
        l.drop_last()
    } else {
        l
    }
}

/// The lines of `s`: split at `\n`, no trailing empty line, and a carriage
/// return stripped from the end of every line that a `\n` terminated.
pub open spec fn spec_lines(s: Seq<char>) -> Seq<Seq<char>> {
    let raw = spec_split(s, '\n');
    let terminated = raw.drop_last().map_values(|l: Seq<char>| strip_cr(l));
    if raw.last().len() == 0 {
        terminated
    } else {
        terminated.push(raw.last())
    }
}

/// Split into lines, tolerating both `\n` and `\r\n` terminators.
pub fn lines(s: &str) -> (r: Vec<String>)
    ensures
        seq_views(r@) == spec_lines(s@),
{
    let mut raw = split(s, '\n');
    let ghost rviews = seq_views(raw@);
    proof {
        lemma_spec_split_len(s@, '\n');
    }
    let last_field = raw.pop().unwrap();
    proof {
        assert(seq_views(raw@) =~= rviews.drop_last());
    }
    let mut out: Vec<String> = Vec::new();
    let mut i: usize = 0;
    while i < raw.len()
        invariant
            seq_views(raw@) == rviews.drop_last(),
            rviews.len() >= 1,
            i <= raw.len(),
            out@.len() == i,
            forall|j: int|
                0 <= j < i ==> #[trigger] out@[j]@ == strip_cr(rviews.drop_last()[j]),
        decreases raw.len() - i,
    {
        let f = &raw[i];
        let fn_len = f.as_str().unicode_len();
        proof {
            assert(f@ == rviews.drop_last()[i as int]);
        }
        if fn_len > 0 && f.as_str().get_char(fn_len - 1) == '\r' {
            let stripped = f.as_str().substring_char(0, fn_len - 1).to_owned();
            proof {
                assert(f@.subrange(0, f@.len() - 1) =~= f@.drop_last());
            }
            out.push(stripped);
        } else {
            out.push(f.clone());
        }
        i += 1;
    }
    if last_field.as_str().unicode_len() > 0 {
        out.push(last_field);
    }
    proof {
        assert(seq_views(out@) =~= spec_lines(s@));
    }
    out
}

// ---------------------------------------------------------------------------
// Prefix and suffix handling
// ---------------------------------------------------------------------------

/// Whether `l` begins with `p`.
pub open spec fn is_prefixed(l: Seq<char>, p: Seq<char>) -> bool {
    l.len() >= p.len() && l.take(p.len() as int) == p
}

/// Whether `l` ends with `p`.
pub open spec fn is_suffixed(l: Seq<char>, p: Seq<char>) -> bool {
    l.len() >= p.len() && l.skip(l.len() - p.len()) == p
}

/// Whether `s` begins with `prefix`.
pub fn starts_with(s: &str, prefix: &str) -> (r: bool)
    ensures
        r == (s@.len() >= prefix@.len() && s@.take(prefix@.len() as int) == prefix@),
{
    let n = s.unicode_len();
    let p = prefix.unicode_len();
    if n < p {
        return false;
    }
    let mut i: usize = 0;
    while i < p
        invariant
            n == s@.len(),
            p == prefix@.len(),
            p <= n,
            i <= p,
            forall|j: int| 0 <= j < i ==> s@[j] == prefix@[j],
        decreases p - i,
    {
        if s.get_char(i) != prefix.get_char(i) {
            proof {
                assert(s@.take(p as int)[i as int] != prefix@[i as int]);
            }
            return false;
        }
        i += 1;
    }
    proof {
        assert(s@.take(p as int) =~= prefix@);
    }
    true
}

/// Whether two strings hold the same characters.
pub fn str_eq(a: &str, b: &str) -> (r: bool)
    ensures
        r == (a@ == b@),
{
    let an = a.unicode_len();
    let bn = b.unicode_len();
    if an != bn {
        proof {
            assert(a@ != b@);
        }
        return false;
    }
    let mut i: usize = 0;
    while i < an
        invariant
            an == a@.len(),
            an == b@.len(),
            i <= an,
            forall|j: int| 0 <= j < i ==> a@[j] == b@[j],
        decreases an - i,
    {
        if a.get_char(i) != b.get_char(i) {
            return false;
        }
        i += 1;
    }
    proof {
        assert(a@ =~= b@);
    }
    true
}

/// Whether `s` ends with `suffix`.
pub fn ends_with(s: &str, suffix: &str) -> (r: bool)
    ensures
        r == is_suffixed(s@, suffix@),
{
    let n = s.unicode_len();
    let p = suffix.unicode_len();
    if n < p {
        return false;
    }
    let base = n - p;
    let mut i: usize = 0;
    while i < p
        invariant
            n == s@.len(),
            p == suffix@.len(),
            p <= n,
            base == n - p,
            i <= p,
            forall|j: int| 0 <= j < i ==> s@[base + j] == suffix@[j],
        decreases p - i,
    {
        if s.get_char(base + i) != suffix.get_char(i) {
            proof {
                assert(s@.skip(base as int)[i as int] != suffix@[i as int]);
            }
            return false;
        }
        i += 1;
    }
    proof {
        assert(s@.skip(base as int) =~= suffix@);
    }
    true
}

/// The rest of `s` after `prefix`, or `None` when `s` does not start with
/// it.
pub fn strip_prefix<'a>(s: &'a str, prefix: &str) -> (r: Option<String>)
    ensures
        match r {
            Some(rest) => s@.len() >= prefix@.len() && s@.take(prefix@.len() as int) == prefix@
                && rest@ == s@.skip(prefix@.len() as int),
            None => !(s@.len() >= prefix@.len() && s@.take(prefix@.len() as int) == prefix@),
        },
{
    if starts_with(s, prefix) {
        let n = s.unicode_len();
        let p = prefix.unicode_len();
        Some(s.substring_char(p, n).to_owned())
    } else {
        None
    }
}

// ---------------------------------------------------------------------------
// Decimal formatting
// ---------------------------------------------------------------------------

/// The character of one decimal digit.
pub open spec fn digit_char(d: int) -> char {
    (48 + d) as char
}

/// The decimal digit string of a nonnegative integer, no sign, no leading
/// zeros except for 0 itself.
pub open spec fn spec_dec_digits(n: int) -> Seq<char>
    decreases n,
{
    if n < 10 {
        seq![digit_char(n)]
    } else {
        spec_dec_digits(n / 10).push(digit_char(n % 10))
    }
}

/// Format an integer in decimal.
pub fn u64_to_string(n: u64) -> (r: String)
    ensures
        r@ == spec_dec_digits(n as int),
    decreases n,
{
    if n < 10 {
        let mut s = String::new();
        string_push(&mut s, (48 + n as u8) as char);
        s
    } else {
        let mut s = u64_to_string(n / 10);
        string_push(&mut s, (48 + (n % 10) as u8) as char);
        s
    }
}

/// Format an integer in decimal.
pub fn u32_to_string(n: u32) -> (r: String)
    ensures
        r@ == spec_dec_digits(n as int),
{
    u64_to_string(n as u64)
}

// ---------------------------------------------------------------------------
// Lexicographic order and sorting
// ---------------------------------------------------------------------------

/// Lexicographic order on character sequences, by code point.
pub open spec fn spec_str_le(a: Seq<char>, b: Seq<char>) -> bool
    decreases a.len(),
{
    if a.len() == 0 {
        true
    } else if b.len() == 0 {
        false
    } else if a.first() < b.first() {
        true
    } else if a.first() > b.first() {
        false
    } else {
        spec_str_le(a.drop_first(), b.drop_first())
    }
}

/// The lexicographic order as a relation value, for sortedness statements.
pub open spec fn str_le_order() -> spec_fn(Seq<char>, Seq<char>) -> bool {
    |a: Seq<char>, b: Seq<char>| spec_str_le(a, b)
}

proof fn lemma_str_le_refl(a: Seq<char>)
    ensures
        spec_str_le(a, a),
    decreases a.len(),
{
    if a.len() > 0 {
        lemma_str_le_refl(a.drop_first());
    }
}

proof fn lemma_str_le_connected(a: Seq<char>, b: Seq<char>)
    ensures
        spec_str_le(a, b) || spec_str_le(b, a),
    decreases a.len(),
{
    if a.len() > 0 && b.len() > 0 && a.first() == b.first() {
        lemma_str_le_connected(a.drop_first(), b.drop_first());
    }
}

proof fn lemma_str_le_antisym(a: Seq<char>, b: Seq<char>)
    requires
        spec_str_le(a, b),
        spec_str_le(b, a),
    ensures
        a == b,
    decreases a.len(),
{
    if a.len() == 0 {
        assert(b.len() == 0);
        assert(a =~= b);
    } else {
        lemma_str_le_antisym(a.drop_first(), b.drop_first());
        assert(a =~= seq![a.first()] + a.drop_first());
        assert(b =~= seq![b.first()] + b.drop_first());
    }
}

proof fn lemma_str_le_trans(a: Seq<char>, b: Seq<char>, c: Seq<char>)
    requires
        spec_str_le(a, b),
        spec_str_le(b, c),
    ensures
        spec_str_le(a, c),
    decreases a.len(),
{
    if a.len() > 0 && b.len() > 0 && c.len() > 0 && a.first() == b.first() && b.first()
        == c.first() {
        lemma_str_le_trans(a.drop_first(), b.drop_first(), c.drop_first());
    }
}

/// The lexicographic order is a total ordering.
pub proof fn lemma_str_le_total_ordering()
    ensures
        vstd::relations::total_ordering(str_le_order()),
{
    let leq = str_le_order();
    assert forall|x: Seq<char>| #[trigger] leq(x, x) by {
        lemma_str_le_refl(x);
    }
    assert forall|x: Seq<char>, y: Seq<char>| #[trigger] leq(x, y) && #[trigger] leq(y, x)
        implies x == y by {
        lemma_str_le_antisym(x, y);
    }
    assert forall|x: Seq<char>, y: Seq<char>, z: Seq<char>|
        #[trigger] leq(x, y) && #[trigger] leq(y, z) implies leq(x, z) by {
        lemma_str_le_trans(x, y, z);
    }
    assert forall|x: Seq<char>, y: Seq<char>| #[trigger] leq(x, y) || #[trigger] leq(y, x) by {
        lemma_str_le_connected(x, y);
    }
}

/// Compare two strings in lexicographic order.
pub fn str_le(a: &str, b: &str) -> (r: bool)
    ensures
        r == spec_str_le(a@, b@),
{
    let an = a.unicode_len();
    let bn = b.unicode_len();
    let mut i: usize = 0;
    proof {
        assert(a@.skip(0) =~= a@);
        assert(b@.skip(0) =~= b@);
    }
    loop
        invariant
            an == a@.len(),
            bn == b@.len(),
            i <= an,
            i <= bn,
            spec_str_le(a@, b@) == spec_str_le(a@.skip(i as int), b@.skip(i as int)),
        decreases an - i,
    {
        if i >= an {
            return true;
        }
        if i >= bn {
            return false;
        }
        let ac = a.get_char(i);
        let bc = b.get_char(i);
        proof {
            assert(a@.skip(i as int).first() == a@[i as int]);
            assert(b@.skip(i as int).first() == b@[i as int]);
            assert(a@.skip(i as int).drop_first() =~= a@.skip(i + 1));
            assert(b@.skip(i as int).drop_first() =~= b@.skip(i + 1));
        }
        if ac < bc {
            return true;
        }
        if ac > bc {
            return false;
        }
        i += 1;
    }
}

/// Insertion preserves sortedness when the element goes between its
/// neighbours.
proof fn lemma_insert_sorted(s: Seq<Seq<char>>, x: Seq<char>, idx: int)
    requires
        vstd::relations::sorted_by(s, str_le_order()),
        0 <= idx <= s.len(),
        forall|j: int| 0 <= j < idx ==> #[trigger] spec_str_le(s[j], x),
        forall|j: int| idx <= j < s.len() ==> #[trigger] spec_str_le(x, s[j]),
    ensures
        vstd::relations::sorted_by(s.insert(idx, x), str_le_order()),
{
    let leq = str_le_order();
    let t = s.insert(idx, x);
    assert forall|i: int, j: int| 0 <= i < j < t.len() implies #[trigger] leq(t[i], t[j]) by {
        if i < idx && j < idx {
            assert(leq(s[i], s[j]));
        } else if i < idx && j == idx {
            assert(spec_str_le(s[i], x));
        } else if i < idx && j > idx {
            assert(leq(s[i], s[j - 1]));
        } else if i == idx && j > idx {
            assert(spec_str_le(x, s[j - 1]));
        } else if i > idx {
            assert(leq(s[i - 1], s[j - 1]));
        }
    }
}

/// Sort strings lexicographically.
pub fn sort_strings(v: &Vec<String>) -> (r: Vec<String>)
    ensures
        seq_views(r@) == seq_views(v@).sort_by(str_le_order()),
{
    broadcast use vstd::seq_lib::group_to_multiset_ensures;

    let ghost leq = str_le_order();
    proof {
        lemma_str_le_total_ordering();
    }
    let mut out: Vec<String> = Vec::new();
    let mut i: usize = 0;
    while i < v.len()
        invariant
            i <= v@.len(),
            vstd::relations::sorted_by(seq_views(out@), str_le_order()),
            seq_views(out@).to_multiset() == seq_views(v@.take(i as int)).to_multiset(),
        decreases v@.len() - i,
    {
        broadcast use vstd::seq_lib::group_to_multiset_ensures;

        let x = v[i].clone();
        let ghost prev = seq_views(out@);
        let mut idx: usize = 0;
        while idx < out.len() && str_le(out[idx].as_str(), x.as_str())
            invariant
                prev == seq_views(out@),
                x@ == v@[i as int]@,
                idx <= out@.len(),
                forall|j: int| 0 <= j < idx ==> #[trigger] spec_str_le(seq_views(out@)[j], x@),
            decreases out@.len() - idx,
        {
            idx += 1;
        }
        proof {
            lemma_str_le_total_ordering();
            assert forall|j: int| idx <= j < prev.len() implies #[trigger] spec_str_le(
                x@,
                prev[j],
            ) by {
                if j == idx {
                    assert(!spec_str_le(prev[j], x@));
                    lemma_str_le_connected(prev[j], x@);
                } else {
                    assert(!spec_str_le(prev[idx as int], x@));
                    lemma_str_le_connected(prev[idx as int], x@);
                    assert(str_le_order()(prev[idx as int], prev[j]));
                    lemma_str_le_trans(x@, prev[idx as int], prev[j]);
                }
            }
            lemma_insert_sorted(prev, x@, idx as int);
        }
        out.insert(idx, x);
        proof {
            assert(seq_views(out@) =~= prev.insert(idx as int, v@[i as int]@));
            // The multiset gains exactly the inserted view.
            let now = seq_views(out@);
            assert(now.remove(idx as int) =~= prev);
            assert(now.remove(idx as int).to_multiset() =~= now.to_multiset().remove(
                now[idx as int],
            ));
            assert(now.to_multiset().contains(now[idx as int]));
            assert(now.to_multiset() =~= prev.to_multiset().insert(v@[i as int]@));
            assert(seq_views(v@.take(i + 1)).drop_last() =~= seq_views(v@.take(i as int)));
            assert(seq_views(v@.take(i + 1)) =~= seq_views(v@.take(i as int)).push(v@[i as int]@));
        }
        i += 1;
    }
    proof {
        assert(v@.take(v@.len() as int) =~= v@);
        lemma_str_le_total_ordering();
        seq_views(v@).lemma_sort_by_ensures(str_le_order());
        vstd::seq_lib::lemma_sorted_unique(
            seq_views(out@),
            seq_views(v@).sort_by(str_le_order()),
            str_le_order(),
        );
        assert(seq_views(out@) =~= seq_views(v@).sort_by(str_le_order()));
    }
    out
}

} // verus!
