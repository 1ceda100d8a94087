//! Byte-level scanning primitives shared by every header grammar: character
//! classes, maximal-run scanning, literal matching, and decimal conversion.
use vstd::prelude::*;

verus! {

/// Horizontal whitespace: space or tab.
pub open spec fn is_space_b(b: u8) -> bool {
    b == 32 || b == 9
}

/// ASCII decimal digit.
pub open spec fn is_digit_b(b: u8) -> bool {
    48 <= b && b <= 57
}

/// ASCII letter.
pub open spec fn is_alpha_b(b: u8) -> bool {
    (65 <= b && b <= 90) || (97 <= b && b <= 122)
}

/// ASCII letter or digit.
pub open spec fn is_alnum_b(b: u8) -> bool {
    is_alpha_b(b) || is_digit_b(b)
}

/// A character that may appear in a header tag: letter, digit or `-`.
pub open spec fn is_tag_b(b: u8) -> bool {
    is_alnum_b(b) || b == 45
}

/// A character of a free-text payload: anything but the carriage return.
pub open spec fn is_text_b(b: u8) -> bool {
    b != 13
}

/// A character of an embedded URI: anything but `>` and the carriage return.
pub open spec fn is_uri_b(b: u8) -> bool {
    b != 62 && b != 13
}

/// A character of a quoted display name: letter or space.
pub open spec fn is_name_b(b: u8) -> bool {
    is_alpha_b(b) || is_space_b(b)
}

/// A character of a decimal literal: digit or dot.
pub open spec fn is_dec_b(b: u8) -> bool {
    is_digit_b(b) || b == 46
}

/// End of the maximal run of characters satisfying `pred`, starting at `i`.
pub open spec fn run_end(s: Seq<u8>, i: int, pred: spec_fn(u8) -> bool) -> int
    decreases s.len() - i,
{
    if i < s.len() && pred(s[i]) {
        run_end(s, i + 1, pred)
    } else {
        i
    }
}

/// `run_end` lands exactly at the first index at or after `i` whose character
/// fails `pred` (or at the end of the sequence).
pub proof fn lemma_run_end(s: Seq<u8>, i: int, pred: spec_fn(u8) -> bool)
    requires
        0 <= i <= s.len(),
    ensures
        i <= run_end(s, i, pred) <= s.len(),
        forall|j: int| i <= j < run_end(s, i, pred) ==> pred(s[j]),
        run_end(s, i, pred) < s.len() ==> !pred(s[run_end(s, i, pred)]),
    decreases s.len() - i,
{
    if i < s.len() && pred(s[i]) {
        lemma_run_end(s, i + 1, pred);
    }
}

/// The converse direction: a stretch of `pred` characters followed by a
/// failing character (or the end) pins `run_end` down.
pub proof fn lemma_run_end_is(s: Seq<u8>, i: int, k: int, pred: spec_fn(u8) -> bool)
    requires
        0 <= i <= k <= s.len(),
        forall|j: int| i <= j < k ==> pred(s[j]),
        k == s.len() || !pred(s[k]),
    ensures
        run_end(s, i, pred) == k,
    decreases k - i,
{
    if i < k {
        lemma_run_end_is(s, i + 1, k, pred);
    }
}

/// Read one byte.
pub fn at(s: &[u8], i: usize) -> (r: u8)
    requires
        i < s@.len(),
    ensures
        r == s@[i as int],
{
    *vstd::slice::slice_index_get(s, i)
}

/// Exec counterpart of the spec character classes, one test per class.
pub fn is_space_x(b: u8) -> (r: bool)
    ensures
        r == is_space_b(b),
{
    b == 32 || b == 9
}

pub fn is_digit_x(b: u8) -> (r: bool)
    ensures
        r == is_digit_b(b),
{
    48 <= b && b <= 57
}

pub fn is_alpha_x(b: u8) -> (r: bool)
    ensures
        r == is_alpha_b(b),
{
    (65 <= b && b <= 90) || (97 <= b && b <= 122)
}

pub fn is_alnum_x(b: u8) -> (r: bool)
    ensures
        r == is_alnum_b(b),
{
    is_alpha_x(b) || is_digit_x(b)
}

pub fn is_tag_x(b: u8) -> (r: bool)
    ensures
        r == is_tag_b(b),
{
    is_alnum_x(b) || b == 45
}

/// Which character class a scan advances over.
#[derive(Clone, Copy, Debug, PartialEq, Eq, Structural)]
pub enum Class {
    Space,
    Digit,
    Alpha,
    Alnum,
    Tag,
    Text,
    Uri,
    Name,
    Dec,
}

/// The spec predicate a `Class` stands for.
pub open spec fn class_pred(c: Class) -> spec_fn(u8) -> bool {
    match c {
        Class::Space => |b: u8| is_space_b(b),
        Class::Digit => |b: u8| is_digit_b(b),
        Class::Alpha => |b: u8| is_alpha_b(b),
        Class::Alnum => |b: u8| is_alnum_b(b),
        Class::Tag => |b: u8| is_tag_b(b),
        Class::Text => |b: u8| is_text_b(b),
        Class::Uri => |b: u8| is_uri_b(b),
        Class::Name => |b: u8| is_name_b(b),
        Class::Dec => |b: u8| is_dec_b(b),
    }
}

fn class_test(c: Class, b: u8) -> (r: bool)
    ensures
        r == class_pred(c)(b),
{
    match c {
        Class::Space => is_space_x(b),
        Class::Digit => is_digit_x(b),
        Class::Alpha => is_alpha_x(b),
        Class::Alnum => is_alnum_x(b),
        Class::Tag => is_tag_x(b),
        Class::Text => b != 13,
        Class::Uri => b != 62 && b != 13,
        Class::Name => is_alpha_x(b) || is_space_x(b),
        Class::Dec => is_digit_x(b) || b == 46,
    }
}

/// Advance over the maximal run of characters of class `c`.
pub fn scan(s: &[u8], i: usize, c: Class) -> (r: usize)
    requires
        i <= s@.len(),
    ensures
        r == run_end(s@, i as int, class_pred(c)),
        i <= r <= s@.len(),
{
    proof {
        lemma_run_end(s@, i as int, class_pred(c));
    }
    let mut j: usize = i;
    loop
        invariant
            i <= j <= s@.len(),
            run_end(s@, i as int, class_pred(c)) == run_end(s@, j as int, class_pred(c)),
        decreases s@.len() - j,
    {
        if j < s.len() && class_test(c, at(s, j)) {
            j = j + 1;
        } else {
            return j;
        }
    }
}

/// The two-byte line terminator.
pub open spec fn crlf() -> Seq<u8> {
    seq![13u8, 10u8]
}

/// The canonical separator between a tag and its value.
pub open spec fn colon_space() -> Seq<u8> {
    seq![58u8, 32u8]
}

/// Whether `lit` occurs in `s` starting at `p`.
pub open spec fn has_at(s: Seq<u8>, p: int, lit: Seq<u8>) -> bool {
    0 <= p && p + lit.len() <= s.len() && s.subrange(p, p + lit.len()) == lit
}

/// Exec test for `has_at`.
pub fn match_at(s: &[u8], p: usize, lit: &[u8]) -> (r: bool)
    requires
        p <= s@.len(),
    ensures
        r == has_at(s@, p as int, lit@),
{
    if s.len() - p < lit.len() {
        proof {
            assert(p + lit@.len() > s@.len());
        }
        return false;
    }
    let n = s.len();
    let mut i: usize = 0;
    while i < lit.len()
        invariant
            0 <= i <= lit@.len(),
            p + lit@.len() <= s@.len(),
            n == s@.len(),
            forall|j: int| 0 <= j < i ==> s@[p + j] == lit@[j],
        decreases lit@.len() - i,
    {
        if at(s, p + i) != at(lit, i) {
            proof {
                assert(s@.subrange(p as int, p + lit@.len())[i as int] != lit@[i as int]);
            }
            return false;
        }
        i = i + 1;
    }
    proof {
        assert(s@.subrange(p as int, p + lit@.len()) =~= lit@);
    }
    true
}

/// Whether two byte ranges hold the same bytes.
pub fn range_is(s: &[u8], from: usize, to: usize, lit: &[u8]) -> (r: bool)
    requires
        from <= to <= s@.len(),
    ensures
        r == (s@.subrange(from as int, to as int) == lit@),
    {
    if to - from != lit.len() {
        proof {
            assert(s@.subrange(from as int, to as int).len() != lit@.len());
        }
        return false;
    }
    let m = match_at(s, from, lit);
    proof {
        if m {
            assert(s@.subrange(from as int, to as int) =~= lit@);
        } else {
            assert(s@.subrange(from as int, from + lit@.len()) == s@.subrange(
                from as int,
                to as int,
            ));
        }
    }
    m
}

/// Value of a decimal digit string, most significant digit first.
pub open spec fn digits_val(d: Seq<u8>) -> int
    decreases d.len(),
{
    if d.len() == 0 {
        0
    } else {
        digits_val(d.drop_last()) * 10 + (d.last() - 48)
    }
}

/// The canonical decimal digit string of a number.
pub open spec fn spec_digits(n: int) -> Seq<u8>
    decreases n,
{
    if n <= 9 {
        seq![(48 + if n >= 0 { n } else { 0 }) as u8]
    } else {
        spec_digits(n / 10).push((48 + n % 10) as u8)
    }
}

/// The canonical digit string consists of digits and reads back to its value.
pub proof fn lemma_digits(n: int)
    requires
        n >= 0,
    ensures
        spec_digits(n).len() >= 1,
        forall|i: int| 0 <= i < spec_digits(n).len() ==> is_digit_b(#[trigger] spec_digits(n)[i]),
        digits_val(spec_digits(n)) == n,
    decreases n,
{
    if n <= 9 {
        assert(digits_val(spec_digits(n).drop_last()) == 0);
    } else {
        lemma_digits(n / 10);
        assert(spec_digits(n).drop_last() =~= spec_digits(n / 10));
        assert(forall|i: int|
            0 <= i < spec_digits(n).len() - 1 ==> #[trigger] spec_digits(n)[i] == spec_digits(
                n / 10,
            )[i]);
    }
}

/// A longer digit prefix never reads back to a smaller value.
pub proof fn lemma_digits_val_grows(d: Seq<u8>, k: int)
    requires
        0 <= k <= d.len(),
        forall|i: int| 0 <= i < d.len() ==> is_digit_b(#[trigger] d[i]),
    ensures
        digits_val(d) >= digits_val(d.subrange(0, k)),
        digits_val(d) >= 0,
    decreases d.len() - k,
{
    if k == d.len() {
        assert(d.subrange(0, k) =~= d);
        lemma_digits_val_nonneg(d);
    } else {
        lemma_digits_val_grows(d, k + 1);
        let a = d.subrange(0, k);
        let b = d.subrange(0, k + 1);
        assert(b.drop_last() =~= a);
        lemma_digits_val_nonneg(a);
    }
}

proof fn lemma_digits_val_nonneg(d: Seq<u8>)
    requires
        forall|i: int| 0 <= i < d.len() ==> is_digit_b(#[trigger] d[i]),
    ensures
        digits_val(d) >= 0,
    decreases d.len(),
{
    if d.len() > 0 {
        lemma_digits_val_nonneg(d.drop_last());
    }
}

/// Parse the digit run at `p` as an unsigned 32-bit number: at least one
/// digit is required, and a run reading beyond `u32::MAX` is a value error.
pub open spec fn sp_u32(s: Seq<u8>, p: int) -> Result<(u32, int), crate::SipError> {
    let e = run_end(s, p, |b: u8| is_digit_b(b));
    if e == p {
        Err(crate::SipError::GrammarMismatch)
    } else if digits_val(s.subrange(p, e)) > u32::MAX {
        Err(crate::SipError::FormatError)
    } else {
        Ok((digits_val(s.subrange(p, e)) as u32, e))
    }
}

/// Exec digit-run parser.
pub fn parse_u32_at(s: &[u8], p: usize) -> (r: Result<(u32, usize), crate::SipError>)
    requires
        p <= s@.len(),
    ensures
        match r {
            Ok((v, e)) => sp_u32(s@, p as int) == Ok::<(u32, int), crate::SipError>((v, e as int))
                && p < e <= s@.len(),
            Err(er) => sp_u32(s@, p as int) == Err::<(u32, int), crate::SipError>(er),
        },
{
    let ghost pred = class_pred(Class::Digit);
    let e = scan(s, p, Class::Digit);
    proof {
        lemma_run_end(s@, p as int, pred);
        assert(run_end(s@, p as int, pred) == run_end(s@, p as int, |b: u8| is_digit_b(b))) by {
            assert(pred == (|b: u8| is_digit_b(b)));
        }
    }
    if e == p {
        return Err(crate::SipError::GrammarMismatch);
    }
    let ghost d = s@.subrange(p as int, e as int);
    let mut v: u32 = 0;
    let mut i: usize = p;
    while i < e
        invariant
            p < e,
            p <= i <= e <= s@.len(),
            e == run_end(s@, p as int, |b: u8| is_digit_b(b)),
            forall|j: int| p <= j < e ==> is_digit_b(#[trigger] s@[j]),
            d == s@.subrange(p as int, e as int),
            v == digits_val(d.subrange(0, i - p)),
        decreases e - i,
    {
        let c = at(s, i);
        proof {
            assert(d.subrange(0, i + 1 - p).drop_last() =~= d.subrange(0, i - p));
            assert(d.subrange(0, i + 1 - p).last() == s@[i as int]);
        }
        let dig: u32 = (c - 48) as u32;
        if v > (u32::MAX - dig) / 10 {
            proof {
                lemma_digits_val_grows(d, i + 1 - p);
                assert(d.subrange(0, d.len() as int) =~= d);
                assert(digits_val(d.subrange(0, i + 1 - p)) == v * 10 + dig);
                assert(v * 10 + dig > u32::MAX) by (nonlinear_arith)
                    requires
                        v > (u32::MAX - dig) / 10,
                        dig < 10,
                ;
            }
            return Err(crate::SipError::FormatError);
        }
        v = v * 10 + dig;
        i = i + 1;
    }
    proof {
        assert(d.subrange(0, e - p) =~= d);
    }
    Ok((v, e))
}

/// Append the canonical decimal digits of `n`.
pub fn push_digits(out: &mut Vec<u8>, n: u32)
    ensures
        final(out)@ == old(out)@ + spec_digits(n as int),
    decreases n,
{
    if n <= 9 {
        out.push(48 + n as u8);
        proof {
            assert(out@ =~= old(out)@ + spec_digits(n as int));
        }
    } else {
        push_digits(out, n / 10);
        out.push(48 + (n % 10) as u8);
        proof {
            assert(out@ =~= old(out)@ + spec_digits(n as int));
        }
    }
}

} // verus!
