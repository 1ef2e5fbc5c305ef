//! Byte-level text helpers: splitting on a separator and parsing unsigned
//! decimal numbers, with exact specifications.

use vstd::prelude::*;

verus! {

/// Splitting on a separator byte, as `str::split` does on a one-byte
/// pattern: the empty input gives one empty segment, and a separator at
/// either end or two adjacent separators give empty segments.
pub open spec fn split_seq(s: Seq<u8>, sep: u8) -> Seq<Seq<u8>>
    decreases s.len(),
{
    if s.len() == 0 {
        seq![Seq::<u8>::empty()]
    } else if s[0] == sep {
        seq![Seq::<u8>::empty()] + split_seq(s.skip(1), sep)
    } else {
        let rest = split_seq(s.skip(1), sep);
        seq![seq![s[0]] + rest[0]] + rest.skip(1)
    }
}

pub proof fn lemma_split_seq_len(s: Seq<u8>, sep: u8)
    ensures
        split_seq(s, sep).len() >= 1,
    decreases s.len(),
{
    if s.len() > 0 {
        lemma_split_seq_len(s.skip(1), sep);
    }
}

/// A segment with no separator splits into just itself.
pub proof fn lemma_split_seq_no_sep(s: Seq<u8>, sep: u8)
    requires
        forall|i: int| 0 <= i < s.len() ==> s[i] != sep,
    ensures
        split_seq(s, sep) == seq![s],
    decreases s.len(),
{
    if s.len() == 0 {
        assert(s =~= Seq::<u8>::empty());
        assert(split_seq(s, sep) =~~= seq![s]);
    } else {
        lemma_split_seq_no_sep(s.skip(1), sep);
        lemma_split_seq_len(s.skip(1), sep);
        let rest = split_seq(s.skip(1), sep);
        assert(rest[0] == s.skip(1));
        assert(seq![s[0]] + rest[0] =~= s);
        assert(rest.skip(1) =~= Seq::<Seq<u8>>::empty());
        assert(split_seq(s, sep) =~~= seq![s]);
    }
}

/// Splitting at the first separator: everything before it is the first
/// segment, and the rest splits on its own.
pub proof fn lemma_split_seq_first(s: Seq<u8>, sep: u8, m: int)
    requires
        0 <= m < s.len(),
        s[m] == sep,
        forall|i: int| 0 <= i < m ==> s[i] != sep,
    ensures
        split_seq(s, sep) == seq![s.take(m)] + split_seq(s.skip(m + 1), sep),
    decreases m,
{
    if m == 0 {
        assert(s.take(0) =~= Seq::<u8>::empty());
        assert(split_seq(s, sep) =~~= seq![s.take(0)] + split_seq(s.skip(1), sep));
    } else {
        let tail = s.skip(1);
        assert(tail[m - 1] == sep);
        assert(forall|i: int| 0 <= i < m - 1 ==> tail[i] != sep);
        lemma_split_seq_first(tail, sep, m - 1);
        lemma_split_seq_len(tail.skip(m), sep);
        let rest = split_seq(tail, sep);
        assert(rest == seq![tail.take(m - 1)] + split_seq(tail.skip(m), sep));
        assert(rest[0] == tail.take(m - 1));
        assert(seq![s[0]] + tail.take(m - 1) =~= s.take(m));
        assert(rest.skip(1) =~= split_seq(tail.skip(m), sep));
        assert(tail.skip(m) =~= s.skip(m + 1));
        assert(split_seq(s, sep) =~~= seq![s.take(m)] + split_seq(s.skip(m + 1), sep));
    }
}

/// Split a byte slice on a separator byte, `str::split`-style.
pub fn split_on(s: &[u8], sep: u8) -> (parts: Vec<Vec<u8>>)
    ensures
        parts.deep_view() == split_seq(s@, sep),
{
    let mut parts: Vec<Vec<u8>> = Vec::new();
    let mut start: usize = 0;
    let mut i: usize = 0;
    proof {
        assert(s@.skip(0) =~= s@);
        assert(parts.deep_view() =~= Seq::<Seq<u8>>::empty());
        assert(parts.deep_view() + split_seq(s@, sep) =~= split_seq(s@, sep));
    }
    while i < s.len()
        invariant
            0 <= start as int <= i as int <= s@.len(),
            forall|k: int| start <= k < i ==> s@[k] != sep,
            split_seq(s@, sep) == parts.deep_view() + split_seq(s@.skip(start as int), sep),
        decreases s@.len() - i,
    {
        if s[i] == sep {
            proof {
                let sub = s@.skip(start as int);
                assert(sub[i - start] == sep);
                assert(forall|k: int| 0 <= k < i - start ==> sub[k] != sep);
                lemma_split_seq_first(sub, sep, i as int - start as int);
                assert(sub.take(i - start) =~= s@.subrange(start as int, i as int));
                assert(sub.skip(i - start + 1) =~= s@.skip(i as int + 1));
            }
            let part = vstd::slice::slice_to_vec(vstd::slice::slice_subrange(s, start, i));
            let ghost old_parts = parts.deep_view();
            parts.push(part);
            proof {
                assert(parts.deep_view() =~~= old_parts.push(
                    s@.subrange(start as int, i as int),
                ));
                assert(parts.deep_view() + split_seq(s@.skip(i as int + 1), sep) =~= split_seq(
                    s@,
                    sep,
                ));
            }
            start = i + 1;
        }
        i = i + 1;
    }
    proof {
        let sub = s@.skip(start as int);
        assert(forall|k: int| 0 <= k < sub.len() ==> sub[k] != sep);
        lemma_split_seq_no_sep(sub, sep);
    }
    let last = vstd::slice::slice_to_vec(vstd::slice::slice_subrange(s, start, s.len()));
    let ghost old_parts = parts.deep_view();
    parts.push(last);
    proof {
        assert(s@.subrange(start as int, s@.len() as int) =~= s@.skip(start as int));
        assert(parts.deep_view() =~~= old_parts.push(s@.skip(start as int)));
        assert(parts.deep_view() =~= split_seq(s@, sep));
    }
    parts
}

/// ASCII `'0'`.
pub const ASCII_ZERO: u8 = 48;

/// ASCII `'9'`.
pub const ASCII_NINE: u8 = 57;

/// ASCII `'+'`.
pub const ASCII_PLUS: u8 = 43;

/// An ASCII decimal digit.
pub open spec fn is_digit(b: u8) -> bool {
    ASCII_ZERO <= b <= ASCII_NINE
}

pub open spec fn all_digits(s: Seq<u8>) -> bool {
    forall|i: int| 0 <= i < s.len() ==> is_digit(s[i])
}

/// The number written by a sequence of decimal digits, most significant
/// first.
pub open spec fn digits_value(s: Seq<u8>) -> int
    decreases s.len(),
{
    if s.len() == 0 {
        0
    } else {
        digits_value(s.drop_last()) * 10 + (s.last() - ASCII_ZERO)
    }
}

pub proof fn lemma_digits_value_nonneg(s: Seq<u8>)
    requires
        all_digits(s),
    ensures
        digits_value(s) >= 0,
    decreases s.len(),
{
    if s.len() > 0 {
        assert(all_digits(s.drop_last()));
        lemma_digits_value_nonneg(s.drop_last());
    }
}

/// A digit string is worth at least any of its prefixes.
pub proof fn lemma_digits_value_prefix(s: Seq<u8>, k: int)
    requires
        all_digits(s),
        0 <= k <= s.len(),
    ensures
        digits_value(s.take(k)) <= digits_value(s),
    decreases s.len() - k,
{
    if k < s.len() {
        lemma_digits_value_prefix(s, k + 1);
        let p = s.take(k + 1);
        assert(p.drop_last() =~= s.take(k));
        assert(all_digits(s.take(k)));
        lemma_digits_value_nonneg(s.take(k));
        assert(digits_value(p) == digits_value(s.take(k)) * 10 + (p.last() - ASCII_ZERO));
        assert(digits_value(s.take(k)) * 10 >= digits_value(s.take(k)));
        assert(digits_value(s.take(k)) <= digits_value(s.take(k + 1)));
    } else {
        assert(s.take(k) =~= s);
    }
}

/// The digits of an unsigned decimal literal as `str::parse` reads it: an
/// optional leading plus sign, then the digits themselves.
pub open spec fn unsigned_body(s: Seq<u8>) -> Seq<u8> {
    if s.len() > 0 && s[0] == ASCII_PLUS {
        s.skip(1)
    } else {
        s
    }
}

/// What `str::parse::<u32>` accepts and returns: an optional plus sign,
/// one or more decimal digits, and a value that fits in the type.
pub open spec fn parse_u32_spec(s: Seq<u8>) -> Option<u32> {
    let body = unsigned_body(s);
    if body.len() >= 1 && all_digits(body) && digits_value(body) <= u32::MAX {
        Some(digits_value(body) as u32)
    } else {
        None
    }
}

/// Parse an unsigned decimal number from bytes, exactly as
/// `str::parse::<u32>` does.
pub fn parse_u32(s: &[u8]) -> (r: Option<u32>)
    ensures
        r == parse_u32_spec(s@),
{
    let body_start: usize = if s.len() > 0 && s[0] == ASCII_PLUS {
        1
    } else {
        0
    };
    proof {
        assert(unsigned_body(s@) =~= s@.skip(body_start as int));
    }
    let ghost body = s@.skip(body_start as int);
    if s.len() == body_start {
        return None;
    }
    let mut acc: u32 = 0;
    let mut i: usize = body_start;
    while i < s.len()
        invariant
            body_start <= i <= s@.len(),
            body == s@.skip(body_start as int),
            body == unsigned_body(s@),
            body_start == 0 || body_start == 1,
            body.len() == s@.len() - body_start,
            forall|k: int| 0 <= k < i - body_start ==> is_digit(body[k]),
            acc == digits_value(body.take(i - body_start)),
        decreases s@.len() - i,
    {
        let b = s[i];
        if b < ASCII_ZERO || b > ASCII_NINE {
            proof {
                assert(body[i - body_start] == b);
                assert(!all_digits(body));
            }
            return None;
        }
        let d = (b - ASCII_ZERO) as u32;
        let next: u64 = acc as u64 * 10 + d as u64;
        if next > u32::MAX as u64 {
            proof {
                let p = body.take(i - body_start + 1);
                assert(p.drop_last() =~= body.take(i - body_start));
                assert(p.last() == b);
                assert(digits_value(p) == next);
                if all_digits(body) {
                    lemma_digits_value_prefix(body, i - body_start + 1);
                    assert(digits_value(body) > u32::MAX);
                }
            }
            return None;
        }
        acc = next as u32;
        proof {
            let p = body.take(i - body_start + 1);
            assert(p.drop_last() =~= body.take(i - body_start));
            assert(p.last() == b);
        }
        i = i + 1;
    }
    proof {
        assert(body.take(s@.len() - body_start) =~= body);
        assert(all_digits(body));
        lemma_digits_value_nonneg(body);
    }
    Some(acc)
}

} // verus!
