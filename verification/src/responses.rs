//! Pure classification of remote responses: HTTP status and body checks
//! for each of the five operations, summation of cart line items, and
//! extraction of the checkout-session identifier from a page body.
//!
//! The driver performs the HTTP call and parses the wire format; the
//! functions here take the plain observations (status code, parsed flags,
//! body bytes) and decide, exactly, success or which error.

use vstd::prelude::*;

use crate::errors::Error;
use crate::text::{ASCII_NINE, ASCII_ZERO};

verus! {

/// ASCII `'a'`.
pub const ASCII_LOWER_A: u8 = 97;

/// ASCII `'f'`.
pub const ASCII_LOWER_F: u8 = 102;

/// ASCII `'-'`.
pub const ASCII_HYPHEN: u8 = 45;

/// The HTTP status of a forbidden response, reported with less detail
/// than other failures.
pub const FORBIDDEN_STATUS: u16 = 403;

/// A success HTTP status.
pub open spec fn is_success_status(status: u16) -> bool {
    200 <= status < 300
}

/// One line item of the cart price summary.
pub struct ProductSummaryResponse {
    pub id: u32,
    pub total_price: u32,
}

/// The sum of the per-item totals of a price summary.
pub open spec fn summary_total(items: Seq<ProductSummaryResponse>) -> int
    decreases items.len(),
{
    if items.len() == 0 {
        0
    } else {
        summary_total(items.drop_last()) + items.last().total_price
    }
}

/// A prefix of the line items never sums to more than all of them.
pub proof fn lemma_summary_total_prefix(items: Seq<ProductSummaryResponse>, k: int)
    requires
        0 <= k <= items.len(),
    ensures
        summary_total(items.take(k)) <= summary_total(items),
    decreases items.len() - k,
{
    if k < items.len() {
        lemma_summary_total_prefix(items, k + 1);
        let p = items.take(k + 1);
        assert(p.drop_last() =~= items.take(k));
    } else {
        assert(items.take(k) =~= items);
    }
}

/// The cart's total price: the sum of the per-item totals, or nothing if
/// that sum does not fit the unsigned type it is reported in.
pub fn sum_total_prices(items: &Vec<ProductSummaryResponse>) -> (r: Option<u32>)
    ensures
        summary_total(items@) <= u32::MAX ==> r == Some(summary_total(items@) as u32),
        summary_total(items@) > u32::MAX ==> r is None,
{
    let mut acc: u32 = 0;
    let mut i: usize = 0;
    while i < items.len()
        invariant
            0 <= i <= items@.len(),
            acc == summary_total(items@.take(i as int)),
        decreases items@.len() - i,
    {
        let next: u64 = acc as u64 + items[i].total_price as u64;
        proof {
            let p = items@.take(i + 1);
            assert(p.drop_last() =~= items@.take(i as int));
            assert(p.last() == items@[i as int]);
        }
        if next > u32::MAX as u64 {
            proof {
                lemma_summary_total_prefix(items@, i + 1);
            }
            return None;
        }
        acc = next as u32;
        i = i + 1;
    }
    proof {
        assert(items@.take(items@.len() as int) =~= items@);
    }
    Some(acc)
}

/// Classify a response where only the HTTP status decides: success iff
/// the status is a success status.
pub fn classify_status(status: u16) -> (r: Result<(), Error>)
    ensures
        r is Ok <==> is_success_status(status),
        r matches Err(err) ==> err == (Error::BadStatusError { status, detail: None }),
{
    if status >= 200 && status < 300 {
        Ok(())
    } else {
        Err(Error::BadStatusError { status, detail: None })
    }
}

/// Classify the add-to-cart response: a bad status fails first; then a
/// body that did not parse; then a parsed body whose success flag (absent
/// meaning false) is not set.
pub fn classify_cart_response(status: u16, success: Option<bool>) -> (r: Result<(), Error>)
    ensures
        r is Ok <==> is_success_status(status) && success == Some(true),
        !is_success_status(status) ==> r == Err::<(), Error>(
            Error::BadStatusError { status, detail: None },
        ),
        is_success_status(status) && success is None ==> r == Err::<(), Error>(
            Error::MalformedResponseError,
        ),
        is_success_status(status) && success == Some(false) ==> r == Err::<(), Error>(
            Error::BusinessRejectionError,
        ),
{
    if status < 200 || status >= 300 {
        return Err(Error::BadStatusError { status, detail: None });
    }
    match success {
        None => Err(Error::MalformedResponseError),
        Some(false) => Err(Error::BusinessRejectionError),
        Some(true) => Ok(()),
    }
}

/// Classify the order-creation response. A non-success status fails with
/// its body as detail, except a forbidden status, whose body is withheld
/// so that anti-automation challenge pages are not treated as ordinary
/// diagnostics; both are equally retryable. A success status with an
/// unparsable body is malformed; a parsed body with a non-empty error
/// field is an explicit rejection.
pub fn classify_order_response(
    status: u16,
    body: String,
    parsed: bool,
    error_field: Option<String>,
) -> (r: Result<(), Error>)
    ensures
        r is Ok <==> is_success_status(status) && parsed && (match error_field {
            Some(e) => e@.len() == 0,
            None => true,
        }),
        !is_success_status(status) && status != FORBIDDEN_STATUS ==> r == Err::<(), Error>(
            Error::BadStatusError { status, detail: Some(body) },
        ),
        !is_success_status(status) && status == FORBIDDEN_STATUS ==> r == Err::<(), Error>(
            Error::BadStatusError { status, detail: None },
        ),
        is_success_status(status) && !parsed ==> r == Err::<(), Error>(
            Error::MalformedResponseError,
        ),
        is_success_status(status) && parsed && (error_field matches Some(e) && e@.len() > 0)
            ==> r == Err::<(), Error>(Error::BusinessRejectionError),
{
    if status < 200 || status >= 300 {
        if status != FORBIDDEN_STATUS {
            return Err(Error::BadStatusError { status, detail: Some(body) });
        }
        return Err(Error::BadStatusError { status, detail: None });
    }
    if !parsed {
        return Err(Error::MalformedResponseError);
    }
    match error_field {
        Some(e) => {
            if e.as_str().is_empty() {
                Ok(())
            } else {
                Err(Error::BusinessRejectionError)
            }
        },
        None => Ok(()),
    }
}

/// A byte that may appear in a session identifier: a lower-case
/// hexadecimal digit or a hyphen.
pub open spec fn is_uid_byte(b: u8) -> bool {
    (ASCII_LOWER_A <= b <= ASCII_LOWER_F) || (ASCII_ZERO <= b <= ASCII_NINE) || b == ASCII_HYPHEN
}

/// The bytes of the `session_uid=` marker that precedes the identifier
/// in the cart page body.
pub open spec fn session_uid_marker() -> Seq<u8> {
    seq![115u8, 101u8, 115u8, 115u8, 105u8, 111u8, 110u8, 95u8, 117u8, 105u8, 100u8, 61u8]
}

/// The marker stands at position `i` and at least one identifier byte
/// follows it.
pub open spec fn uid_match_at(t: Seq<u8>, i: int) -> bool {
    &&& 0 <= i
    &&& i + 12 < t.len()
    &&& t.subrange(i, i + 12) == session_uid_marker()
    &&& is_uid_byte(t[i + 12])
}

/// The end of the run of identifier bytes that starts at `j`.
pub open spec fn uid_run_end(t: Seq<u8>, j: int) -> int
    decreases t.len() - j,
{
    if j < 0 || j >= t.len() {
        j
    } else if !is_uid_byte(t[j]) {
        j
    } else {
        uid_run_end(t, j + 1)
    }
}

/// A run of identifier bytes from `start` up to, not including, `j`,
/// ending there, ends exactly at `j`.
proof fn lemma_uid_run_end(t: Seq<u8>, start: int, j: int)
    requires
        0 <= start <= j <= t.len(),
        forall|k: int| start <= k < j ==> is_uid_byte(t[k]),
        j == t.len() || !is_uid_byte(t[j]),
    ensures
        uid_run_end(t, start) == j,
    decreases j - start,
{
    if start < j {
        lemma_uid_run_end(t, start + 1, j);
    }
}

/// The marker bytes, for the byte-by-byte comparison.
fn session_uid_marker_bytes() -> (r: Vec<u8>)
    ensures
        r@ == session_uid_marker(),
{
    let mut v: Vec<u8> = Vec::new();
    v.push(115u8);
    v.push(101u8);
    v.push(115u8);
    v.push(115u8);
    v.push(105u8);
    v.push(111u8);
    v.push(110u8);
    v.push(95u8);
    v.push(117u8);
    v.push(105u8);
    v.push(100u8);
    v.push(61u8);
    proof {
        assert(v@ =~= session_uid_marker());
    }
    v
}

/// Whether the marker stands at position `i`.
fn marker_at(t: &[u8], i: usize) -> (b: bool)
    requires
        i + 12 <= t@.len(),
    ensures
        b <==> t@.subrange(i as int, i as int + 12) == session_uid_marker(),
{
    let marker = session_uid_marker_bytes();
    let tlen = t.len();
    let mut j: usize = 0;
    while j < 12
        invariant
            0 <= j <= 12,
            i + 12 <= tlen == t@.len(),
            marker@ == session_uid_marker(),
            forall|k: int| 0 <= k < j ==> t@[i + k] == session_uid_marker()[k],
        decreases 12 - j,
    {
        if t[i + j] != marker[j] {
            proof {
                assert(t@.subrange(i as int, i as int + 12)[j as int] == t@[i + j]);
            }
            return false;
        }
        j = j + 1;
    }
    proof {
        assert(t@.subrange(i as int, i as int + 12) =~= session_uid_marker());
    }
    true
}

/// Whether a byte may appear in a session identifier.
fn is_uid_byte_exec(b: u8) -> (r: bool)
    ensures
        r == is_uid_byte(b),
{
    (b >= ASCII_LOWER_A && b <= ASCII_LOWER_F) || (b >= ASCII_ZERO && b <= ASCII_NINE)
        || b == ASCII_HYPHEN
}

/// Extract the checkout-session identifier from a page body: the longest
/// run of identifier bytes after the first `session_uid=` marker that is
/// followed by at least one such byte, or nothing if no marker is.
pub fn extract_session_uid(t: &[u8]) -> (r: Option<Vec<u8>>)
    ensures
        r is Some <==> exists|i: int| uid_match_at(t@, i),
        r matches Some(u) ==> exists|i: int|
            {
                &&& #[trigger] uid_match_at(t@, i)
                &&& forall|k: int| 0 <= k < i ==> !uid_match_at(t@, k)
                &&& u@ == t@.subrange(i + 12, uid_run_end(t@, i + 12))
            },
{
    if t.len() < 13 {
        return None;
    }
    let mut i: usize = 0;
    while i <= t.len() - 13
        invariant
            t@.len() >= 13,
            0 <= i <= t@.len() - 12,
            forall|k: int| 0 <= k < i ==> !uid_match_at(t@, k),
        decreases t@.len() - i,
    {
        if marker_at(t, i) {
            let first = t[i + 12];
            if is_uid_byte_exec(first) {
                let mut j: usize = i + 13;
                while j < t.len() && is_uid_byte_exec_slice(t, j)
                    invariant
                        i + 13 <= j <= t@.len(),
                        forall|k: int| i + 12 <= k < j ==> is_uid_byte(t@[k]),
                    decreases t@.len() - j,
                {
                    j = j + 1;
                }
                proof {
                    lemma_uid_run_end(t@, i + 12, j as int);
                    assert(uid_match_at(t@, i as int));
                }
                let uid = vstd::slice::slice_to_vec(
                    vstd::slice::slice_subrange(t, i + 12, j),
                );
                return Some(uid);
            }
        }
        i = i + 1;
    }
    proof {
        assert forall|k: int| !uid_match_at(t@, k) by {
            if uid_match_at(t@, k) {
                assert(0 <= k && k + 12 < t@.len());
                assert(k < i);
            }
        }
    }
    None
}

/// Whether the byte at a position may appear in a session identifier.
fn is_uid_byte_exec_slice(t: &[u8], j: usize) -> (r: bool)
    requires
        j < t@.len(),
    ensures
        r == is_uid_byte(t@[j as int]),
{
    let b = t[j];
    (b >= ASCII_LOWER_A && b <= ASCII_LOWER_F) || (b >= ASCII_ZERO && b <= ASCII_NINE)
        || b == ASCII_HYPHEN
}

} // verus!
