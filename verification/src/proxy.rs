//! The shared round-robin proxy pool: parsing configured proxy strings
//! and handing out endpoints in fixed cyclic order.

use vstd::prelude::*;
use vstd::arithmetic::div_mod::{lemma_add_mod_noop, lemma_fundamental_div_mod, lemma_small_mod};
use vstd::utf8::encode_utf8;

use crate::errors::Error;
use crate::text::split_seq;
use crate::text::split_on;

verus! {

/// ASCII `':'`, the separator of a proxy string's tokens.
pub const ASCII_COLON: u8 = 58;

/// Credentials embedded in a configured proxy string.
pub struct ProxyCredentials {
    pub username: Vec<u8>,
    pub password: Vec<u8>,
}

/// One egress proxy endpoint, parsed from a configured string of the
/// shape `host:port` or `host:port:username:password`.
pub struct ProxyEndpoint {
    pub host: Vec<u8>,
    pub port: Vec<u8>,
    pub credentials: Option<ProxyCredentials>,
}

pub ghost struct ProxyCredentialsView {
    pub username: Seq<u8>,
    pub password: Seq<u8>,
}

pub ghost struct ProxyEndpointView {
    pub host: Seq<u8>,
    pub port: Seq<u8>,
    pub credentials: Option<ProxyCredentialsView>,
}

impl View for ProxyCredentials {
    type V = ProxyCredentialsView;

    open spec fn view(&self) -> ProxyCredentialsView {
        ProxyCredentialsView { username: self.username@, password: self.password@ }
    }
}

impl View for ProxyEndpoint {
    type V = ProxyEndpointView;

    open spec fn view(&self) -> ProxyEndpointView {
        ProxyEndpointView {
            host: self.host@,
            port: self.port@,
            credentials: match self.credentials {
                Some(c) => Some(c@),
                None => None,
            },
        }
    }
}

impl Clone for ProxyEndpoint {
    /// An owned copy of the endpoint, handed out by the pool.
    fn clone(&self) -> (r: Self)
        ensures
            r@ == self@,
    {
        ProxyEndpoint {
            host: clone_bytes(&self.host),
            port: clone_bytes(&self.port),
            credentials: match &self.credentials {
                Some(c) => Some(
                    ProxyCredentials {
                        username: clone_bytes(&c.username),
                        password: clone_bytes(&c.password),
                    },
                ),
                None => None,
            },
        }
    }
}

/// A byte-for-byte copy.
fn clone_bytes(v: &Vec<u8>) -> (r: Vec<u8>)
    ensures
        r@ == v@,
{
    let r = v.clone();
    proof {
        assert(r@ =~= v@);
    }
    r
}

/// The parse of one configured proxy string: two colon-separated tokens
/// give an anonymous endpoint, four give an authenticated one, and any
/// other token count is rejected.
pub open spec fn parse_proxy_spec(s: Seq<u8>) -> Option<ProxyEndpointView> {
    let toks = split_seq(s, ASCII_COLON);
    if toks.len() == 2 {
        Some(ProxyEndpointView { host: toks[0], port: toks[1], credentials: None })
    } else if toks.len() == 4 {
        Some(
            ProxyEndpointView {
                host: toks[0],
                port: toks[1],
                credentials: Some(
                    ProxyCredentialsView { username: toks[2], password: toks[3] },
                ),
            },
        )
    } else {
        None
    }
}

/// Parse one configured proxy string.
pub fn parse_proxy(s: &[u8]) -> (r: Result<ProxyEndpoint, Error>)
    ensures
        r is Ok <==> parse_proxy_spec(s@) is Some,
        r matches Ok(e) ==> parse_proxy_spec(s@) == Some(e@),
        r matches Err(err) ==> err == Error::ProxyFormatError,
{
    let mut toks = split_on(s, ASCII_COLON);
    proof {
        assert(forall|k: int|
            0 <= k < toks@.len() ==> toks.deep_view()[k] == #[trigger] toks@[k]@);
    }
    if toks.len() == 2 {
        let port = toks.pop().unwrap();
        let host = toks.pop().unwrap();
        Ok(ProxyEndpoint { host, port, credentials: None })
    } else if toks.len() == 4 {
        let password = toks.pop().unwrap();
        let username = toks.pop().unwrap();
        let port = toks.pop().unwrap();
        let host = toks.pop().unwrap();
        Ok(
            ProxyEndpoint {
                host,
                port,
                credentials: Some(ProxyCredentials { username, password }),
            },
        )
    } else {
        Err(Error::ProxyFormatError)
    }
}

/// An ordered pool of proxy endpoints with a rotation cursor. The cursor
/// names the endpoint most recently handed out; rotation advances it one
/// position, wrapping at the end.
pub struct ProxyGroup {
    pub proxies: Vec<ProxyEndpoint>,
    pub index: usize,
}

/// Where the cursor stands after some number of rotations of a pool of
/// `n` endpoints, starting from position `start`.
pub open spec fn rotated_index(start: int, rotations: nat, n: int) -> int
    recommends
        n >= 1,
{
    (start + rotations) % n
}

impl ProxyGroup {
    /// The cursor is a valid position; an empty pool keeps it at zero.
    pub open spec fn wf(self) -> bool {
        if self.proxies@.len() == 0 {
            self.index == 0
        } else {
            (self.index as int) < self.proxies@.len()
        }
    }

    /// Build a pool from configured proxy strings, all-or-nothing: one
    /// malformed string fails the whole pool.
    pub fn from_strs(proxies: Vec<String>) -> (r: Result<ProxyGroup, Error>)
        ensures
            r is Ok <==> (forall|k: int|
                0 <= k < proxies@.len() ==> parse_proxy_spec(
                    encode_utf8(#[trigger] proxies@[k]@),
                ) is Some),
            r matches Ok(g) ==> {
                &&& g.wf()
                &&& g.index == 0
                &&& g.proxies@.len() == proxies@.len()
                &&& forall|k: int|
                    0 <= k < proxies@.len() ==> Some(#[trigger] g.proxies@[k]@)
                        == parse_proxy_spec(encode_utf8(proxies@[k]@))
            },
            r matches Err(err) ==> err == Error::ProxyFormatError,
    {
        let mut parsed: Vec<ProxyEndpoint> = Vec::new();
        let mut i: usize = 0;
        while i < proxies.len()
            invariant
                0 <= i <= proxies@.len(),
                parsed@.len() == i,
                forall|k: int|
                    0 <= k < i ==> Some(#[trigger] parsed@[k]@) == parse_proxy_spec(
                        encode_utf8(proxies@[k]@),
                    ),
            decreases proxies@.len() - i,
        {
            let bytes = proxies[i].as_str().as_bytes();
            match parse_proxy(bytes) {
                Ok(endpoint) => {
                    parsed.push(endpoint);
                },
                Err(err) => {
                    return Err(err);
                },
            }
            i = i + 1;
        }
        proof {
            assert forall|k: int|
                0 <= k < proxies@.len() implies parse_proxy_spec(
                encode_utf8(#[trigger] proxies@[k]@),
            ) is Some by {
                assert(Some(parsed@[k]@) == parse_proxy_spec(encode_utf8(proxies@[k]@)));
            }
        }
        Ok(ProxyGroup { proxies: parsed, index: 0 })
    }

    /// Advance the cursor one position, wrapping at the end, and hand out
    /// the endpoint it now names. With a single endpoint the rotation is a
    /// documented no-op; on an empty pool it fails and moves nothing.
    pub fn next_proxy(&mut self) -> (r: Result<ProxyEndpoint, Error>)
        requires
            old(self).wf(),
        ensures
            final(self).wf(),
            final(self).proxies == old(self).proxies,
            old(self).proxies@.len() == 0 ==> {
                &&& *final(self) == *old(self)
                &&& r matches Err(err) && err == Error::ProxyNotFoundError
            },
            old(self).proxies@.len() > 0 ==> {
                &&& final(self).index as int == rotated_index(
                    old(self).index as int,
                    1,
                    old(self).proxies@.len() as int,
                )
                &&& r matches Ok(e) && e@ == final(self).proxies@[final(self).index as int]@
            },
    {
        if self.proxies.len() == 0 {
            return Err(Error::ProxyNotFoundError);
        }
        let n = self.proxies.len();
        let next_index: usize = if self.index == n - 1 {
            0
        } else {
            self.index + 1
        };
        proof {
            if self.index == n - 1 {
                assert((self.index as int + 1) % (n as int) == 0) by {
                    assert(self.index as int + 1 == n as int);
                    lemma_fundamental_div_mod(n as int, n as int);
                    lemma_small_mod(0nat, n as nat);
                    assert((n as int) % (n as int) == 0) by {
                        vstd::arithmetic::div_mod::lemma_mod_self_0(n as int);
                    }
                }
            } else {
                lemma_small_mod((self.index + 1) as nat, n as nat);
            }
        }
        self.index = next_index;
        let e = self.proxies[next_index].clone();
        Ok(e)
    }
}

/// Build the optional shared pool: no configured proxies means rotation
/// is disabled (no pool at all), which is distinct from an empty pool.
pub fn build_proxy_group(proxies: Vec<String>) -> (r: Result<Option<ProxyGroup>, Error>)
    ensures
        proxies@.len() == 0 ==> (r matches Ok(g) && g is None),
        proxies@.len() > 0 ==> match r {
            Ok(opt) => opt matches Some(g) && {
                &&& g.wf()
                &&& g.index == 0
                &&& g.proxies@.len() == proxies@.len()
                &&& forall|k: int|
                    0 <= k < proxies@.len() ==> Some(#[trigger] g.proxies@[k]@)
                        == parse_proxy_spec(encode_utf8(proxies@[k]@))
            },
            Err(err) => err == Error::ProxyFormatError && !(forall|k: int|
                0 <= k < proxies@.len() ==> parse_proxy_spec(
                    encode_utf8(#[trigger] proxies@[k]@),
                ) is Some),
        },
{
    if proxies.len() == 0 {
        return Ok(None);
    }
    match ProxyGroup::from_strs(proxies) {
        Ok(group) => Ok(Some(group)),
        Err(err) => Err(err),
    }
}

/// Rotations compose: one more rotation moves the cursor from where `k`
/// rotations left it to where `k + 1` rotations leave it.
pub proof fn lemma_rotation_compose(start: int, k: nat, n: int)
    requires
        n >= 1,
        0 <= start,
    ensures
        (rotated_index(start, k, n) + 1) % n == rotated_index(start, k + 1, n),
{
    lemma_add_mod_noop(start + k, 1, n);
    assert(((start + k) % n + (1int) % n) % n == (start + k + 1) % n);
    if n == 1 {
        vstd::arithmetic::div_mod::lemma_mod_bound(start + k, 1);
        vstd::arithmetic::div_mod::lemma_mod_bound(start + k + 1, 1);
        vstd::arithmetic::div_mod::lemma_mod_bound((start + k) % (1int) + 1, 1);
    } else {
        lemma_small_mod(1nat, n as nat);
    }
}

/// For a pool of at least two endpoints, no endpoint repeats within one
/// full cycle of rotations: distinct rotation counts up to the pool size
/// put the cursor at distinct positions.
pub proof fn lemma_rotation_distinct(start: int, n: int, a: nat, b: nat)
    requires
        n >= 2,
        0 <= start < n,
        1 <= a < b <= n,
    ensures
        rotated_index(start, a, n) != rotated_index(start, b, n),
{
    let x = start + a;
    let y = start + b;
    lemma_fundamental_div_mod(x, n);
    lemma_fundamental_div_mod(y, n);
    if x % n == y % n {
        let dq = y / n - x / n;
        assert(y - x == n * dq) by (nonlinear_arith)
            requires
                x == n * (x / n) + x % n,
                y == n * (y / n) + y % n,
                x % n == y % n,
                dq == y / n - x / n,
        ;
        assert(0 < y - x < n);
        assert(false) by (nonlinear_arith)
            requires
                n >= 2,
                0 < n * dq < n,
        ;
    }
}

/// Within one full cycle of rotations, every position of the pool is
/// visited: each target position is reached by some rotation count
/// between one and the pool size.
pub proof fn lemma_rotation_covers(start: int, n: int, target: int)
    requires
        n >= 1,
        0 <= start < n,
        0 <= target < n,
    ensures
        exists|k: nat| 1 <= k <= n && rotated_index(start, k, n) == target,
{
    vstd::arithmetic::div_mod::lemma_mod_bound(target - start, n);
    let m = (target - start) % n;
    let k: nat = if m == 0 {
        n as nat
    } else {
        m as nat
    };
    assert((start + k) % n == target) by {
        lemma_fundamental_div_mod(target - start, n);
        let q = (target - start) / n;
        if m == 0 {
            assert(target - start == n * q);
            assert(n * (1 - q) == n - n * q) by (nonlinear_arith);
            assert(start + k == n * (1 - q) + target);
            vstd::arithmetic::div_mod::lemma_mod_multiples_vanish(1 - q, target, n);
            lemma_small_mod(target as nat, n as nat);
        } else {
            assert(target - start == n * q + m);
            assert(n * (-q) == -(n * q)) by (nonlinear_arith);
            assert(start + k == n * (-q) + target);
            vstd::arithmetic::div_mod::lemma_mod_multiples_vanish(-q, target, n);
            lemma_small_mod(target as nat, n as nat);
        }
    }
    assert(1 <= k <= n && rotated_index(start, k, n) == target);
}

/// With a single endpoint the cursor never moves: rotation is a no-op and
/// every call hands out the same element.
pub proof fn lemma_rotation_single(start: int, k: nat)
    requires
        start == 0,
    ensures
        rotated_index(start, k, 1) == 0,
{
    vstd::arithmetic::div_mod::lemma_mod_bound(start + k, 1);
}

} // verus!
