//! One purchase attempt's configuration: the loaded record, the runnable
//! task built from it, and the parsing of its product identifier list.

use vstd::prelude::*;
use vstd::utf8::encode_utf8;

use crate::machine::TaskMachine;
use crate::text::{parse_u32, parse_u32_spec, split_on, split_seq};

verus! {

/// ASCII `';'`, the separator of the configured product identifier list.
pub const ASCII_SEMICOLON: u8 = 59;

/// One configuration record, as loaded from the task list.
pub struct TaskData {
    pub name: String,
    pub product_ids: String,
    pub cookies: String,
    pub retry_delay: u64,
    pub cart_total_price_limit: u32,
}

impl Default for TaskData {
    /// The placeholder record written into a fresh task list for the
    /// operator to fill in.
    fn default() -> (d: Self)
        ensures
            d.name@ == "default"@,
            d.product_ids@ == "221;222;223"@,
            d.cookies@ == "your_cookies_here"@,
            d.retry_delay == 2500,
            d.cart_total_price_limit == 1000,
    {
        TaskData {
            name: "default".to_owned(),
            product_ids: "221;222;223".to_owned(),
            cookies: "your_cookies_here".to_owned(),
            retry_delay: 2500,
            cart_total_price_limit: 1000,
        }
    }
}

/// One purchase attempt, ready to run: its session cookie material, its
/// retry delay, the product identifiers to put in the cart, and the
/// inclusive price ceiling the cart total must meet before ordering.
pub struct Task {
    pub name: String,
    pub cookies: String,
    pub retry_delay: u64,
    pub product_ids: Vec<u32>,
    pub cart_total_price_limit: u32,
}

/// Every segment of the semicolon-separated list parses as a decimal
/// number.
pub open spec fn product_ids_parse(s: Seq<u8>) -> bool {
    forall|k: int|
        0 <= k < split_seq(s, ASCII_SEMICOLON).len() ==> parse_u32_spec(
            #[trigger] split_seq(s, ASCII_SEMICOLON)[k],
        ) is Some
}

/// Parse a semicolon-separated list of product identifiers; one segment
/// that is not a decimal number fails the whole list.
pub fn parse_product_ids(s: &[u8]) -> (r: Option<Vec<u32>>)
    ensures
        r is Some <==> product_ids_parse(s@),
        r matches Some(ids) ==> {
            &&& ids@.len() == split_seq(s@, ASCII_SEMICOLON).len()
            &&& forall|k: int|
                0 <= k < ids@.len() ==> Some(#[trigger] ids@[k]) == parse_u32_spec(
                    split_seq(s@, ASCII_SEMICOLON)[k],
                )
        },
{
    let parts = split_on(s, ASCII_SEMICOLON);
    proof {
        assert(forall|k: int|
            0 <= k < parts@.len() ==> parts.deep_view()[k] == #[trigger] parts@[k]@);
    }
    let mut ids: Vec<u32> = Vec::new();
    let mut i: usize = 0;
    while i < parts.len()
        invariant
            0 <= i <= parts@.len(),
            ids@.len() == i,
            parts.deep_view() == split_seq(s@, ASCII_SEMICOLON),
            forall|k: int|
                0 <= k < parts@.len() ==> parts.deep_view()[k] == #[trigger] parts@[k]@,
            forall|k: int|
                0 <= k < i ==> Some(#[trigger] ids@[k]) == parse_u32_spec(
                    split_seq(s@, ASCII_SEMICOLON)[k],
                ),
        decreases parts@.len() - i,
    {
        match parse_u32(parts[i].as_slice()) {
            Some(id) => {
                ids.push(id);
            },
            None => {
                proof {
                    assert(parse_u32_spec(split_seq(s@, ASCII_SEMICOLON)[i as int]) is None);
                }
                return None;
            },
        }
        i = i + 1;
    }
    proof {
        assert forall|k: int|
            0 <= k < split_seq(s@, ASCII_SEMICOLON).len() implies parse_u32_spec(
            #[trigger] split_seq(s@, ASCII_SEMICOLON)[k],
        ) is Some by {
            assert(Some(ids@[k]) == parse_u32_spec(split_seq(s@, ASCII_SEMICOLON)[k]));
        }
    }
    Some(ids)
}

impl Task {
    /// A ready-to-run task from its parts.
    pub fn new(
        name: String,
        cookies: &str,
        retry_delay: u64,
        product_ids: Vec<u32>,
        cart_total_price_limit: u32,
    ) -> (t: Self)
        ensures
            t.name@ == name@,
            t.cookies@ == cookies@,
            t.retry_delay == retry_delay,
            t.product_ids@ == product_ids@,
            t.cart_total_price_limit == cart_total_price_limit,
    {
        Task {
            name,
            cookies: cookies.to_owned(),
            retry_delay,
            product_ids,
            cart_total_price_limit,
        }
    }

    /// A task from a loaded configuration record; a malformed product
    /// identifier list gives nothing.
    pub fn from_data(data: TaskData) -> (r: Option<Task>)
        ensures
            r is Some <==> product_ids_parse(encode_utf8(data.product_ids@)),
            r matches Some(t) ==> {
                &&& t.name@ == data.name@
                &&& t.cookies@ == data.cookies@
                &&& t.retry_delay == data.retry_delay
                &&& t.cart_total_price_limit == data.cart_total_price_limit
                &&& t.product_ids@.len() == split_seq(
                    encode_utf8(data.product_ids@),
                    ASCII_SEMICOLON,
                ).len()
                &&& forall|k: int|
                    0 <= k < t.product_ids@.len() ==> Some(#[trigger] t.product_ids@[k])
                        == parse_u32_spec(
                        split_seq(encode_utf8(data.product_ids@), ASCII_SEMICOLON)[k],
                    )
            },
    {
        let ids = parse_product_ids(data.product_ids.as_str().as_bytes());
        match ids {
            Some(product_ids) => Some(
                Task {
                    name: data.name,
                    cookies: data.cookies,
                    retry_delay: data.retry_delay,
                    product_ids,
                    cart_total_price_limit: data.cart_total_price_limit,
                },
            ),
            None => None,
        }
    }

    /// A new state machine, starting at CartFill, with this price ceiling.
    pub fn machine(&self) -> (m: TaskMachine)
        ensures
            m.phase == crate::machine::Phase::CartFill,
            m.session_uid is None,
            m.cart_total_price_limit == self.cart_total_price_limit,
            m.wf(),
    {
        TaskMachine::new(self.cart_total_price_limit)
    }
}

} // verus!
