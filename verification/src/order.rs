use vstd::prelude::*;
use std::cmp::Ordering;
use crate::parts::Item;
use crate::rank::{lemma_keys_order_names, names, ranks_before, sort_key};
use crate::text::chars_of;

verus! {

/// How a candidate named `x` compares with one named `y` for `query`.
pub open spec fn order_spec(
    x: Seq<char>,
    y: Seq<char>,
    query: Seq<char>,
    listed: Seq<Seq<char>>,
) -> Ordering {
    if ranks_before(x, y, query, listed) {
        Ordering::Less
    } else if ranks_before(y, x, query, listed) {
        Ordering::Greater
    } else {
        Ordering::Equal
    }
}

/// Compares two candidates for the query `search_text`: `Less` where `x`
/// ranks before `y`, `Greater` where `y` ranks before `x`, `Equal` where
/// no rule tells them apart.
pub fn ord(x: &Item, y: &Item, search_text: &str, priority: &Vec<String>) -> (r: Ordering)
    ensures
        r == order_spec(x.text@, y.text@, search_text@, names(priority@)),
{
    let query = chars_of(search_text);
    let kx = sort_key(&x.text, &query, priority);
    let ky = sort_key(&y.text, &query, priority);
    proof {
        lemma_keys_order_names(kx, ky, x.text@, y.text@, query@, names(priority@));
        lemma_keys_order_names(ky, kx, y.text@, x.text@, query@, names(priority@));
    }
    if kx.is_before(&ky) {
        Ordering::Less
    } else if ky.is_before(&kx) {
        Ordering::Greater
    } else {
        Ordering::Equal
    }
}

} // verus!
