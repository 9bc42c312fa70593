use vstd::prelude::*;
use crate::parts::Item;
use crate::rank_laws::{
    lemma_rank_holds_only_matches, lemma_rank_is_ranked, lemma_rank_is_stable,
    lemma_rank_keeps_matches, like, matching_like,
};
use crate::text::{byte_len, chars_contain, chars_occur_at, chars_of, is_prefix, is_substring};

verus! {

/// The texts of a priority list.
pub open spec fn names(priority: Seq<String>) -> Seq<Seq<char>> {
    priority.map_values(|name: String| name@)
}

/// Whether a candidate named `x` ranks strictly before one named `y` for
/// `query`, where `listed` holds the priority names. Four rules are tried
/// in turn, and the first that tells the two apart decides: the name that
/// is the query comes first; then the name that begins with the query;
/// then the name that is listed; then, for a query that is not empty, the
/// shorter name. Names that no rule tells apart rank alike.
#[verifier::opaque]
pub open spec fn ranks_before(
    x: Seq<char>,
    y: Seq<char>,
    query: Seq<char>,
    listed: Seq<Seq<char>>,
) -> bool {
    if (x == query) != (y == query) {
        x == query
    } else if is_prefix(query, x) != is_prefix(query, y) {
        is_prefix(query, x)
    } else if listed.contains(x) != listed.contains(y) {
        listed.contains(x)
    } else {
        query.len() > 0 && byte_len(x) < byte_len(y)
    }
}

/// Whether `item` is a match for `query`: the query stands somewhere in
/// its name. Every item is a match for the empty query.
#[verifier::opaque]
pub open spec fn is_match(item: Item, query: Seq<char>) -> bool {
    is_substring(query, item.text@)
}

/// Whether `x` ranks strictly before `y`.
pub open spec fn item_before(x: Item, y: Item, query: Seq<char>, listed: Seq<Seq<char>>) -> bool {
    ranks_before(x.text@, y.text@, query, listed)
}

/// `sorted` with `x` put in behind the last item that does not rank after
/// it: `x` passes the items that it ranks strictly before, and no other.
pub open spec fn insert_ranked(
    sorted: Seq<Item>,
    x: Item,
    query: Seq<char>,
    listed: Seq<Seq<char>>,
) -> Seq<Item>
    decreases sorted.len(),
{
    if sorted.len() > 0 && item_before(x, sorted.last(), query, listed) {
        insert_ranked(sorted.drop_last(), x, query, listed).push(sorted.last())
    } else {
        sorted.push(x)
    }
}

/// The ranked list: the matches among `candidates`, each put in its place
/// in the order of `candidates`, so that items which rank alike stay in
/// the order in which `candidates` holds them.
pub open spec fn rank_spec(
    candidates: Seq<Item>,
    query: Seq<char>,
    listed: Seq<Seq<char>>,
) -> Seq<Item>
    decreases candidates.len(),
{
    if candidates.len() == 0 {
        Seq::empty()
    } else {
        let rest = rank_spec(candidates.drop_last(), query, listed);
        if is_match(candidates.last(), query) {
            insert_ranked(rest, candidates.last(), query, listed)
        } else {
            rest
        }
    }
}

/// Whether no item of `items` ranks strictly before an item that stands
/// before it.
pub open spec fn is_ranked(items: Seq<Item>, query: Seq<char>, listed: Seq<Seq<char>>) -> bool {
    forall|i: int, j: int|
        0 <= i < j < items.len() ==> !item_before(#[trigger] items[j], #[trigger] items[i], query, listed)
}

/// The rules of `ranks_before` that do not look at lengths, as one
/// number: the smaller, the earlier.
pub open spec fn class_of(text: Seq<char>, query: Seq<char>, listed: Seq<Seq<char>>) -> int {
    (if text == query { 0int } else { 4int })
        + (if is_prefix(query, text) { 0int } else { 2int })
        + (if listed.contains(text) { 0int } else { 1int })
}

/// The length that the last rule of `ranks_before` looks at: none where
/// the query is empty.
pub open spec fn length_rank(text: Seq<char>, query: Seq<char>) -> usize {
    if query.len() > 0 {
        byte_len(text)
    } else {
        0
    }
}

/// What decides the rank of a name, as two numbers that are compared one
/// after the other.
#[derive(Clone, Copy, Debug, PartialEq, Eq)]
pub struct SortKey {
    pub class: u8,
    pub length: usize,
}

impl SortKey {
    /// Whether the key is that of the candidate named `text`.
    pub open spec fn is_key_of(
        self,
        text: Seq<char>,
        query: Seq<char>,
        listed: Seq<Seq<char>>,
    ) -> bool {
        &&& self.class == class_of(text, query, listed)
        &&& self.length == length_rank(text, query)
    }

    /// Whether this key stands strictly before `other`.
    pub open spec fn before(self, other: SortKey) -> bool {
        self.class < other.class || (self.class == other.class && self.length < other.length)
    }

    pub fn is_before(&self, other: &SortKey) -> (r: bool)
        ensures
            r == self.before(*other),
    {
        self.class < other.class || (self.class == other.class && self.length < other.length)
    }
}

/// Keys order names as `ranks_before` does.
pub proof fn lemma_keys_order_names(
    kx: SortKey,
    ky: SortKey,
    x: Seq<char>,
    y: Seq<char>,
    query: Seq<char>,
    listed: Seq<Seq<char>>,
)
    requires
        kx.is_key_of(x, query, listed),
        ky.is_key_of(y, query, listed),
    ensures
        kx.before(ky) == ranks_before(x, y, query, listed),
{
    reveal(ranks_before);
}

/// Whether no key of `keys` stands strictly before a key in front of it.
pub open spec fn keys_in_order(keys: Seq<SortKey>) -> bool {
    forall|a: int, b: int| 0 <= a < b < keys.len() ==> !(#[trigger] keys[b]).before(#[trigger] keys[a])
}

/// Whether `text` is one of `priority`.
pub fn is_listed(text: &String, priority: &Vec<String>) -> (r: bool)
    ensures
        r == names(priority@).contains(text@),
{
    let mut i: usize = 0;
    while i < priority.len()
        invariant
            i <= priority.len(),
            forall|j: int| 0 <= j < i ==> names(priority@)[j] != text@,
        decreases priority.len() - i,
    {
        if priority[i] == *text {
            assert(names(priority@)[i as int] == text@);
            return true;
        }
        i += 1;
    }
    false
}

/// The key of the candidate named `text`.
pub fn sort_key(text: &String, query: &Vec<char>, priority: &Vec<String>) -> (key: SortKey)
    ensures
        key.is_key_of(text@, query@, names(priority@)),
{
    let chars = chars_of(text.as_str());
    key_of_chars(text, &chars, query, priority)
}

/// The key of the candidate named `text` if the candidate is a match for
/// `query`, and `None` if it is not.
pub fn match_key(text: &String, query: &Vec<char>, priority: &Vec<String>) -> (r: Option<SortKey>)
    ensures
        r is Some == is_substring(query@, text@),
        r matches Some(key) ==> key.is_key_of(text@, query@, names(priority@)),
{
    let chars = chars_of(text.as_str());
    if chars_contain(&chars, query) {
        Some(key_of_chars(text, &chars, query, priority))
    } else {
        None
    }
}

/// The matches among `candidates` for `query`, in rank order: the name
/// that is the query first, then the names that begin with it, then the
/// listed names, then, for a query that is not empty, the shorter names.
/// Matches that rank alike stay in the order of `candidates`.
///
/// The result holds the matches and nothing else, each as often as the
/// candidates hold it; it is in rank order; and for every `x` the items
/// that rank like `x` stand in it as they stand among the candidates.
pub fn rank(candidates: &Vec<Item>, query: &str, priority: &Vec<String>) -> (ranked: Vec<Item>)
    ensures
        ranked@ == rank_spec(candidates@, query@, names(priority@)),
        forall|k: int| 0 <= k < ranked@.len() ==> is_match(#[trigger] ranked@[k], query@),
        forall|x: Item|
            #![trigger ranked@.to_multiset().count(x)]
            ranked@.to_multiset().count(x) == if is_match(x, query@) {
                candidates@.to_multiset().count(x)
            } else {
                0
            },
        is_ranked(ranked@, query@, names(priority@)),
        forall|x: Item| #[trigger]
            ranked@.filter(like(x, query@, names(priority@))) == candidates@.filter(
                matching_like(x, query@, names(priority@)),
            ),
{
    let ghost listed = names(priority@);
    let needle = chars_of(query);
    let mut ranked: Vec<Item> = Vec::new();
    let mut keys: Vec<SortKey> = Vec::new();
    let mut i: usize = 0;
    while i < candidates.len()
        invariant
            i <= candidates.len(),
            needle@ == query@,
            listed == names(priority@),
            ranked@ == rank_spec(candidates@.take(i as int), query@, listed),
            keys.len() == ranked.len(),
            keys_in_order(keys@),
            forall|k: int|
                0 <= k < keys.len() ==> (#[trigger] keys[k]).is_key_of(
                    ranked[k].text@,
                    query@,
                    listed,
                ),
        decreases candidates.len() - i,
    {
        let item = &candidates[i];
        proof {
            reveal(is_match);
            assert(candidates@.take(i + 1).drop_last() =~= candidates@.take(i as int));
        }
        if let Some(key) = match_key(&item.text, &needle, priority) {
            let at = slot_of(&keys, &key);
            proof {
                assert forall|k: int| at <= k < ranked.len() implies item_before(
                    *item,
                    #[trigger] ranked@[k],
                    query@,
                    listed,
                ) by {
                    lemma_keys_order_names(
                        key,
                        keys[k],
                        item.text@,
                        ranked[k].text@,
                        query@,
                        listed,
                    );
                }
                if at > 0 {
                    lemma_keys_order_names(
                        key,
                        keys[at - 1],
                        item.text@,
                        ranked[at - 1].text@,
                        query@,
                        listed,
                    );
                }
                lemma_insert_splits(ranked@, *item, at as int, query@, listed);
                assert forall|a: int, b: int| 0 <= a < b < keys@.insert(at as int, key).len() implies !(
                #[trigger] keys@.insert(at as int, key)[b]).before(
                    #[trigger] keys@.insert(at as int, key)[a],
                ) by {
                    let grown = keys@.insert(at as int, key);
                    let from_a = if a < at { a } else { a - 1 };
                    let from_b = if b < at { b } else { b - 1 };
                    if a != at {
                        assert(grown[a] == keys@[from_a]);
                    }
                    if b != at {
                        assert(grown[b] == keys@[from_b]);
                    }
                }
            }
            ranked.insert(at, item.clone());
            keys.insert(at, key);
        }
        i += 1;
    }
    proof {
        assert(candidates@.take(candidates.len() as int) =~= candidates@);
        lemma_rank_holds_only_matches(candidates@, query@, listed);
        lemma_rank_keeps_matches(candidates@, query@, listed);
        lemma_rank_is_ranked(candidates@, query@, listed);
        assert forall|x: Item| #[trigger]
            ranked@.filter(like(x, query@, listed)) == candidates@.filter(
                matching_like(x, query@, listed),
            ) by {
            lemma_rank_is_stable(candidates@, query@, listed, x);
        }
    }
    ranked
}

/// The key of the candidate named `text`, whose characters are `chars`.
fn key_of_chars(
    text: &String,
    chars: &Vec<char>,
    query: &Vec<char>,
    priority: &Vec<String>,
) -> (key: SortKey)
    requires
        chars@ == text@,
    ensures
        key.is_key_of(text@, query@, names(priority@)),
{
    let prefix = chars_occur_at(query, chars, 0);
    let exact = prefix && chars.len() == query.len();
    let listed = is_listed(text, priority);
    proof {
        if chars@.len() == query@.len() {
            assert(chars@.subrange(0, query@.len() as int) =~= chars@);
        }
    }
    let mut class: u8 = 0;
    if !exact {
        class = class + 4;
    }
    if !prefix {
        class = class + 2;
    }
    if !listed {
        class = class + 1;
    }
    let length: usize = if query.len() > 0 {
        text.as_str().len()
    } else {
        0
    };
    SortKey { class, length }
}

/// Where `key` belongs among `keys`: behind the keys that it does not
/// stand before, in front of the keys that it stands before.
fn slot_of(keys: &Vec<SortKey>, key: &SortKey) -> (at: usize)
    requires
        keys_in_order(keys@),
    ensures
        at <= keys.len(),
        forall|k: int| 0 <= k < at ==> !key.before(#[trigger] keys@[k]),
        forall|k: int| at <= k < keys.len() ==> key.before(#[trigger] keys@[k]),
{
    let mut low: usize = 0;
    let mut high: usize = keys.len();
    while low < high
        invariant
            low <= high <= keys.len(),
            keys_in_order(keys@),
            forall|k: int| 0 <= k < low ==> !key.before(#[trigger] keys@[k]),
            forall|k: int| high <= k < keys.len() ==> key.before(#[trigger] keys@[k]),
        decreases high - low,
    {
        let mid: usize = low + (high - low) / 2;
        if key.is_before(&keys[mid]) {
            assert forall|k: int| mid <= k < keys.len() implies key.before(#[trigger] keys@[k]) by {
                if k > mid {
                    assert(!keys@[k].before(keys@[mid as int]));
                }
            }
            high = mid;
        } else {
            assert forall|k: int| 0 <= k < mid + 1 implies !key.before(#[trigger] keys@[k]) by {
                if k < mid {
                    assert(!keys@[mid as int].before(keys@[k]));
                }
            }
            low = mid + 1;
        }
    }
    low
}

/// An item that passes the tail of a list stands in front of that tail.
proof fn lemma_insert_splits(
    sorted: Seq<Item>,
    x: Item,
    at: int,
    query: Seq<char>,
    listed: Seq<Seq<char>>,
)
    requires
        0 <= at <= sorted.len(),
        forall|k: int| at <= k < sorted.len() ==> item_before(x, #[trigger] sorted[k], query, listed),
        at > 0 ==> !item_before(x, sorted[at - 1], query, listed),
    ensures
        insert_ranked(sorted, x, query, listed) == sorted.insert(at, x),
    decreases sorted.len() - at,
{
    if at == sorted.len() {
        assert(sorted.insert(at, x) =~= sorted.push(x));
    } else {
        let front = sorted.drop_last();
        lemma_insert_splits(front, x, at, query, listed);
        assert(front.insert(at, x).push(sorted.last()) =~= sorted.insert(at, x));
    }
}

} // verus!
