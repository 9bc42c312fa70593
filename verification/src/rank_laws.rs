use vstd::prelude::*;
use crate::parts::Item;
use crate::rank::{insert_ranked, is_ranked, item_before, is_match, rank_spec, ranks_before};

verus! {

/// The rank order is a strict weak order: no name ranks before itself, of
/// two names at most one ranks before the other, ranking before carries
/// over a name in the middle, and so does not ranking before.
pub proof fn lemma_strict_weak_order(
    x: Seq<char>,
    y: Seq<char>,
    z: Seq<char>,
    query: Seq<char>,
    listed: Seq<Seq<char>>,
)
    ensures
        !ranks_before(x, x, query, listed),
        !(ranks_before(x, y, query, listed) && ranks_before(y, x, query, listed)),
        ranks_before(x, y, query, listed) && ranks_before(y, z, query, listed) ==> ranks_before(
            x,
            z,
            query,
            listed,
        ),
        !ranks_before(x, y, query, listed) && !ranks_before(y, z, query, listed) ==> !ranks_before(
            x,
            z,
            query,
            listed,
        ),
{
    reveal(ranks_before);
}

/// Where `x` comes to stand when it is put into `sorted`.
pub open spec fn slot(sorted: Seq<Item>, x: Item, query: Seq<char>, listed: Seq<Seq<char>>) -> int
    decreases sorted.len(),
{
    if sorted.len() > 0 && item_before(x, sorted.last(), query, listed) {
        slot(sorted.drop_last(), x, query, listed)
    } else {
        sorted.len() as int
    }
}

/// Putting `x` into `sorted` leaves the items of `sorted` in their order
/// and sets `x` between them, behind an item that it does not rank before
/// and in front of items that it ranks before.
pub proof fn lemma_insert_at_slot(
    sorted: Seq<Item>,
    x: Item,
    query: Seq<char>,
    listed: Seq<Seq<char>>,
)
    ensures
        0 <= slot(sorted, x, query, listed) <= sorted.len(),
        insert_ranked(sorted, x, query, listed) == sorted.insert(
            slot(sorted, x, query, listed),
            x,
        ),
        forall|k: int|
            slot(sorted, x, query, listed) <= k < sorted.len() ==> item_before(
                x,
                #[trigger] sorted[k],
                query,
                listed,
            ),
        slot(sorted, x, query, listed) > 0 ==> !item_before(
            x,
            sorted[slot(sorted, x, query, listed) - 1],
            query,
            listed,
        ),
    decreases sorted.len(),
{
    if sorted.len() > 0 && item_before(x, sorted.last(), query, listed) {
        let front = sorted.drop_last();
        lemma_insert_at_slot(front, x, query, listed);
        let at = slot(front, x, query, listed);
        assert(front.insert(at, x).push(sorted.last()) =~= sorted.insert(at, x));
        assert forall|k: int| at <= k < sorted.len() implies item_before(
            x,
            #[trigger] sorted[k],
            query,
            listed,
        ) by {
            if k < front.len() {
                assert(sorted[k] == front[k]);
            }
        }
    } else {
        assert(sorted.insert(sorted.len() as int, x) =~= sorted.push(x));
    }
}

/// A ranked list stays ranked when an item is put into it.
pub proof fn lemma_insert_keeps_ranked(
    sorted: Seq<Item>,
    x: Item,
    query: Seq<char>,
    listed: Seq<Seq<char>>,
)
    requires
        is_ranked(sorted, query, listed),
    ensures
        is_ranked(insert_ranked(sorted, x, query, listed), query, listed),
{
    lemma_insert_at_slot(sorted, x, query, listed);
    let at = slot(sorted, x, query, listed);
    let out = sorted.insert(at, x);
    assert forall|i: int, j: int| 0 <= i < j < out.len() implies !item_before(
        #[trigger] out[j],
        #[trigger] out[i],
        query,
        listed,
    ) by {
        if j == at {
            // `x` stands behind `out[i]`, an item in front of its slot.
            assert(out[i] == sorted[i]);
            if i < at - 1 {
                assert(!item_before(sorted[at - 1], sorted[i], query, listed));
            }
            lemma_strict_weak_order(
                x.text@,
                sorted[at - 1].text@,
                sorted[i].text@,
                query,
                listed,
            );
        } else if i == at {
            // `out[j]` stands behind `x`, which ranks before it.
            assert(out[j] == sorted[j - 1]);
            assert(item_before(x, sorted[j - 1], query, listed));
            lemma_strict_weak_order(x.text@, sorted[j - 1].text@, x.text@, query, listed);
        } else {
            let si = if i < at { i } else { i - 1 };
            let sj = if j < at { j } else { j - 1 };
            assert(out[i] == sorted[si]);
            assert(out[j] == sorted[sj]);
        }
    }
}

/// The ranked list is in rank order: no item of it ranks strictly before
/// an item that stands before it.
pub proof fn lemma_rank_is_ranked(candidates: Seq<Item>, query: Seq<char>, listed: Seq<Seq<char>>)
    ensures
        is_ranked(rank_spec(candidates, query, listed), query, listed),
    decreases candidates.len(),
{
    if candidates.len() > 0 {
        lemma_rank_is_ranked(candidates.drop_last(), query, listed);
        if is_match(candidates.last(), query) {
            lemma_insert_keeps_ranked(
                rank_spec(candidates.drop_last(), query, listed),
                candidates.last(),
                query,
                listed,
            );
        }
    }
}

/// Putting `x` into a list adds `x` once and leaves every other item as
/// often as it was.
pub proof fn lemma_insert_adds_one(
    sorted: Seq<Item>,
    x: Item,
    query: Seq<char>,
    listed: Seq<Seq<char>>,
)
    ensures
        insert_ranked(sorted, x, query, listed).to_multiset() == sorted.to_multiset().insert(x),
{
    broadcast use vstd::seq_lib::to_multiset_insert;

    lemma_insert_at_slot(sorted, x, query, listed);
}

/// The ranked list holds the matches and nothing else: a candidate that
/// contains the query stands in it as often as in the candidates, so
/// exactly once where the candidates hold it once, and a candidate that
/// does not contain the query does not stand in it.
pub proof fn lemma_rank_keeps_matches(
    candidates: Seq<Item>,
    query: Seq<char>,
    listed: Seq<Seq<char>>,
)
    ensures
        forall|x: Item|
            #![trigger rank_spec(candidates, query, listed).to_multiset().count(x)]
            rank_spec(candidates, query, listed).to_multiset().count(x) == if is_match(x, query) {
                candidates.to_multiset().count(x)
            } else {
                0
            },
    decreases candidates.len(),
{
    broadcast use vstd::seq_lib::to_multiset_build;

    if candidates.len() == 0 {
        assert(candidates =~= Seq::<Item>::empty());
        assert(rank_spec(candidates, query, listed) =~= Seq::<Item>::empty());
        Seq::<Item>::empty().to_multiset_ensures();
    } else {
        let front = candidates.drop_last();
        let last = candidates.last();
        lemma_rank_keeps_matches(front, query, listed);
        assert(front.push(last) =~= candidates);
        assert(candidates.to_multiset() =~= front.to_multiset().insert(last));
        if is_match(last, query) {
            lemma_insert_adds_one(rank_spec(front, query, listed), last, query, listed);
        }
        assert forall|x: Item|
            #![trigger rank_spec(candidates, query, listed).to_multiset().count(x)]
            rank_spec(candidates, query, listed).to_multiset().count(x) == if is_match(x, query) {
                candidates.to_multiset().count(x)
            } else {
                0
            } by {
            assert(rank_spec(front, query, listed).to_multiset().count(x) == if is_match(x, query) {
                front.to_multiset().count(x)
            } else {
                0
            });
        }
    }
}

/// Whether no two of `candidates` have the same name.
pub open spec fn has_distinct_names(candidates: Seq<Item>) -> bool {
    forall|i: int, j: int|
        0 <= i < candidates.len() && 0 <= j < candidates.len() && i != j ==> (
        #[trigger] candidates[i]).text@ != (#[trigger] candidates[j]).text@
}

/// Of candidates with distinct names, each one that contains the query
/// stands in the ranked list exactly once, and each one that does not
/// contain it does not stand there.
pub proof fn lemma_match_stands_once(
    candidates: Seq<Item>,
    query: Seq<char>,
    listed: Seq<Seq<char>>,
    j: int,
)
    requires
        has_distinct_names(candidates),
        0 <= j < candidates.len(),
    ensures
        rank_spec(candidates, query, listed).to_multiset().count(candidates[j]) == if is_match(
            candidates[j],
            query,
        ) {
            1nat
        } else {
            0nat
        },
{
    broadcast use vstd::seq_lib::to_multiset_contains;

    lemma_rank_keeps_matches(candidates, query, listed);
    assert(candidates.no_duplicates());
    candidates.lemma_multiset_has_no_duplicates();
    assert(candidates.contains(candidates[j]));
}

/// The ranked list is no longer than the list of candidates.
pub proof fn lemma_rank_is_no_longer(
    candidates: Seq<Item>,
    query: Seq<char>,
    listed: Seq<Seq<char>>,
)
    ensures
        rank_spec(candidates, query, listed).len() <= candidates.len(),
    decreases candidates.len(),
{
    if candidates.len() > 0 {
        let front = candidates.drop_last();
        lemma_rank_is_no_longer(front, query, listed);
        lemma_insert_at_slot(rank_spec(front, query, listed), candidates.last(), query, listed);
    }
}

/// Every item of the ranked list contains the query.
pub proof fn lemma_rank_holds_only_matches(
    candidates: Seq<Item>,
    query: Seq<char>,
    listed: Seq<Seq<char>>,
)
    ensures
        forall|k: int|
            0 <= k < rank_spec(candidates, query, listed).len() ==> is_match(
                #[trigger] rank_spec(candidates, query, listed)[k],
                query,
            ),
    decreases candidates.len(),
{
    if candidates.len() > 0 {
        let front = candidates.drop_last();
        lemma_rank_holds_only_matches(front, query, listed);
        if is_match(candidates.last(), query) {
            let rest = rank_spec(front, query, listed);
            lemma_insert_at_slot(rest, candidates.last(), query, listed);
            let at = slot(rest, candidates.last(), query, listed);
            let out = rest.insert(at, candidates.last());
            assert forall|k: int| 0 <= k < out.len() implies is_match(#[trigger] out[k], query) by {
                if k < at {
                    assert(out[k] == rest[k]);
                } else if k > at {
                    assert(out[k] == rest[k - 1]);
                }
            }
        }
    }
}

/// Whether neither of `x` and `y` ranks before the other.
pub open spec fn ranks_like(x: Item, y: Item, query: Seq<char>, listed: Seq<Seq<char>>) -> bool {
    !item_before(x, y, query, listed) && !item_before(y, x, query, listed)
}

/// A list of which no item meets `pred` has nothing left when it is
/// filtered by `pred`.
proof fn lemma_filter_leaves_nothing(items: Seq<Item>, pred: spec_fn(Item) -> bool)
    requires
        forall|k: int| 0 <= k < items.len() ==> !pred(#[trigger] items[k]),
    ensures
        items.filter(pred) == Seq::<Item>::empty(),
    decreases items.len(),
{
    reveal(Seq::filter);
    if items.len() > 0 {
        let front = items.drop_last();
        assert forall|k: int| 0 <= k < front.len() implies !pred(#[trigger] front[k]) by {
            assert(front[k] == items[k]);
        }
        lemma_filter_leaves_nothing(front, pred);
        assert(!pred(items[items.len() - 1]));
    }
}

/// The test for the items that rank like `x`.
pub open spec fn like(x: Item, query: Seq<char>, listed: Seq<Seq<char>>) -> spec_fn(Item) -> bool {
    |y: Item| ranks_like(y, x, query, listed)
}

/// The test for the matches that rank like `x`.
pub open spec fn matching_like(x: Item, query: Seq<char>, listed: Seq<Seq<char>>) -> spec_fn(
    Item,
) -> bool {
    |y: Item| is_match(y, query) && ranks_like(y, x, query, listed)
}

/// Ranking is stable: the items of the ranked list that rank like `x` are
/// the matches among the candidates that rank like `x`, in the order in
/// which the candidates hold them.
pub proof fn lemma_rank_is_stable(
    candidates: Seq<Item>,
    query: Seq<char>,
    listed: Seq<Seq<char>>,
    x: Item,
)
    ensures
        rank_spec(candidates, query, listed).filter(like(x, query, listed)) == candidates.filter(
            matching_like(x, query, listed),
        ),
    decreases candidates.len(),
{
    let like = like(x, query, listed);
    let like_match = matching_like(x, query, listed);
    reveal(Seq::filter);
    if candidates.len() > 0 {
        let front = candidates.drop_last();
        let last = candidates.last();
        let rest = rank_spec(front, query, listed);
        lemma_rank_is_stable(front, query, listed, x);
        assert(rest.filter(like) == front.filter(like_match));
        if is_match(last, query) {
            lemma_insert_at_slot(rest, last, query, listed);
            let at = slot(rest, last, query, listed);
            let head = rest.take(at);
            let tail = rest.skip(at);
            assert(rest =~= head + tail);
            assert(rest.insert(at, last) =~= head.push(last) + tail);
            Seq::filter_distributes_over_add(head, tail, like);
            Seq::filter_distributes_over_add(head.push(last), tail, like);
            head.lemma_filter_push(last, like);
            if like(last) {
                assert forall|k: int| 0 <= k < tail.len() implies !like(#[trigger] tail[k]) by {
                    assert(tail[k] == rest[at + k]);
                    assert(item_before(last, rest[at + k], query, listed));
                    lemma_strict_weak_order(last.text@, x.text@, tail[k].text@, query, listed);
                }
                lemma_filter_leaves_nothing(tail, like);
                assert(head.filter(like).push(last) + Seq::<Item>::empty() =~= (head.filter(like)
                    + Seq::<Item>::empty()).push(last));
            }
        }
    }
}

/// Where the last item stands that a filter leaves: it meets the test,
/// and no item behind it does; in front of it the filter leaves the rest.
proof fn lemma_filter_last(items: Seq<Item>, pred: spec_fn(Item) -> bool) -> (j: int)
    requires
        items.filter(pred).len() > 0,
    ensures
        0 <= j < items.len(),
        pred(items[j]),
        items[j] == items.filter(pred).last(),
        forall|k: int| j < k < items.len() ==> !pred(#[trigger] items[k]),
    decreases items.len(),
{
    reveal(Seq::filter);
    if pred(items.last()) {
        items.len() - 1
    } else {
        let front = items.drop_last();
        let j = lemma_filter_last(front, pred);
        assert forall|k: int| j < k < items.len() implies !pred(#[trigger] items[k]) by {
            if k < front.len() {
                assert(items[k] == front[k]);
            }
        }
        j
    }
}

/// Two lists in rank order that hold, for every `x`, the same items that
/// rank like `x` in the same order, are the same list.
pub proof fn lemma_stable_rankings_agree(
    a: Seq<Item>,
    b: Seq<Item>,
    query: Seq<char>,
    listed: Seq<Seq<char>>,
)
    requires
        is_ranked(a, query, listed),
        is_ranked(b, query, listed),
        forall|x: Item| #[trigger] a.filter(like(x, query, listed)) == b.filter(like(x, query, listed)),
    ensures
        a == b,
    decreases a.len(),
{
    reveal(Seq::filter);
    if a.len() == 0 {
        if b.len() > 0 {
            let u = b.last();
            lemma_strict_weak_order(u.text@, u.text@, u.text@, query, listed);
            assert(like(u, query, listed)(u));
            b.lemma_filter_contains(like(u, query, listed), b.len() - 1);
            assert(b.filter(like(u, query, listed)).len() > 0);
            assert(a.filter(like(u, query, listed)).len() == 0);
        }
        assert(a =~= b);
    } else {
        let t = a.last();
        let like_t = like(t, query, listed);
        lemma_strict_weak_order(t.text@, t.text@, t.text@, query, listed);
        assert(like_t(t));
        assert(a.filter(like_t).last() == t);
        assert(b.filter(like_t) == a.filter(like_t));
        let j = lemma_filter_last(b, like_t);
        assert(b[j] == t);
        if j < b.len() - 1 {
            // An item behind `b[j]` ranks behind `t`; `a` would hold its
            // like, behind `t` too, but `t` is the last of `a`.
            let u = b[j + 1];
            assert(!like_t(u));
            assert(!item_before(u, b[j], query, listed));
            lemma_strict_weak_order(u.text@, t.text@, t.text@, query, listed);
            assert(item_before(t, u, query, listed));
            let like_u = like(u, query, listed);
            lemma_strict_weak_order(u.text@, u.text@, u.text@, query, listed);
            assert(like_u(u));
            b.lemma_filter_contains(like_u, j + 1);
            assert(b.filter(like_u).len() > 0);
            assert(a.filter(like_u) == b.filter(like_u));
            let m = lemma_filter_last(a, like_u);
            if m < a.len() - 1 {
                assert(!item_before(a[a.len() - 1], a[m], query, listed));
            }
            lemma_strict_weak_order(t.text@, a[m].text@, u.text@, query, listed);
            assert(false);
        }
        let a_front = a.drop_last();
        let b_front = b.drop_last();
        assert forall|i: int, k: int| 0 <= i < k < a_front.len() implies !item_before(
            #[trigger] a_front[k],
            #[trigger] a_front[i],
            query,
            listed,
        ) by {
            assert(a_front[i] == a[i] && a_front[k] == a[k]);
        }
        assert forall|i: int, k: int| 0 <= i < k < b_front.len() implies !item_before(
            #[trigger] b_front[k],
            #[trigger] b_front[i],
            query,
            listed,
        ) by {
            assert(b_front[i] == b[i] && b_front[k] == b[k]);
        }
        assert forall|x: Item| #[trigger]
            a_front.filter(like(x, query, listed)) == b_front.filter(like(x, query, listed)) by {
            let like_x = like(x, query, listed);
            assert(a.filter(like_x) == b.filter(like_x));
            assert(a.last() == b.last());
            if like_x(t) {
                assert(a.filter(like_x).drop_last() =~= a_front.filter(like_x));
                assert(b.filter(like_x).drop_last() =~= b_front.filter(like_x));
            }
        }
        lemma_stable_rankings_agree(a_front, b_front, query, listed);
        assert(a =~= a_front.push(t));
        assert(b =~= b_front.push(t));
    }
}

/// The ranked list is the one list in rank order that holds, for every
/// `x`, the matches that rank like `x` in the order in which the
/// candidates hold them.
pub proof fn lemma_rank_is_the_stable_ranking(
    candidates: Seq<Item>,
    query: Seq<char>,
    listed: Seq<Seq<char>>,
    ranked: Seq<Item>,
)
    requires
        is_ranked(ranked, query, listed),
        forall|x: Item| #[trigger]
            ranked.filter(like(x, query, listed)) == candidates.filter(
                matching_like(x, query, listed),
            ),
    ensures
        ranked == rank_spec(candidates, query, listed),
{
    lemma_rank_is_ranked(candidates, query, listed);
    assert forall|x: Item| #[trigger]
        ranked.filter(like(x, query, listed)) == rank_spec(candidates, query, listed).filter(
            like(x, query, listed),
        ) by {
        lemma_rank_is_stable(candidates, query, listed, x);
    }
    lemma_stable_rankings_agree(ranked, rank_spec(candidates, query, listed), query, listed);
}

/// Ranking a list that is in rank order and holds only matches gives the
/// list back.
pub proof fn lemma_rank_of_ranked(items: Seq<Item>, query: Seq<char>, listed: Seq<Seq<char>>)
    requires
        is_ranked(items, query, listed),
        forall|k: int| 0 <= k < items.len() ==> is_match(#[trigger] items[k], query),
    ensures
        rank_spec(items, query, listed) == items,
    decreases items.len(),
{
    if items.len() == 0 {
        assert(items =~= Seq::<Item>::empty());
    } else {
        let front = items.drop_last();
        assert forall|i: int, j: int| 0 <= i < j < front.len() implies !item_before(
            #[trigger] front[j],
            #[trigger] front[i],
            query,
            listed,
        ) by {
            assert(front[i] == items[i] && front[j] == items[j]);
        }
        assert forall|k: int| 0 <= k < front.len() implies is_match(#[trigger] front[k], query) by {
            assert(front[k] == items[k]);
        }
        lemma_rank_of_ranked(front, query, listed);
        assert(is_match(items[items.len() - 1], query));
        if front.len() > 0 {
            assert(front.last() == items[items.len() - 2]);
            assert(!item_before(items[items.len() - 1], items[items.len() - 2], query, listed));
        }
        assert(front.push(items.last()) =~= items);
    }
}

/// Ranking is idempotent: ranking the ranked list once more, for the same
/// query and priority names, changes nothing.
pub proof fn lemma_rank_idempotent(candidates: Seq<Item>, query: Seq<char>, listed: Seq<Seq<char>>)
    ensures
        rank_spec(rank_spec(candidates, query, listed), query, listed) == rank_spec(
            candidates,
            query,
            listed,
        ),
{
    lemma_rank_is_ranked(candidates, query, listed);
    lemma_rank_holds_only_matches(candidates, query, listed);
    lemma_rank_of_ranked(rank_spec(candidates, query, listed), query, listed);
}

} // verus!
