use vstd::prelude::*;
use crate::parts::Item;

verus! {

/// A visible candidate and the offset of its cell on screen.
#[derive(Debug, PartialEq, Eq)]
pub struct Placed {
    pub item: Item,
    pub offset: u32,
}

/// The width that the first `n` items take, side by side.
pub open spec fn total_width(items: Seq<Item>, n: int) -> int
    decreases n,
{
    if n <= 0 {
        0
    } else {
        total_width(items, n - 1) + items[n - 1].width
    }
}

/// The walk that places items side by side: from item `from` on, with
/// `room` left, it goes on while the next item fits, and gives the index
/// of the first item that does not, or the length where all fit.
pub open spec fn walk(items: Seq<Item>, from: int, room: int) -> int
    decreases items.len() - from,
{
    if 0 <= from < items.len() && items[from].width <= room {
        walk(items, from + 1, room - items[from].width)
    } else {
        from
    }
}

/// How many items are visible in `available` pixels: the items before the
/// first one that does not fit behind those before it. No item behind that
/// one is visible, however narrow.
pub open spec fn visible_len(items: Seq<Item>, available: int) -> int {
    walk(items, 0, available)
}

/// The visible set: the visible items, in order, each at the offset where
/// the one before it ends, the first at `start`.
pub open spec fn layout_spec(items: Seq<Item>, start: int, available: int) -> Seq<Placed> {
    Seq::new(
        visible_len(items, available) as nat,
        |i: int| Placed { item: items[i], offset: (start + total_width(items, i)) as u32 },
    )
}

/// The first `n` items take no less width than the first `m` of them.
pub proof fn lemma_total_width_grows(items: Seq<Item>, m: int, n: int)
    requires
        0 <= m <= n,
    ensures
        0 <= total_width(items, m) <= total_width(items, n),
    decreases n,
{
    if n > 0 {
        if m < n {
            lemma_total_width_grows(items, m, n - 1);
        } else {
            lemma_total_width_grows(items, m - 1, n - 1);
        }
    }
}

/// What a walk reaches: it stops at or behind its start, the items that it
/// passed fit the room, if there is any, and the item at which it stopped
/// does not fit behind them.
pub proof fn lemma_walk_stops(items: Seq<Item>, from: int, room: int)
    requires
        0 <= from <= items.len(),
    ensures
        from <= walk(items, from, room) <= items.len(),
        0 <= room ==> total_width(items, walk(items, from, room)) - total_width(items, from)
            <= room,
        walk(items, from, room) < items.len() ==> total_width(
            items,
            walk(items, from, room) + 1,
        ) - total_width(items, from) > room,
    decreases items.len() - from,
{
    if from < items.len() && items[from].width <= room {
        lemma_walk_stops(items, from + 1, room - items[from].width);
        lemma_total_width_grows(items, from + 1, walk(items, from, room));
    }
}

/// The visible items are the longest run from the front that fits: they
/// fit in `available`, and with the next item they would not.
pub proof fn lemma_visible_is_longest_fit(items: Seq<Item>, available: int)
    requires
        0 <= available,
    ensures
        0 <= visible_len(items, available) <= items.len(),
        total_width(items, visible_len(items, available)) <= available,
        visible_len(items, available) < items.len() ==> total_width(
            items,
            visible_len(items, available) + 1,
        ) > available,
{
    lemma_walk_stops(items, 0, available);
}

/// Some item is visible exactly if there is a first item and it fits.
pub proof fn lemma_first_visible(items: Seq<Item>, available: int)
    ensures
        0 <= visible_len(items, available) <= items.len(),
        (visible_len(items, available) > 0) == (items.len() > 0 && items[0].width <= available),
{
    if items.len() > 0 && items[0].width <= available {
        lemma_walk_stops(items, 1, available - items[0].width);
    }
}

/// A run from the front is visible as a whole exactly if it fits.
pub proof fn lemma_visible_iff_fits(items: Seq<Item>, available: int, n: int)
    requires
        0 <= available,
        0 <= n <= items.len(),
    ensures
        (n <= visible_len(items, available)) == (total_width(items, n) <= available),
{
    lemma_visible_is_longest_fit(items, available);
    let v = visible_len(items, available);
    if n <= v {
        lemma_total_width_grows(items, n, v);
    } else {
        lemma_total_width_grows(items, v + 1, n);
    }
}

/// In the visible set the items stand in the order of the ranked list,
/// and each stands where the one before it ends: its offset is that of
/// the one before it and the width of that one together.
pub proof fn lemma_layout_is_side_by_side(items: Seq<Item>, start: int, available: int, i: int)
    requires
        0 <= start,
        0 <= available,
        start + available <= u32::MAX,
        0 <= i,
        i + 1 < layout_spec(items, start, available).len(),
    ensures
        layout_spec(items, start, available)[i].item == items[i],
        layout_spec(items, start, available)[i + 1].item == items[i + 1],
        layout_spec(items, start, available)[i].offset >= start,
        layout_spec(items, start, available)[i + 1].offset == layout_spec(
            items,
            start,
            available,
        )[i].offset + items[i].width,
{
    lemma_visible_is_longest_fit(items, available);
    let visible = visible_len(items, available);
    lemma_total_width_grows(items, i, visible);
    lemma_total_width_grows(items, i + 1, visible);
}

/// How many items of `ranked` are visible in `available_width`.
pub fn visible_count(ranked: &Vec<Item>, available_width: u16) -> (n: usize)
    ensures
        n == visible_len(ranked@, available_width as int),
{
    let mut used: u32 = 0;
    let mut i: usize = 0;
    while i < ranked.len() && used + ranked[i].width as u32 <= available_width as u32
        invariant
            i <= ranked.len(),
            used <= available_width,
            walk(ranked@, 0, available_width as int) == walk(
                ranked@,
                i as int,
                available_width - used,
            ),
        decreases ranked.len() - i,
    {
        used = used + ranked[i].width as u32;
        i += 1;
    }
    i
}

/// Places the items of `ranked` side by side from `start_offset` on, as
/// long as they fit in `available_width`: an item is placed if it ends at
/// or before `start_offset + available_width`, and with the first item
/// that does not, the placing ends.
pub fn layout(ranked: &Vec<Item>, start_offset: u16, available_width: u16) -> (visible: Vec<Placed>)
    ensures
        visible@ == layout_spec(ranked@, start_offset as int, available_width as int),
        visible@.len() == visible_len(ranked@, available_width as int),
        visible@.len() <= ranked@.len(),
        forall|i: int|
            0 <= i < visible@.len() ==> (#[trigger] visible@[i]).item == ranked@[i]
                && visible@[i].offset == start_offset + total_width(ranked@, i)
                && visible@[i].offset + ranked@[i].width <= start_offset + available_width,
        visible@.len() < ranked@.len() ==> start_offset + total_width(
            ranked@,
            visible@.len() as int + 1,
        ) > start_offset + available_width,
{
    let mut visible: Vec<Placed> = Vec::new();
    let mut used: u32 = 0;
    let mut i: usize = 0;
    while i < ranked.len() && used + ranked[i].width as u32 <= available_width as u32
        invariant
            i <= ranked.len(),
            used == total_width(ranked@, i as int),
            used <= available_width,
            visible@.len() == i,
            walk(ranked@, 0, available_width as int) == walk(
                ranked@,
                i as int,
                available_width - used,
            ),
            forall|k: int|
                0 <= k < i ==> (#[trigger] visible@[k]).item == ranked@[k] && visible@[k].offset
                    == start_offset + total_width(ranked@, k) && visible@[k].offset
                    + ranked@[k].width <= start_offset + available_width,
        decreases ranked.len() - i,
    {
        let item = ranked[i].clone();
        visible.push(Placed { item, offset: start_offset as u32 + used });
        used = used + ranked[i].width as u32;
        i += 1;
    }
    proof {
        assert(visible@.len() == visible_len(ranked@, available_width as int));
        assert(visible@ =~= layout_spec(ranked@, start_offset as int, available_width as int));
    }
    visible
}

} // verus!
