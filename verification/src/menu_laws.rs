use vstd::prelude::*;
use crate::layout::{lemma_first_visible, lemma_visible_iff_fits, total_width, visible_len};
use crate::menu::{MenuView, Nav};
use crate::rank_laws::lemma_rank_is_no_longer;

verus! {

/// The session after `n` steps to the right.
pub open spec fn moved_right_by(view: MenuView, n: nat) -> MenuView
    decreases n,
{
    if n == 0 {
        view
    } else {
        moved_right_by(view, (n - 1) as nat).moved_right()
    }
}

/// Every transition keeps a session well formed: after a character, after
/// a character was taken back and after a step to either side, the ranked
/// list is the ranking for the query and the cursor stands on a visible
/// item, or at 0 while none is visible.
pub proof fn lemma_transitions_keep_wf(view: MenuView, c: char, rendered: int)
    requires
        view.wf(),
    ensures
        view.typed(c, rendered).wf(),
        view.erased().wf(),
        view.moved_left().wf(),
        view.moved_right().wf(),
{
    lemma_rank_is_no_longer(view.candidates, view.query.push(c), view.listed);
    lemma_rank_is_no_longer(view.candidates, view.query.drop_last(), view.listed);
}

/// The cursor is clamped: steps to the right from the first item end on
/// the last visible item and go no further. After `n` steps the cursor
/// stands on item `n`, or on the last visible item if there are no more
/// than `n` visible items.
pub proof fn lemma_right_steps_clamp(view: MenuView, n: nat)
    requires
        view.wf(),
        view.cursor == 0,
        view.visible() > 0,
    ensures
        moved_right_by(view, n).wf(),
        moved_right_by(view, n) == view.with_cursor(
            if n < view.visible() {
                n as int
            } else {
                view.visible() - 1
            },
        ),
    decreases n,
{
    if n > 0 {
        lemma_right_steps_clamp(view, (n - 1) as nat);
    }
}

/// On the last visible item a step to the right changes nothing, and on
/// the first item a step to the left changes nothing; while no item is
/// visible neither does.
pub proof fn lemma_steps_at_the_ends(view: MenuView)
    requires
        view.wf(),
    ensures
        view.cursor == view.visible() - 1 ==> view.moved_right() == view,
        view.cursor == 0 ==> view.moved_left() == view,
        view.nav() is Empty ==> view.moved_left() == view && view.moved_right() == view,
{
}

/// The cursor steps to the right exactly if there is a next item and it
/// ends within the room for candidates: it never comes to stand on an item
/// that is not visible as a whole.
pub proof fn lemma_right_step_iff_next_fits(view: MenuView)
    requires
        view.wf(),
        view.visible() > 0,
    ensures
        view.can_move_right() == (view.cursor + 1 < view.ranked.len() && view.offset_of(
            view.cursor + 1,
        ) + view.ranked[view.cursor + 1].width <= view.start() + view.available()),
{
    lemma_first_visible(view.ranked, view.available());
    if view.cursor + 1 < view.ranked.len() {
        lemma_visible_iff_fits(view.ranked, view.available(), view.cursor + 2);
        assert(total_width(view.ranked, view.cursor + 2) == total_width(
            view.ranked,
            view.cursor + 1,
        ) + view.ranked[view.cursor + 1].width);
    }
}

/// A change of the query resets the cursor: after a character that was
/// taken, and after a character that was taken back, the cursor stands on
/// the first item, or on none if no item is visible.
pub proof fn lemma_query_change_resets_cursor(view: MenuView, c: char, rendered: int)
    requires
        view.wf(),
    ensures
        rendered <= view.field_width ==> view.typed(c, rendered).cursor == 0 && (view.typed(
            c,
            rendered,
        ).nav() == Nav::Active(0) || view.typed(c, rendered).nav() == Nav::Empty),
        view.query.len() > 0 ==> view.erased().cursor == 0 && (view.erased().nav() == Nav::Active(0)
            || view.erased().nav() == Nav::Empty),
{
}

/// In a session the field of the candidates is the room for candidates:
/// an item is visible in the session exactly if it is visible in the
/// width of that field.
pub proof fn lemma_field_width_decides(view: MenuView)
    requires
        view.wf(),
    ensures
        view.visible() == visible_len(view.ranked, view.search_width),
        view.start() + view.search_width == view.window_width,
{
}

/// Confirming gives no selection while no item is visible, and else the
/// text of the item under the cursor.
pub proof fn lemma_selection_follows_cursor(view: MenuView)
    requires
        view.wf(),
    ensures
        match view.nav() {
            Nav::Empty => view.selection() is None,
            Nav::Active(c) => c == view.cursor && c < view.ranked.len() && view.selection() == Some(
                view.ranked[c as int].text@,
            ),
        },
{
    lemma_first_visible(view.ranked, view.available());
}

} // verus!
