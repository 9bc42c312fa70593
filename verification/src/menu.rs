use vstd::prelude::*;
use crate::config::{Config, BG_COLOR, HL_COLOR, TEXT_COLOR, TEXT_HL_COLOR};
use crate::event::Event;
use crate::layout::{
    layout, layout_spec, lemma_first_visible, lemma_total_width_grows, lemma_visible_iff_fits,
    lemma_visible_is_longest_fit, total_width, visible_count, visible_len, Placed,
};
use crate::parts::{Item, Prompt, SearchField, TextField, Window};
use crate::rank::{names, rank, rank_spec};
use crate::rank_laws::lemma_rank_is_no_longer;
use crate::render::{cell_ops, items_ops, move_ops, views, DrawOp};

verus! {

/// Where the cursor is: on no item while none is visible, else on the
/// visible item with the given index.
#[derive(Clone, Copy, Debug, PartialEq, Eq, Structural)]
pub enum Nav {
    Empty,
    Active(usize),
}

/// A cell of the strip: the visible item with this index, where it stands
/// and what it shows.
#[derive(Debug, PartialEq, Eq)]
pub struct Cell {
    pub index: usize,
    pub offset: u32,
    pub width: u16,
    pub text: String,
}

/// A step of the cursor: the cell that it left and the cell that it
/// reached. No other cell changes its looks.
#[derive(Debug, PartialEq, Eq)]
pub struct CursorMove {
    pub from: Cell,
    pub to: Cell,
}

impl CursorMove {
    /// What is to be drawn for the step: the cell that the cursor left
    /// becomes plain, the cell that it reached highlighted.
    pub fn draw(&self) -> (ops: Vec<DrawOp>)
        ensures
            views(ops@) == move_ops(
                self.from.offset as int,
                self.from.width as int,
                self.from.text@,
                self.to.offset as int,
                self.to.width as int,
                self.to.text@,
            ),
    {
        let mut ops: Vec<DrawOp> = Vec::new();
        ops.push(DrawOp::Rectangle { x: self.from.offset, width: self.from.width, color: BG_COLOR });
        ops.push(DrawOp::Rectangle { x: self.to.offset, width: self.to.width, color: HL_COLOR });
        ops.push(DrawOp::Text { x: self.from.offset, text: self.from.text.clone(), color: TEXT_COLOR });
        ops.push(DrawOp::Text { x: self.to.offset, text: self.to.text.clone(), color: TEXT_HL_COLOR });
        assert(views(ops@) =~= move_ops(
            self.from.offset as int,
            self.from.width as int,
            self.from.text@,
            self.to.offset as int,
            self.to.width as int,
            self.to.text@,
        ));
        ops
    }
}

/// The state of a session as the contracts see it.
pub struct MenuView {
    /// The width and the id of the window.
    pub window_width: int,
    pub window_id: u32,
    /// The text and the width of the prompt.
    pub prompt_text: Seq<char>,
    pub prompt_width: int,
    /// The width that the query field has for the query and its mark.
    pub field_width: int,
    /// The width of the field behind the query field.
    pub search_width: int,
    /// All candidates, in the order in which they were loaded.
    pub candidates: Seq<Item>,
    /// The priority names.
    pub listed: Seq<Seq<char>>,
    /// The text typed so far.
    pub query: Seq<char>,
    /// The matches for the query, in rank order.
    pub ranked: Seq<Item>,
    /// The index of the highlighted item.
    pub cursor: int,
}

impl MenuView {
    /// The offset at which the first candidate stands: behind the prompt
    /// and the query field.
    pub open spec fn start(self) -> int {
        self.prompt_width + self.field_width
    }

    /// The width that is left for candidates: from `start` to the right
    /// edge of the window.
    pub open spec fn available(self) -> int {
        self.window_width - self.start()
    }

    /// How many items of the ranked list are visible.
    pub open spec fn visible(self) -> int {
        visible_len(self.ranked, self.available())
    }

    /// Whether the parts fit together: the prompt, the query field and the
    /// field of the candidates fill the window side by side, so that the
    /// field of the candidates is as wide as the room for candidates.
    pub open spec fn fits_window(self) -> bool {
        self.search_width == self.available()
    }

    /// What holds of every session: the parts fit together, the ranked
    /// list is the ranking of the candidates for the query, the widths and
    /// the number of candidates are such as the machine can hold, and the
    /// cursor stands on a visible item, or at 0 while none is visible.
    pub open spec fn wf(self) -> bool {
        &&& self.fits_window()
        &&& self.ranked == rank_spec(self.candidates, self.query, self.listed)
        &&& self.ranked.len() <= self.candidates.len() <= usize::MAX
        &&& 0 <= self.prompt_width <= u16::MAX
        &&& 0 <= self.field_width <= u16::MAX
        &&& 0 <= self.window_width <= u16::MAX
        &&& 0 <= self.search_width <= u16::MAX
        &&& 0 <= self.cursor
        &&& self.cursor < self.visible() || self.cursor == 0
    }

    /// Where the cursor is.
    pub open spec fn nav(self) -> Nav {
        if self.visible() > 0 {
            Nav::Active(self.cursor as usize)
        } else {
            Nav::Empty
        }
    }

    /// The session with another query: the candidates are ranked anew and
    /// the cursor goes back to the first item.
    pub open spec fn requeried(self, query: Seq<char>) -> MenuView {
        MenuView {
            query,
            ranked: rank_spec(self.candidates, query, self.listed),
            cursor: 0,
            ..self
        }
    }

    /// The session after `c` was typed, where the query with `c` and the
    /// mark is `rendered` wide on screen: a character that does not fit
    /// the field changes nothing.
    pub open spec fn typed(self, c: char, rendered: int) -> MenuView {
        if rendered <= self.field_width {
            self.requeried(self.query.push(c))
        } else {
            self
        }
    }

    /// The session after the last character was taken back: an empty query
    /// changes nothing.
    pub open spec fn erased(self) -> MenuView {
        if self.query.len() > 0 {
            self.requeried(self.query.drop_last())
        } else {
            self
        }
    }

    /// Whether the cursor can step to the left: it stands on a visible
    /// item that is not the first.
    pub open spec fn can_move_left(self) -> bool {
        0 < self.cursor < self.visible()
    }

    /// Whether the cursor can step to the right: the item behind it is
    /// visible too.
    pub open spec fn can_move_right(self) -> bool {
        self.cursor + 1 < self.visible()
    }

    /// The session with the cursor on item `cursor`.
    pub open spec fn with_cursor(self, cursor: int) -> MenuView {
        MenuView { cursor, ..self }
    }

    /// The session after a step to the left.
    pub open spec fn moved_left(self) -> MenuView {
        if self.can_move_left() {
            self.with_cursor(self.cursor - 1)
        } else {
            self
        }
    }

    /// The session after a step to the right.
    pub open spec fn moved_right(self) -> MenuView {
        if self.can_move_right() {
            self.with_cursor(self.cursor + 1)
        } else {
            self
        }
    }

    /// The offset at which item `i` of the ranked list stands.
    pub open spec fn offset_of(self, i: int) -> int {
        self.start() + total_width(self.ranked, i)
    }

    /// Whether `cell` is the cell of item `i`.
    pub open spec fn is_cell(self, cell: Cell, i: int) -> bool {
        &&& cell.index == i
        &&& cell.offset == self.offset_of(i)
        &&& cell.width == self.ranked[i].width
        &&& cell.text@ == self.ranked[i].text@
    }

    /// The text that confirming gives: that of the item under the cursor,
    /// and none while no item is visible.
    pub open spec fn selection(self) -> Option<Seq<char>> {
        if self.visible() > 0 {
            Some(self.ranked[self.cursor].text@)
        } else {
            None
        }
    }
}

/// Whether `width` is a width that `width_fn` may give for `text`.
pub open spec fn measures<F: Fn(&str) -> u16>(width_fn: F, text: Seq<char>, width: u16) -> bool {
    exists|probe: &str| probe@ == text && call_ensures(width_fn, (probe,), width)
}

/// What an event did to the session, and so what is to be done on screen.
#[derive(Debug, PartialEq, Eq)]
pub enum Outcome {
    /// Nothing changed.
    Unchanged,
    /// The query changed: the query field and the candidates are to be
    /// drawn anew.
    Requeried,
    /// The cursor made this step: its two cells are to be drawn anew.
    Moved(CursorMove),
    /// The session ends with this selection.
    Confirmed(Option<String>),
    /// The session ends without a selection.
    Cancelled,
}

/// Whether `step` tells of the cursor going from item `from` to item `to`.
pub open spec fn is_step(view: MenuView, step: CursorMove, from: int, to: int) -> bool {
    view.is_cell(step.from, from) && view.is_cell(step.to, to)
}

/// Whether `text` is the selection `selection`.
pub open spec fn is_selection(text: Option<String>, selection: Option<Seq<char>>) -> bool {
    match text {
        Some(t) => selection == Some(t@),
        None => selection is None,
    }
}

/// Whether `outcome` tells of the cursor going from item `from` to item
/// `to`.
pub open spec fn is_moved(outcome: Outcome, view: MenuView, from: int, to: int) -> bool {
    match outcome {
        Outcome::Moved(step) => is_step(view, step, from, to),
        _ => false,
    }
}

/// Whether `outcome` tells of the session ending with `selection`.
pub open spec fn is_confirmed(outcome: Outcome, selection: Option<Seq<char>>) -> bool {
    match outcome {
        Outcome::Confirmed(text) => is_selection(text, selection),
        _ => false,
    }
}

/// A session: the parts of the strip and the priority names.
pub struct Rmenu {
    window: Window,
    prompt: Prompt,
    text_field: TextField,
    search_field: SearchField,
    priority: Vec<String>,
}

impl View for Rmenu {
    type V = MenuView;

    closed spec fn view(&self) -> MenuView {
        MenuView {
            window_width: self.window.width as int,
            window_id: self.window.id,
            prompt_text: self.prompt.text@,
            prompt_width: self.prompt.width as int,
            field_width: self.text_field.width as int,
            search_width: self.search_field.width as int,
            candidates: self.search_field.all_items@,
            listed: names(self.priority@),
            query: self.text_field.text@,
            ranked: self.search_field.items@,
            cursor: self.search_field.cursor as int,
        }
    }
}

impl Rmenu {
    /// A session on the given parts, where they fit together: the field of
    /// the candidates has to be as wide as what the prompt and the query
    /// field leave of the window. `None` where it is not. The candidates
    /// are those of `search_field`, the query is the text of `text_field`;
    /// the ranked list is made for them and the cursor set on its first
    /// item.
    pub fn new(
        window: Window,
        prompt: Prompt,
        text_field: TextField,
        search_field: SearchField,
        priority: Vec<String>,
    ) -> (r: Option<Self>)
        ensures
            r is Some == (prompt.width + text_field.width + search_field.width == window.width),
            r matches Some(menu) ==> {
                &&& menu@.wf()
                &&& menu@.window_width == window.width
                &&& menu@.window_id == window.id
                &&& menu@.prompt_text == prompt.text@
                &&& menu@.prompt_width == prompt.width
                &&& menu@.field_width == text_field.width
                &&& menu@.search_width == search_field.width
                &&& menu@.candidates == search_field.all_items@
                &&& menu@.listed == names(priority@)
                &&& menu@.query == text_field.text@
                &&& menu@.cursor == 0
            },
    {
        let filled: u32 = prompt.width as u32 + text_field.width as u32 + search_field.width as u32;
        if filled != window.width as u32 {
            return None;
        }
        let mut search_field = search_field;
        search_field.items = rank(&search_field.all_items, text_field.text.as_str(), &priority);
        search_field.cursor = 0;
        proof {
            lemma_rank_is_no_longer(search_field.all_items@, text_field.text@, names(priority@));
            assert(search_field.all_items.len() <= usize::MAX);
        }
        Some(Self { window, prompt, text_field, search_field, priority })
    }

    /// A session on the candidates named `candidates`, with `width_fn` to
    /// measure texts on screen: each candidate and the prompt get the
    /// width that `width_fn` gives for their text. The query is empty.
    /// `None` where the prompt and the query field do not fit the window.
    pub fn load<F: Fn(&str) -> u16>(
        candidates: Vec<String>,
        width_fn: F,
        window: Window,
        config: Config,
    ) -> (r: Option<Self>)
        requires
            forall|text: &str| call_requires(width_fn, (text,)),
        ensures
            exists|prompt_width: u16|
                measures(width_fn, config.prompt_text@, prompt_width) && (r is Some) == (
                prompt_width + config.field_width <= window.width) && (r matches Some(menu) ==> {
                    &&& menu@.wf()
                    &&& menu@.query == Seq::<char>::empty()
                    &&& menu@.cursor == 0
                    &&& menu@.listed == names(config.priority_names@)
                    &&& menu@.window_width == window.width
                    &&& menu@.window_id == window.id
                    &&& menu@.prompt_text == config.prompt_text@
                    &&& menu@.prompt_width == prompt_width
                    &&& menu@.field_width == config.field_width
                    &&& menu@.search_width == window.width - prompt_width - config.field_width
                    &&& menu@.candidates.len() == candidates@.len()
                    &&& forall|i: int|
                        0 <= i < candidates@.len() ==> (#[trigger] menu@.candidates[i]).text@
                            == candidates@[i]@ && measures(
                            width_fn,
                            candidates@[i]@,
                            menu@.candidates[i].width,
                        )
                }),
    {
        let prompt_width = width_fn(config.prompt_text.as_str());
        assert(measures(width_fn, config.prompt_text@, prompt_width));
        if prompt_width as u32 + config.field_width as u32 > window.width as u32 {
            return None;
        }
        let search_width: u16 = window.width - prompt_width - config.field_width;
        let mut items: Vec<Item> = Vec::new();
        let mut i: usize = 0;
        while i < candidates.len()
            invariant
                i <= candidates.len(),
                items@.len() == i,
                forall|text: &str| call_requires(width_fn, (text,)),
                forall|k: int|
                    0 <= k < i ==> (#[trigger] items@[k]).text@ == candidates@[k]@ && measures(
                        width_fn,
                        candidates@[k]@,
                        items@[k].width,
                    ),
            decreases candidates.len() - i,
        {
            let text = candidates[i].clone();
            let width = width_fn(text.as_str());
            assert(measures(width_fn, candidates@[i as int]@, width));
            items.push(Item::new(width, text));
            i += 1;
        }
        let prompt = Prompt::new(prompt_width, config.prompt_text);
        let text_field = TextField { width: config.field_width, text: String::new() };
        let search_field = SearchField::new(search_width, items);
        Self::new(window, prompt, text_field, search_field, config.priority_names)
    }

    /// The window of the strip.
    pub fn window(&self) -> (r: Window)
        ensures
            r.width == self@.window_width,
            r.id == self@.window_id,
    {
        self.window
    }

    /// The text typed so far.
    pub fn query(&self) -> (r: &String)
        ensures
            r@ == self@.query,
    {
        &self.text_field.text
    }

    /// The matches for the query, in rank order.
    pub fn ranked(&self) -> (r: &Vec<Item>)
        ensures
            r@ == self@.ranked,
    {
        &self.search_field.items
    }

    /// The index of the highlighted item.
    pub fn cursor(&self) -> (r: usize)
        ensures
            r == self@.cursor,
    {
        self.search_field.cursor
    }

    /// Where the cursor is.
    pub fn nav(&self) -> (r: Nav)
        ensures
            r == self@.nav(),
    {
        if self.has_visible() {
            Nav::Active(self.search_field.cursor)
        } else {
            Nav::Empty
        }
    }

    /// How many items are visible.
    pub fn visible_count(&self) -> (n: usize)
        ensures
            n == self@.visible(),
    {
        proof {
            lemma_first_visible(self@.ranked, self@.available());
        }
        match self.room() {
            Some((_, available)) => visible_count(&self.search_field.items, available),
            None => 0,
        }
    }

    /// The visible set: the visible items with their offsets.
    pub fn visible(&self) -> (r: Vec<Placed>)
        ensures
            r@ == layout_spec(self@.ranked, self@.start(), self@.available()),
            r@.len() == self@.visible(),
    {
        proof {
            lemma_first_visible(self@.ranked, self@.available());
        }
        match self.room() {
            Some((start, available)) => layout(&self.search_field.items, start, available),
            None => {
                let none: Vec<Placed> = Vec::new();
                assert(none@ =~= layout_spec(self@.ranked, self@.start(), self@.available()));
                none
            },
        }
    }

    /// Types `c`, where `rendered` is the width on screen of the query
    /// with `c` and the mark behind it. A character that fits the field is
    /// added to the query; the candidates are then ranked anew and the
    /// cursor goes back to the first item. A character that does not fit
    /// is dropped and nothing changes. Returns whether the query changed.
    pub fn on_char_rendered(&mut self, c: char, rendered: u16) -> (changed: bool)
        requires
            old(self)@.wf(),
        ensures
            final(self)@.wf(),
            final(self)@ == old(self)@.typed(c, rendered as int),
            changed == (rendered <= old(self)@.field_width),
            changed ==> final(self)@.query == old(self)@.query.push(c) && final(self)@.cursor == 0,
            !changed ==> final(self)@ == old(self)@,
    {
        if self.text_field.insert(c, rendered) {
            self.refresh();
            true
        } else {
            false
        }
    }

    /// Types `c`, with `width_fn` to measure texts on screen: the query
    /// with `c` and the mark behind it is measured, and the character is
    /// taken or dropped as `on_char_rendered` says for that width.
    /// Returns whether the query changed.
    pub fn on_char<F: Fn(&str) -> u16>(&mut self, c: char, width_fn: F) -> (changed: bool)
        requires
            old(self)@.wf(),
            forall|text: &str| call_requires(width_fn, (text,)),
        ensures
            final(self)@.wf(),
            exists|rendered: u16|
                measures(width_fn, TextField::shown(old(self)@.query.push(c)), rendered)
                    && final(self)@ == old(self)@.typed(c, rendered as int) && changed == (rendered
                    <= old(self)@.field_width),
    {
        let probe = self.text_field.probe(c);
        let rendered = width_fn(probe.as_str());
        self.on_char_rendered(c, rendered)
    }

    /// Takes the last character off the query. The candidates are then
    /// ranked anew and the cursor goes back to the first item. On an empty
    /// query nothing changes. Returns whether the query changed.
    pub fn on_backspace(&mut self) -> (changed: bool)
        requires
            old(self)@.wf(),
        ensures
            final(self)@.wf(),
            final(self)@ == old(self)@.erased(),
            changed == (old(self)@.query.len() > 0),
            changed ==> final(self)@.query == old(self)@.query.drop_last() && final(self)@.cursor
                == 0,
            !changed ==> final(self)@ == old(self)@,
    {
        if self.text_field.delete_last() {
            self.refresh();
            true
        } else {
            false
        }
    }

    /// Steps the cursor to the left. Nothing changes where it stands on
    /// the first item or no item is visible. Returns the step that was
    /// made, if any.
    pub fn on_move_left(&mut self) -> (step: Option<CursorMove>)
        requires
            old(self)@.wf(),
        ensures
            final(self)@.wf(),
            final(self)@ == old(self)@.moved_left(),
            step is Some == old(self)@.can_move_left(),
            step matches Some(m) ==> old(self)@.is_cell(m.from, old(self)@.cursor)
                && old(self)@.is_cell(m.to, old(self)@.cursor - 1),
    {
        let cursor = self.search_field.cursor;
        if !self.has_visible() || cursor == 0 {
            return None;
        }
        let from = self.cell(cursor);
        let to = self.cell(cursor - 1);
        self.search_field.cursor = cursor - 1;
        Some(CursorMove { from, to })
    }

    /// Steps the cursor to the right. Nothing changes where it stands on
    /// the last visible item or no item is visible: the cursor never
    /// leaves the visible items, so the item that it reaches ends within
    /// the room for candidates. Returns the step that was made, if any.
    pub fn on_move_right(&mut self) -> (step: Option<CursorMove>)
        requires
            old(self)@.wf(),
        ensures
            final(self)@.wf(),
            final(self)@ == old(self)@.moved_right(),
            step is Some == old(self)@.can_move_right(),
            step matches Some(m) ==> old(self)@.is_cell(m.from, old(self)@.cursor)
                && old(self)@.is_cell(m.to, old(self)@.cursor + 1) && m.to.offset + m.to.width
                <= old(self)@.start() + old(self)@.available(),
    {
        let cursor = self.search_field.cursor;
        if !self.has_visible() {
            return None;
        }
        proof {
            lemma_first_visible(self@.ranked, self@.available());
        }
        if cursor == self.search_field.items.len() - 1 {
            return None;
        }
        let from = self.cell(cursor);
        let limit: u32 = self.window.width as u32;
        let next_width: u32 = self.search_field.items[cursor + 1].width as u32;
        proof {
            let ranked = self@.ranked;
            lemma_visible_iff_fits(ranked, self@.available(), cursor + 2);
            assert(total_width(ranked, cursor + 1) == total_width(ranked, cursor as int)
                + ranked[cursor as int].width);
            assert(total_width(ranked, cursor + 2) == total_width(ranked, cursor + 1)
                + ranked[cursor + 1].width);
        }
        if from.offset + from.width as u32 + next_width > limit {
            return None;
        }
        let to = self.cell(cursor + 1);
        self.search_field.cursor = cursor + 1;
        Some(CursorMove { from, to })
    }

    /// Confirms: the text of the item under the cursor, and `None` while
    /// no item is visible.
    pub fn on_confirm(&self) -> (r: Option<String>)
        requires
            self@.wf(),
        ensures
            r is Some == self@.selection() is Some,
            r matches Some(text) ==> Some(text@) == self@.selection(),
    {
        if self.has_visible() {
            proof {
                lemma_first_visible(self@.ranked, self@.available());
            }
            Some(self.search_field.get_selection())
        } else {
            None
        }
    }

    /// Cancels: the session ends and gives nothing.
    pub fn on_cancel(self) {
    }

    /// Takes one event: a character is typed, the last character taken
    /// back, the cursor moved, the selection confirmed or the session
    /// cancelled. Confirming and cancelling leave the session as it is;
    /// the caller ends it.
    pub fn handle<F: Fn(&str) -> u16>(&mut self, event: Event, width_fn: F) -> (outcome: Outcome)
        requires
            old(self)@.wf(),
            forall|text: &str| call_requires(width_fn, (text,)),
        ensures
            final(self)@.wf(),
            match event {
                Event::Char(c) => exists|rendered: u16|
                    measures(width_fn, TextField::shown(old(self)@.query.push(c)), rendered)
                        && final(self)@ == old(self)@.typed(c, rendered as int) && outcome == (
                    if rendered <= old(self)@.field_width {
                        Outcome::Requeried
                    } else {
                        Outcome::Unchanged
                    }),
                Event::Backspace => final(self)@ == old(self)@.erased() && outcome == (
                if old(self)@.query.len() > 0 {
                    Outcome::Requeried
                } else {
                    Outcome::Unchanged
                }),
                Event::Left => final(self)@ == old(self)@.moved_left() && (
                if old(self)@.can_move_left() {
                    is_moved(outcome, old(self)@, old(self)@.cursor, old(self)@.cursor - 1)
                } else {
                    outcome is Unchanged
                }),
                Event::Right => final(self)@ == old(self)@.moved_right() && (
                if old(self)@.can_move_right() {
                    is_moved(outcome, old(self)@, old(self)@.cursor, old(self)@.cursor + 1)
                } else {
                    outcome is Unchanged
                }),
                Event::Enter => final(self)@ == old(self)@ && is_confirmed(
                    outcome,
                    old(self)@.selection(),
                ),
                Event::Escape => final(self)@ == old(self)@ && outcome is Cancelled,
            },
    {
        match event {
            Event::Char(c) => {
                if self.on_char(c, width_fn) {
                    Outcome::Requeried
                } else {
                    Outcome::Unchanged
                }
            },
            Event::Backspace => {
                if self.on_backspace() {
                    Outcome::Requeried
                } else {
                    Outcome::Unchanged
                }
            },
            Event::Left => {
                match self.on_move_left() {
                    Some(step) => Outcome::Moved(step),
                    None => Outcome::Unchanged,
                }
            },
            Event::Right => {
                match self.on_move_right() {
                    Some(step) => Outcome::Moved(step),
                    None => Outcome::Unchanged,
                }
            },
            Event::Enter => Outcome::Confirmed(self.on_confirm()),
            Event::Escape => Outcome::Cancelled,
        }
    }

    /// What is to be drawn for the prompt.
    pub fn draw_prompt(&self) -> (ops: Vec<DrawOp>)
        ensures
            views(ops@) == cell_ops(0, self@.prompt_width, self@.prompt_text, true),
    {
        crate::render::draw_prompt(&self.prompt)
    }

    /// What is to be drawn for the query field.
    pub fn draw_text_field(&self) -> (ops: Vec<DrawOp>)
        ensures
            views(ops@) == cell_ops(
                self@.prompt_width,
                self@.field_width,
                TextField::shown(self@.query),
                false,
            ),
    {
        crate::render::draw_text_field(&self.prompt, &self.text_field)
    }

    /// What is to be drawn for the candidates: the ground of their field
    /// and the cells of the visible set, the one under the cursor
    /// highlighted.
    pub fn draw_items(&self) -> (ops: Vec<DrawOp>)
        ensures
            views(ops@) == items_ops(
                self@.start(),
                self@.search_width,
                layout_spec(self@.ranked, self@.start(), self@.available()),
                self@.cursor,
            ),
    {
        let start: u32 = self.prompt.width as u32 + self.text_field.width as u32;
        let visible = self.visible();
        crate::render::draw_items(start, self.search_field.width, &visible, self.search_field.cursor)
    }

    /// The offset at which the candidates begin and the width that is left
    /// for them, or `None` where the prompt and the query field leave none.
    fn room(&self) -> (r: Option<(u16, u16)>)
        ensures
            match r {
                Some((start, available)) => start == self@.start() && available == self@.available(),
                None => self@.available() < 0,
            },
    {
        let start: u32 = self.prompt.width as u32 + self.text_field.width as u32;
        if start <= self.window.width as u32 {
            Some((start as u16, (self.window.width as u32 - start) as u16))
        } else {
            None
        }
    }

    /// Whether any item is visible: there is a first item and it fits.
    fn has_visible(&self) -> (r: bool)
        ensures
            r == (self@.visible() > 0),
    {
        proof {
            lemma_first_visible(self@.ranked, self@.available());
        }
        match self.room() {
            Some((_, available)) => {
                self.search_field.items.len() > 0 && self.search_field.items[0].width <= available
            },
            None => false,
        }
    }

    /// The cell of the visible item `i`.
    fn cell(&self, i: usize) -> (cell: Cell)
        requires
            i < self@.visible(),
        ensures
            self@.is_cell(cell, i as int),
            cell.offset + cell.width <= self@.start() + self@.available(),
    {
        proof {
            lemma_first_visible(self@.ranked, self@.available());
            lemma_visible_is_longest_fit(self@.ranked, self@.available());
            lemma_total_width_grows(self@.ranked, i + 1, self@.visible());
        }
        let start: u32 = self.prompt.width as u32 + self.text_field.width as u32;
        let mut used: u32 = 0;
        let mut k: usize = 0;
        while k < i
            invariant
                k <= i < self@.visible() <= self@.ranked.len(),
                used == total_width(self@.ranked, k as int),
                total_width(self@.ranked, i + 1) <= self@.available() <= u16::MAX,
            decreases i - k,
        {
            proof {
                lemma_total_width_grows(self@.ranked, k + 1, i + 1);
            }
            used = used + self.search_field.items[k].width as u32;
            k += 1;
        }
        Cell {
            index: i,
            offset: start + used,
            width: self.search_field.items[i].width,
            text: self.search_field.items[i].text.clone(),
        }
    }

    /// Ranks the candidates for the query as it now is, and sets the
    /// cursor on the first item.
    fn refresh(&mut self)
        ensures
            final(self)@ == old(self)@.requeried(old(self)@.query),
            final(self)@.ranked.len() <= final(self)@.candidates.len() <= usize::MAX,
    {
        proof {
            lemma_rank_is_no_longer(self@.candidates, self@.query, self@.listed);
            assert(self.search_field.all_items.len() <= usize::MAX);
        }
        self.search_field.items = rank(
            &self.search_field.all_items,
            self.text_field.text.as_str(),
            &self.priority,
        );
        self.search_field.cursor = 0;
    }
}

} // verus!
