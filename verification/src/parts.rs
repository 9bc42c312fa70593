use vstd::prelude::*;
use crate::config::TEXT_FIELD_WIDTH;
use crate::layout::{lemma_first_visible, visible_count, visible_len};
use crate::text::{pop_char, push_char};

verus! {

/// The window that holds the strip.
#[derive(Clone, Copy, Debug, PartialEq, Eq)]
pub struct Window {
    pub width: u16,
    pub id: u32,
}

impl Window {
    /// The window with this width and this id.
    pub fn new(width: u16, id: u32) -> (r: Self)
        ensures
            r.width == width,
            r.id == id,
    {
        Self { width, id }
    }
}

/// The prompt at the left edge of the strip.
#[derive(Debug, PartialEq, Eq)]
pub struct Prompt {
    pub width: u16,
    pub text: String,
}

impl Prompt {
    /// The prompt that shows `text` in a cell of this width.
    pub fn new(width: u16, text: String) -> (r: Self)
        ensures
            r.width == width,
            r.text == text,
    {
        Self { width, text }
    }
}

/// The field that shows the query: the text typed so far and the width
/// that the field has for it.
#[derive(Debug, PartialEq, Eq)]
pub struct TextField {
    pub width: u16,
    pub text: String,
}

/// The mark that stands behind the query on screen.
pub const CURSOR_MARK: char = '|';

impl TextField {
    /// The empty field, as wide as the configuration has it.
    pub fn new() -> (r: TextField)
        ensures
            r.width == TEXT_FIELD_WIDTH,
            r.text@ == Seq::<char>::empty(),
    {
        Self { width: TEXT_FIELD_WIDTH, text: String::new() }
    }

    /// The text as the field shows it: the query with the mark behind it.
    pub open spec fn shown(query: Seq<char>) -> Seq<char> {
        query.push(CURSOR_MARK)
    }

    /// The text that the field shows.
    pub fn display(&self) -> (r: String)
        ensures
            r@ == Self::shown(self.text@),
    {
        let mut shown = self.text.clone();
        push_char(&mut shown, CURSOR_MARK);
        shown
    }

    /// The text that the field would show once `c` were typed. Its width on
    /// screen decides whether `c` may be typed.
    pub fn probe(&self, c: char) -> (r: String)
        ensures
            r@ == Self::shown(self.text@.push(c)),
    {
        let mut shown = self.text.clone();
        push_char(&mut shown, c);
        push_char(&mut shown, CURSOR_MARK);
        shown
    }

    /// Types `c`, where `rendered` is the width on screen of `probe(c)`.
    /// The character is taken if that width fits the field and dropped if
    /// not. Returns whether the query changed.
    pub fn insert(&mut self, c: char, rendered: u16) -> (changed: bool)
        ensures
            changed == (rendered <= old(self).width),
            final(self).width == old(self).width,
            changed ==> final(self).text@ == old(self).text@.push(c),
            !changed ==> *final(self) == *old(self),
    {
        if rendered > self.width {
            return false;
        }
        push_char(&mut self.text, c);
        true
    }

    /// Takes the last character off the query. Returns whether the query
    /// changed: an empty query stays empty.
    pub fn delete_last(&mut self) -> (changed: bool)
        ensures
            changed == (old(self).text@.len() > 0),
            final(self).width == old(self).width,
            changed ==> final(self).text@ == old(self).text@.drop_last(),
            !changed ==> *final(self) == *old(self),
    {
        if self.text.as_str().unicode_len() == 0 {
            return false;
        }
        let _ = pop_char(&mut self.text);
        true
    }
}

/// A candidate: a name and the width of its cell on screen.
#[derive(Debug, PartialEq, Eq)]
pub struct Item {
    pub width: u16,
    pub text: String,
}

impl Item {
    /// The candidate named `text`, whose cell is `width` wide.
    pub fn new(width: u16, text: String) -> (r: Self)
        ensures
            r.width == width,
            r.text == text,
    {
        Self { width, text }
    }
}

impl Clone for Item {
    fn clone(&self) -> (r: Self)
        ensures
            r == *self,
    {
        Self { width: self.width, text: self.text.clone() }
    }
}

/// The part of the strip that shows the candidates: all of them, those that
/// match the query in rank order, and the index of the highlighted one.
/// Of the ranked items those are visible that fit the field's width side
/// by side, from the first on.
#[derive(Debug, PartialEq, Eq)]
pub struct SearchField {
    pub width: u16,
    pub all_items: Vec<Item>,
    pub items: Vec<Item>,
    pub cursor: usize,
}

impl SearchField {
    /// The field with these candidates. No query was ranked for yet: the
    /// ranked list is empty.
    pub fn new(width: u16, items: Vec<Item>) -> (r: Self)
        ensures
            r.width == width,
            r.all_items == items,
            r.items@ == Seq::<Item>::empty(),
            r.cursor == 0,
    {
        Self { width, all_items: items, items: Vec::new(), cursor: 0 }
    }

    /// How many of the ranked items are visible in the field.
    pub open spec fn visible(self) -> int {
        visible_len(self.items@, self.width as int)
    }

    /// The selection: the name of the item under the cursor where that
    /// item is visible, and the empty text where it is not. While no item
    /// is visible the selection is empty, whatever the ranked list holds.
    pub open spec fn selection(self) -> Seq<char> {
        if self.cursor < self.visible() {
            self.items@[self.cursor as int].text@
        } else {
            Seq::empty()
        }
    }

    /// The selection.
    pub fn get_selection(&self) -> (r: String)
        ensures
            r@ == self.selection(),
            self.visible() == 0 ==> r@ == Seq::<char>::empty(),
    {
        proof {
            lemma_first_visible(self.items@, self.width as int);
        }
        if self.cursor < visible_count(&self.items, self.width) {
            self.items[self.cursor].text.clone()
        } else {
            String::new()
        }
    }
}

} // verus!
