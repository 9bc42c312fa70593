use vstd::prelude::*;
use crate::config::{BG_COLOR, HL_COLOR, TEXT_COLOR, TEXT_HL_COLOR};
use crate::layout::Placed;
use crate::parts::{Prompt, TextField};

verus! {

/// What is to be drawn: a filled rectangle over the height of the strip,
/// or a text, each from the offset `x` on, in a colour.
#[derive(Debug, PartialEq, Eq)]
pub enum DrawOp {
    Rectangle { x: u32, width: u16, color: u32 },
    Text { x: u32, text: String, color: u32 },
}

/// A drawing step as the contracts see it.
pub enum DrawOpView {
    Rectangle { x: int, width: int, color: u32 },
    Text { x: int, text: Seq<char>, color: u32 },
}

impl View for DrawOp {
    type V = DrawOpView;

    open spec fn view(&self) -> DrawOpView {
        match *self {
            DrawOp::Rectangle { x, width, color } => DrawOpView::Rectangle {
                x: x as int,
                width: width as int,
                color,
            },
            DrawOp::Text { x, text, color } => DrawOpView::Text { x: x as int, text: text@, color },
        }
    }
}

/// The drawing steps of `ops`, in order.
pub open spec fn views(ops: Seq<DrawOp>) -> Seq<DrawOpView> {
    ops.map_values(|op: DrawOp| op@)
}

/// The colour of a cell's ground.
pub open spec fn box_color(highlighted: bool) -> u32 {
    if highlighted {
        HL_COLOR
    } else {
        BG_COLOR
    }
}

/// The colour of a cell's text.
pub open spec fn text_color(highlighted: bool) -> u32 {
    if highlighted {
        TEXT_HL_COLOR
    } else {
        TEXT_COLOR
    }
}

/// A cell: its ground, then its text on it.
pub open spec fn cell_ops(x: int, width: int, text: Seq<char>, highlighted: bool) -> Seq<
    DrawOpView,
> {
    seq![
        DrawOpView::Rectangle { x, width, color: box_color(highlighted) },
        DrawOpView::Text { x, text, color: text_color(highlighted) },
    ]
}

/// The cells of the first `n` of the visible items, the one under the
/// cursor highlighted.
pub open spec fn cells_ops(visible: Seq<Placed>, cursor: int, n: int) -> Seq<DrawOpView>
    decreases n,
{
    if n <= 0 {
        Seq::empty()
    } else {
        cells_ops(visible, cursor, n - 1) + cell_ops(
            visible[n - 1].offset as int,
            visible[n - 1].item.width as int,
            visible[n - 1].item.text@,
            n - 1 == cursor,
        )
    }
}

/// The candidates: the ground of their field, from `start` on, then the
/// cell of each visible item.
pub open spec fn items_ops(start: int, search_width: int, visible: Seq<Placed>, cursor: int) -> Seq<
    DrawOpView,
> {
    seq![DrawOpView::Rectangle { x: start, width: search_width, color: BG_COLOR }] + cells_ops(
        visible,
        cursor,
        visible.len() as int,
    )
}

/// A step of the cursor: the ground of the cell that it left and of the
/// cell that it reached, then the two texts.
pub open spec fn move_ops(
    from_x: int,
    from_width: int,
    from_text: Seq<char>,
    to_x: int,
    to_width: int,
    to_text: Seq<char>,
) -> Seq<DrawOpView> {
    seq![
        DrawOpView::Rectangle { x: from_x, width: from_width, color: BG_COLOR },
        DrawOpView::Rectangle { x: to_x, width: to_width, color: HL_COLOR },
        DrawOpView::Text { x: from_x, text: from_text, color: TEXT_COLOR },
        DrawOpView::Text { x: to_x, text: to_text, color: TEXT_HL_COLOR },
    ]
}

/// Adds a cell to `ops`.
pub fn draw_cell(ops: &mut Vec<DrawOp>, x: u32, width: u16, text: String, highlighted: bool)
    ensures
        views(final(ops)@) == views(old(ops)@) + cell_ops(
            x as int,
            width as int,
            text@,
            highlighted,
        ),
{
    let ground = if highlighted {
        HL_COLOR
    } else {
        BG_COLOR
    };
    let ink = if highlighted {
        TEXT_HL_COLOR
    } else {
        TEXT_COLOR
    };
    ops.push(DrawOp::Rectangle { x, width, color: ground });
    ops.push(DrawOp::Text { x, text, color: ink });
    assert(views(ops@) =~= views(old(ops)@) + cell_ops(
        x as int,
        width as int,
        text@,
        highlighted,
    ));
}

/// The prompt: a highlighted cell at the left edge.
pub fn draw_prompt(prompt: &Prompt) -> (ops: Vec<DrawOp>)
    ensures
        views(ops@) == cell_ops(0, prompt.width as int, prompt.text@, true),
{
    let mut ops: Vec<DrawOp> = Vec::new();
    draw_cell(&mut ops, 0, prompt.width, prompt.text.clone(), true);
    assert(views(ops@) =~= cell_ops(0, prompt.width as int, prompt.text@, true));
    ops
}

/// The query field: a plain cell behind the prompt, which shows the query
/// with its mark.
pub fn draw_text_field(prompt: &Prompt, text_field: &TextField) -> (ops: Vec<DrawOp>)
    ensures
        views(ops@) == cell_ops(
            prompt.width as int,
            text_field.width as int,
            TextField::shown(text_field.text@),
            false,
        ),
{
    let mut ops: Vec<DrawOp> = Vec::new();
    draw_cell(&mut ops, prompt.width as u32, text_field.width, text_field.display(), false);
    assert(views(ops@) =~= cell_ops(
        prompt.width as int,
        text_field.width as int,
        TextField::shown(text_field.text@),
        false,
    ));
    ops
}

/// The candidates: the ground of their field, `search_width` wide from
/// `start` on, then the cells of the visible items, the one with index
/// `cursor` highlighted.
pub fn draw_items(start: u32, search_width: u16, visible: &Vec<Placed>, cursor: usize) -> (ops:
    Vec<DrawOp>)
    ensures
        views(ops@) == items_ops(start as int, search_width as int, visible@, cursor as int),
{
    let mut ops: Vec<DrawOp> = Vec::new();
    ops.push(DrawOp::Rectangle { x: start, width: search_width, color: BG_COLOR });
    let ghost ground = seq![
        DrawOpView::Rectangle { x: start as int, width: search_width as int, color: BG_COLOR },
    ];
    assert(views(ops@) =~= ground);
    let mut i: usize = 0;
    while i < visible.len()
        invariant
            i <= visible.len(),
            views(ops@) == ground + cells_ops(visible@, cursor as int, i as int),
        decreases visible.len() - i,
    {
        let placed = &visible[i];
        draw_cell(&mut ops, placed.offset, placed.item.width, placed.item.text.clone(), i == cursor);
        assert(views(ops@) =~= ground + cells_ops(visible@, cursor as int, i + 1));
        i += 1;
    }
    ops
}

} // verus!
