use vstd::prelude::*;
use crate::rank::names;

verus! {

/// Font that the strip is set in.
pub const FONT: &'static str = "ComicCodeLigatures Nerd Font 13";

/// Text of the prompt at the left edge of the strip.
pub const PROMPT: &'static str = "Run:";

/// Height of the strip in pixels.
pub const HEIGHT: u16 = 32;

/// Space left free on either side of a text, in pixels.
pub const MARGIN: u16 = 12;

/// Width of the field that shows the query, in pixels.
pub const TEXT_FIELD_WIDTH: u16 = 500;

/// Colour of the ground of a plain cell, as `0xRRGGBB`.
pub const BG_COLOR: u32 = 0x24273a;

/// Colour of the ground of a highlighted cell, as `0xRRGGBB`.
pub const HL_COLOR: u32 = 0x8aadf4;

/// Colour of the text of a plain cell, as `0xRRGGBB`.
pub const TEXT_COLOR: u32 = 0xcad3f5;

/// Colour of the text of a highlighted cell, as `0xRRGGBB`.
pub const TEXT_HL_COLOR: u32 = 0xffffff;

/// Width of the cell of a text that is `text_width` pixels wide: the text
/// with a margin on either side. `None` where that width does not fit the
/// type.
pub fn cell_width(text_width: u16) -> (r: Option<u16>)
    ensures
        r == if text_width + 2 * MARGIN <= u16::MAX {
            Some((text_width + 2 * MARGIN) as u16)
        } else {
            None
        },
{
    if text_width <= u16::MAX - 2 * MARGIN {
        Some(text_width + 2 * MARGIN)
    } else {
        None
    }
}

/// The names that rank above all others where nothing else tells two
/// candidates apart.
pub open spec fn priority_names() -> Seq<Seq<char>> {
    seq!["discord"@, "code"@, "idea"@, "thunderbird"@]
}

/// The priority names as owned strings, in the order of `priority_names`.
pub fn priority_items() -> (r: Vec<String>)
    ensures
        names(r@) == priority_names(),
{
    let mut items: Vec<String> = Vec::new();
    items.push("discord".to_owned());
    items.push("code".to_owned());
    items.push("idea".to_owned());
    items.push("thunderbird".to_owned());
    assert(names(items@) =~= priority_names());
    items
}

/// What a session is set up with.
pub struct Config {
    /// Width of the field that shows the query, in pixels.
    pub field_width: u16,
    /// The names that rank above all others where nothing else tells two
    /// candidates apart.
    pub priority_names: Vec<String>,
    /// Text of the prompt.
    pub prompt_text: String,
}

impl Config {
    /// The configuration of the constants above.
    pub fn standard() -> (r: Config)
        ensures
            r.field_width == TEXT_FIELD_WIDTH,
            r.prompt_text@ == PROMPT@,
            names(r.priority_names@) == priority_names(),
    {
        Config {
            field_width: TEXT_FIELD_WIDTH,
            priority_names: priority_items(),
            prompt_text: PROMPT.to_owned(),
        }
    }
}

} // verus!
