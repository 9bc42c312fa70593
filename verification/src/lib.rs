//! The selection engine of a one-line application launcher.
//!
//! The user types a query; the candidates that contain it are ranked and
//! laid out side by side in what is left of the strip; a cursor moves over
//! the visible ones, and confirming gives the name under the cursor.
//!
//! * [`rank`] filters and orders the candidates; [`order`] compares two of
//!   them; [`rank_laws`] states what holds of every ranking.
//! * [`layout`] decides which ranked items are visible, and where.
//! * [`parts`] holds the parts of the strip: window, prompt, query field,
//!   candidates.
//! * [`menu`] is a session: it takes the events and keeps query, ranking
//!   and cursor consistent; [`menu_laws`] states what holds of every
//!   session.
//! * [`render`] says what is to be drawn, as plain values.
//! * [`event`] and [`keymap`] turn keysyms into events.
//! * [`text`] holds what the rest needs of texts; [`config`] the constants.
//!
//! Nothing here draws, reads a keyboard or measures a text: a caller hands
//! in widths and events and carries out what comes back.

pub mod config;
pub mod event;
pub mod keymap;
pub mod layout;
pub mod menu;
pub mod menu_laws;
pub mod order;
pub mod parts;
pub mod rank;
pub mod rank_laws;
pub mod render;
pub mod text;
