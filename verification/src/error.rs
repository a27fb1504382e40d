//! Errors of lookups by index.

use vstd::prelude::*;
use vstd::string::*;
use crate::decimal;

verus! {

/// Why a lookup by index gave nothing.
#[derive(Debug, PartialEq)]
pub enum VireoError {
    /// No such window: never created, or closed.
    WindowNotFound(u64),
    /// No such offscreen canvas: never created, or released.
    OffscreenNotFound(usize),
    /// No such texture: out of bounds, or not loaded yet.
    TextureNotFound(usize),
    /// Any other failure.
    Other(String),
}

impl VireoError {
    /// The text of the error.
    pub open spec fn text(self) -> Seq<char> {
        match self {
            VireoError::WindowNotFound(index) => "window not found (index "@
                + decimal::decimal_text(index as nat)
                + "); the window was never created or has been closed"@,
            VireoError::OffscreenNotFound(index) => "offscreen canvas not found (index "@
                + decimal::decimal_text(index as nat)
                + "); it was never created or has been released"@,
            VireoError::TextureNotFound(index) => "texture not found (index "@
                + decimal::decimal_text(index as nat)
                + "); out of bounds or not yet loaded"@,
            VireoError::Other(msg) => msg@,
        }
    }

    /// The error as a message for people.
    pub fn message(&self) -> (r: String)
        ensures
            r@ == self.text(),
    {
        match self {
            VireoError::WindowNotFound(index) => indexed_message(
                "window not found (index ",
                *index,
                "); the window was never created or has been closed",
            ),
            VireoError::OffscreenNotFound(index) => indexed_message(
                "offscreen canvas not found (index ",
                *index as u64,
                "); it was never created or has been released",
            ),
            VireoError::TextureNotFound(index) => indexed_message(
                "texture not found (index ",
                *index as u64,
                "); out of bounds or not yet loaded",
            ),
            VireoError::Other(msg) => msg.clone(),
        }
    }
}

fn indexed_message(before: &str, index: u64, after: &str) -> (r: String)
    ensures
        r@ == before@ + decimal::decimal_text(index as nat) + after@,
{
    let mut text = String::from_str(before);
    let digits = decimal::decimal_string(index);
    text.append(digits.as_str());
    text.append(after);
    text
}

} // verus!
