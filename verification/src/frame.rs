//! Frames of a gateway connection.

use vstd::prelude::*;

verus! {

/// One frame as it came from, or goes to, a gateway.
#[derive(Debug, PartialEq, Eq)]
pub enum Frame {
    /// A text frame.
    Text(String),
    /// A binary frame.
    Binary(Vec<u8>),
    /// A control frame (ping, pong, close).
    Control,
}

impl Frame {
    /// The text of a text frame.
    pub open spec fn text(&self) -> Option<Seq<char>> {
        match self {
            Frame::Text(text) => Some(text@),
            _ => None,
        }
    }

    /// The text of a text frame.
    pub fn as_text(&self) -> (r: Option<&str>)
        ensures
            match r {
                Some(text) => self.text() == Some(text@),
                None => self.text().is_none(),
            },
    {
        match self {
            Frame::Text(text) => Some(text.as_str()),
            _ => None,
        }
    }
}

} // verus!
