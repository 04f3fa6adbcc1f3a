//! Timed text to CEA-608 closed captions: which caption words a piece of text
//! needs, on which video frame each of them goes, and how the element reacts to
//! what its sink pad receives.

pub mod caption;
pub mod clock;
pub mod code;
pub mod compose;
pub mod element;
pub mod laws;
