//! What holds of the element as a whole.

pub mod decoder;
pub mod element;
pub mod notices;
pub mod plain;
pub mod screen;
pub mod shape;
pub mod spelling;
pub mod style;
pub mod text;
pub mod timing;
