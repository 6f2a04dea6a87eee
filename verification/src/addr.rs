//! Hardware and protocol addresses, and their textual forms.

pub mod text;
pub mod hardware;
pub mod protocol;
