//! Find/replace navigation engine for a line-wrapped text editor.

pub mod editor;
pub mod encoding;
pub mod enums;
pub mod layout;
pub mod search;
pub mod tab;
pub mod text;
pub mod utility;
