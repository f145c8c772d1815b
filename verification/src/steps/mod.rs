//! What each kind of step decides and computes.

pub mod input;
pub mod multi_select;
pub mod password;
pub mod progress;
pub mod select;
pub mod confirm;
pub mod outro;
pub mod print;
pub mod spinner;
