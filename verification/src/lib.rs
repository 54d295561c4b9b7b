//! The verified core of an interactive typing trainer: the user reproduces
//! one or more target texts character by character, a cursor advancing only
//! on correct input. This crate holds the input-matching state machine, the
//! incremental diff renderer that projects typed progress into tagged,
//! scroll-positioned display lines, the session state with its save
//! snapshot, and the rainbow-wheel color reward — everything with real
//! invariants. Terminal, audio, and file collaborators live outside, behind
//! narrow plain-value interfaces.

pub mod color;
pub mod render;
pub mod session;
pub mod text;
