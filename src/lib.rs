//! A small overlay panel for a layer-shell compositor: a fixed grid of
//! toggle buttons painted into a shared pixel buffer, the pointer and
//! keyboard routing that drives them, and the redraw scheduling of the
//! client session.
pub mod button;
pub mod session;
pub mod render;
