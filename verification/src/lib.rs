//! A four-function desktop calculator: the keypad state machine, the button
//! grid geometry, the hit testing of the pointer, and the drawing and
//! input decisions of its window, with their contracts.
pub mod calculator;
pub mod layout;
pub mod renderer;
pub mod text;
pub mod window;
