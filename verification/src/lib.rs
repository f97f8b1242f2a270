//! The logic of the hent keyboard-driven editor and its prototypes:
//! keyboard layouts, key tracking, the editor's control and text commands,
//! the older cole prototype, and a small health/damage world.
pub mod cole;
pub mod control;
pub mod editor;
pub mod health;
pub mod keyboard;
pub mod layout;
pub mod text;
