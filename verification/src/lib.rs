//! Overlay-state logic, activity labels and text escaping for a desktop
//! companion overlay: the tray menu and its commands, the character windows
//! of the room's users, and the text handed to those windows.

pub mod text;
pub mod window;
pub mod escape;
pub mod activity;
pub mod activity_laws;
pub mod users;
pub mod overlay;
