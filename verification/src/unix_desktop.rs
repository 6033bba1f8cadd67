//! Desktop helpers for X11 and Wayland: clipboard and notifications.
pub mod commands;
pub mod helper_read;
pub mod helper_write;
pub mod image;
pub mod notification;
pub mod open;

pub use commands::{read_clipboard_text, write_clipboard};
pub use image::read_clipboard_image;
pub use notification::show_desktop_notification;
pub use open::open_url;
