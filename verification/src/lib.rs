//! The core of a terminal file manager: directory listings and navigation,
//! a content viewer, a text editor and the rolling-key cipher that obscures
//! what the editor saves. The library performs no input or output itself; the
//! host reads keys, touches the file system and draws the screen.

pub mod cipher;
pub mod editor;
pub mod entity;
pub mod error;
pub mod host;
pub mod listing;
pub mod manager;
pub mod order;
pub mod path;
pub mod session;
pub mod text;
pub mod viewer;
