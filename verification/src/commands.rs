//! What the frontend's commands compute, apart from the storage, network and
//! process work that they hand to the app around the library.

pub mod bookmarks;
pub mod downloads;
pub mod plugins;
pub mod repos;
pub mod streaming;
