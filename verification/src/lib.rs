//! Building blocks of a small file-sharing service for the local network:
//! how the base URL of the server is put together, how the shareable URL of a
//! file is derived from it, which directory entries are listed, how a batch of
//! uploads is stored step by step, which download names are refused, and how
//! a text is turned into an inline QR image.

pub mod address;
pub mod catalog;
pub mod config;
pub mod download;
pub mod error;
pub mod listing;
pub mod qr;
pub mod text;
pub mod upload;
pub mod url;
