//! The core of a downloader for videos of the Hotmart player, which are
//! delivered as HTTP Live Streaming assets.
//!
//! The library finds the master playlist of a video, selects the stream of
//! highest bandwidth, reads the segments of that stream with their keys,
//! and decrypts what is encrypted. It does no input or output: `pipeline`
//! tells its host which address to fetch or what to write next, and takes
//! what the host reports back.
//!
//! Every function carries a contract, and the contracts are proved. What
//! other crates compute (URLs, JSON, AES, hexadecimal and base64 text) is
//! called through small wrappers whose contracts are taken on trust; each
//! says in its comment what it claims.

pub mod address;
pub mod cipher;
pub mod error;
pub mod hexcode;
pub mod json;
pub mod keys;
pub mod lines;
pub mod locator;
pub mod master;
pub mod media;
pub mod number;
pub mod payload;
pub mod pipeline;
pub mod runs;
pub mod text;
