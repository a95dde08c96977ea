//! The decisions of a self-hosted clipboard server: who may pass, what a share
//! link still allows, what a request changes in the database, how the listing is
//! cut into pages, and which file is sent.
//!
//! What the answers of the server satisfy is stated and proved of the functions that
//! give them: in `visits`, `owners`, `access`, `queries`, `conditions`, `records`,
//! `pictures`, `serving`, `setup` and `words`, and over several requests in
//! `lifecycle`.

pub mod access;
pub mod auth;
pub mod clock;
pub mod conditions;
pub mod config;
pub mod cookie;
pub mod delivery;
pub mod events;
pub mod form;
pub mod items;
pub mod lifecycle;
pub mod listing;
pub mod number;
pub mod owners;
pub mod path;
pub mod pictures;
pub mod qr;
pub mod queries;
pub mod records;
pub mod reply;
pub mod serving;
pub mod settings;
pub mod setup;
pub mod share;
pub mod statics;
pub mod storage;
pub mod store;
pub mod text;
pub mod token;
pub mod upload;
pub mod visits;
pub mod words;
