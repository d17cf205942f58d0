//! Verified logic of a family of manga catalogue sources.

pub mod text;
pub mod model;
pub mod date;
pub mod common;
pub mod comick;
pub mod fanfox;
pub mod mangafreak;
pub mod mangahere;
pub mod mangakatana;
pub mod mangapill;
pub mod manhuaus;
pub mod tapas;
pub mod webtoons;
