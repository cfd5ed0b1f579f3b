//! Turns wiki markup into a document of sections and word tokens for a
//! word-guessing game.

pub mod api;
pub mod article;
pub mod game;
pub mod grammar;
pub mod inline;
pub mod markup;
pub mod plain;
pub mod section;
pub mod text;
pub mod token;
