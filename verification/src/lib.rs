//! Verified core of a music-library tagger: it extracts structured metadata
//! (artists, title, remix label, year, album, genre, track number) from a
//! free-form title string, merges artist lists without duplicates, renders a
//! final title and a filesystem-safe filename from templates, and drives the
//! per-file accept / edit / reject cycle.

pub mod add;
pub mod alias;
pub mod artists;
pub mod catchall;
pub mod chars;
pub mod command;
pub mod deposit;
pub mod editor;
pub mod formats;
pub mod numbers;
pub mod proposal;
pub mod tag;
pub mod text;
pub mod util;
