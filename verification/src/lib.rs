//! The ID3 Knife: verified logic for editing MP3 ID3v2 tags.

// Text, JSON and sorted-set helpers.
pub mod text;
pub mod json;
pub mod sorted;

// Tags as the `id3` crate holds them, and the fields idk names.
pub mod id3_tag;
pub mod tag_field;
pub mod field_help;
pub mod field_laws;

// Plans, outcomes and reporting shared by the write operations.
pub mod outcome;

// The operations.
pub mod edit;
pub mod copy;
pub mod merge;
pub mod apply;
pub mod find;
pub mod show;

// Inputs, arguments and configuration.
pub mod input;
pub mod cli;
pub mod config;
pub mod schema;

// Properties relating the operations.
pub mod laws;
pub mod name_laws;
