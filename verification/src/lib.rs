//! Verified core of a metadata-aware file manager: the rules that decide how
//! files are classified and indexed, how ExifTool is spoken to and how its
//! answers are read, how queued metadata writes are batched and settled, and
//! how database rows become records.

pub mod commands;
pub mod db;
pub mod decimal;
pub mod exiftool;
pub mod meta_map;
pub mod paths;
pub mod text;
