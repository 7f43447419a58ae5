//! A verified reader for Dalvik executable (DEX) files.
pub mod annotations;
pub mod class_data;
pub mod code;
pub mod debug_info;
pub mod dex;
pub mod encoded_value;
pub mod error;
pub mod outside;
pub mod header;
pub mod items;
pub mod jstring;
pub mod layout;
pub mod map;
pub mod order;
pub mod read;
