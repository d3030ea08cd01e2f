pub mod apply;
pub mod atomic;
pub mod auto_update;
pub mod bump;
pub mod cache;
pub mod checksum;
pub mod chooser;
pub mod config;
pub mod date;
pub mod days;
pub mod download;
pub mod error;
pub mod favorite_names;
pub mod favorites;
pub mod favorites_menu;
pub mod form;
pub mod gather;
pub mod html;
pub mod info;
pub mod json;
pub mod launchd;
pub mod log;
pub mod model;
pub mod number;
pub mod path;
pub mod property_list;
pub mod session;
pub mod shelf;
pub mod sources;
pub mod text;
pub mod xml;
