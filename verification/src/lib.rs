//! Verified core of the TagBox file manager: text handling, search query
//! construction, category bookkeeping, view state and the decisions that the
//! graphical front ends act on.

pub mod text;
pub mod theme;
pub mod library;
pub mod view_state;
pub mod categories;
pub mod pdfmeta;
pub mod metadata;
pub mod query;
pub mod paths;
pub mod session;
pub mod download;
pub mod logs;
pub mod display;
pub mod counting;
pub mod tree;
pub mod widgets;
pub mod statistics;
pub mod settings;
pub mod sorting;
pub mod menus;
pub mod pages;
pub mod tasks;
pub mod hierarchy;
pub mod pdffile;
