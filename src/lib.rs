//! Interaction core of a terminal editor for a layered model/stack/tool
//! configuration: filtered selection lists, the configuration merge, edit
//! forms with validation, and the modal key dispatcher.

pub mod app;
pub mod cli;
pub mod config;
pub mod filtered_list;
pub mod form_field;
pub mod forms;
pub mod keys;
pub mod skill;
pub mod table;
pub mod text;
pub mod widgets;
pub mod wizard;
