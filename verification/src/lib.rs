pub mod text;
pub mod lexer;
pub mod paradox;
pub mod navigate;
pub mod mod_writer;
pub mod script_tree;
pub mod recents;
pub mod province_names;
pub mod mod_loader;
pub mod scripted;
pub mod project_diff;
pub mod on_actions;
pub mod missions;
pub mod fields;
pub mod rebels;
pub mod mercenary_companies;
pub mod mechanics;
pub mod province_edit;
pub mod registry;
pub mod province_details;
pub mod round_trip;
