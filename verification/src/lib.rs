//! A directory jumper's logic: finding, browsing, naming and drawing places.

pub mod action_menu;
pub mod browse;
pub mod browse_screen;
pub mod disk;
pub mod draw;
pub mod drawn;
pub mod favorites;
pub mod fs_path;
pub mod fuzzy;
pub mod header;
pub mod icons;
pub mod init;
pub mod input;
pub mod key_laws;
pub mod key_menu;
pub mod keys;
pub mod laws;
pub mod letters;
pub mod marks;
pub mod menu_laws;
pub mod mode;
pub mod mouse_laws;
pub mod moves;
pub mod names;
pub mod order;
pub mod picker;
pub mod place_laws;
pub mod place_moves;
pub mod places_screen;
pub mod pointer;
pub mod render;
pub mod result_laws;
pub mod root_moves;
pub mod scan;
pub mod screen;
pub mod screen_laws;
pub mod search_screen;
pub mod session;
pub mod source;
pub mod text;
pub mod travel_laws;
pub mod tree;
pub mod tree_moves;
pub mod tree_screen;
pub mod turns;
pub mod whole_screen;
pub mod width;
pub mod world;
