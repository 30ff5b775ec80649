//! Names Hyprland workspaces after the windows they hold: each window gets an
//! icon from rules on its class and title, and each workspace a label made
//! from its windows' icons.
pub mod config;
pub mod params;
pub mod renamer;
pub mod rule;
pub mod text;
