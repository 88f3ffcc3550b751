//! Board geometry and game rules for a hexagonal settlers-style board game.
pub mod bank;
pub mod board;
pub mod board_counts;
pub mod development_card;
pub mod game_manager;
pub mod hex_laws;
pub mod input;
pub mod player;
pub mod resource;
pub mod rules;
pub mod tile;
