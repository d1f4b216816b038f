pub mod entity;
pub mod query;
pub mod world;
pub mod commands;
pub mod resources;
pub mod schedule;
pub mod timer;
pub mod people;
pub mod game;
