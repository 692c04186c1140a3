//! A Minecraft launcher's logic: choosing versions of the game and of its
//! mod loaders, planning what to download, and building the command that
//! starts the game.
pub mod app;
pub mod equality;
pub mod fabric;
pub mod liteloader;
pub mod loaders;
pub mod mrpack;
pub mod outside;
pub mod quilt;
pub mod risugami;
pub mod string_map;
pub mod text;
pub mod util;
pub mod vanilla;
pub mod version;
