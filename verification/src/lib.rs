//! Verified core of a game-modification pack installer: manifest validation,
//! path sanitizing, hash- and size-checked downloads, archive override
//! extraction and the install state machine.
pub mod archive;
pub mod download;
pub mod errors;
pub mod hexutil;
pub mod install;
pub mod loader;
pub mod mrpack;
pub mod paths;
pub mod registry;
pub mod strutil;
