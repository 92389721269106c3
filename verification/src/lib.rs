//! Selective protection of numbered system generations.
//!
//! The crate decides which generations a clean-up may remove. A generation is
//! kept when it is the active one, when the operator protected it, or when it
//! is among the most recent ones that a keep-last policy covers.
//!
//! - `retention` takes the decision, and `clean` carries it out through a
//!   `command_runner`.
//! - `protected_state` holds the protected generations, and `commands`
//!   changes them as the operator asks.
//! - `real_runner` and `listing` say how `nix-env` is called and read its
//!   answers.
//! - `config_path` finds the place of the protection store.
//!
//! The functions are verified against the contracts they state. The only
//! exceptions are the look-ups in the user database in `config_path`, which
//! are believed to do what the `users` crate says. Reading and writing files
//! and running programs is left to the program built around the library.

pub mod clean;
pub mod command_runner;
pub mod commands;
pub mod config_path;
pub mod error;
pub mod listing;
pub mod order;
pub mod protected_state;
pub mod real_runner;
pub mod retention;
pub mod text;
