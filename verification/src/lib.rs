//! Verified core of `graftfs`, a symlink farm manager in the spirit of GNU stow.
#![allow(unused_imports)]

pub mod text;
pub mod paths;
pub mod strategy;
pub mod regex;
pub mod color;
pub mod color_support;
pub mod command_error;
pub mod operation;
pub mod stow_data;
pub mod command;
pub mod command_builder;
pub mod logging;
pub mod config;
pub mod ignore_file;
pub mod app_configuration;
pub mod shell;
pub mod dist;
