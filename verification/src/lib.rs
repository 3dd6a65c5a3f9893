//! Verified core of the MonARCH package store: pacman error classification, repository
//! labelling, distribution detection, pacman.conf parsing, search ranking and discovery
//! tables.
pub mod text;
pub mod error_classifier;
pub mod labels;
pub mod alpm_progress;
pub mod distro_context;
pub mod pacman_conf;
pub mod models;
pub mod ranking;
pub mod discovery;
pub mod flathub;
pub mod search;
pub mod search_core;
pub mod feed_dates;
pub mod news;
pub mod package;
pub mod system;
pub mod update;
pub mod reviews;
pub mod categories;
pub mod helper_client;
pub mod install;
pub mod aur_build;
pub mod command_output;
pub mod repo_choice;
pub mod aur_deps;
pub mod trending;
