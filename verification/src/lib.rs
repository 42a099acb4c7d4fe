//! A pacman package browser's core logic: package data and status flags,
//! searching and sorting packages, browsing histories, the pacman log and
//! each package's part of it, backup files, the package cache, package
//! groups, repository statistics, the pacman configuration, and what the
//! views, tabs and dialogs show and copy.

pub mod text;
pub mod sort;
pub mod flags;
pub mod pkg_data;
pub mod pkg_object;
pub mod history;
pub mod log;
pub mod pkglog;
pub mod search;
pub mod search_bar;
pub mod backup;
pub mod cache;
pub mod stats;
pub mod groups;
pub mod config;
pub mod sidebar;
pub mod details;
pub mod links;
pub mod tabs;
pub mod aur;
