//! The rules of a companion application for an online game: the
//! configuration document with its profiles and progress, the
//! synchronisation of the profiles with a server, and the smaller rules
//! around guides, links, windows and accounts.

pub mod analytics;
pub mod api;
pub mod base;
pub mod conf;
pub mod deep_link;
pub mod event;
pub mod export;
pub mod first_start;
pub mod guides;
pub mod ids;
pub mod image;
pub mod image_viewer;
pub mod item;
pub mod lookup;
pub mod notifications;
pub mod numbers;
pub mod oauth;
pub mod order;
pub mod paths;
pub mod quest;
pub mod report;
pub mod security;
pub mod shortcut;
pub mod sync;
pub mod text;
pub mod text_map;
pub mod update;
pub mod url;
pub mod user;
pub mod window_manager;
