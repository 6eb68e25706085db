//! Verified core of a music-download chat bot.
pub mod text;
pub mod downloader;
pub mod state;
pub mod ytdlp_config;
pub mod metadata_service;
pub mod tagging;
pub mod resolvers;
pub mod dialogue;
