//! Backend core of a desktop image-folder browser.
//!
//! The centrepiece is a two-tier thumbnail cache: a bounded in-memory cache
//! with insertion-order eviction, and an on-disk cache of encoded thumbnails
//! validated against the source file's modification time. Around it stand the
//! request flow that orchestrates the two tiers, folder enumeration of image
//! files, and the plain data types for user profiles and application
//! settings.

pub mod cache;
pub mod config;
pub mod digest;
pub mod folder;
pub mod imaging;
pub mod payload;
pub mod profile;
pub mod service;
pub mod text;
