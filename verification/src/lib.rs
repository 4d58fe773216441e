//! A verified core for a paged image viewer.
//!
//! The library contains the logic of the viewer: two bounded
//! least-recently-used caches (decoded bitmaps and encoded payloads), an
//! image pipeline that loads, constrains and re-encodes bitmaps as base64
//! data URIs, a progressive-delivery protocol that serves a fast preview
//! and hands out a follow-up high-resolution job, and the navigation state
//! machine over scenes and pages.  Disk reads, decoding and re-encoding go
//! through a small set of trusted wrappers around the `image` crate; the
//! caches wrap `lru::LruCache`.  Everything else is specified and proved.

pub mod base64;
pub mod cache;
pub mod commands;
pub mod errors;
pub mod image_loader;
pub mod lru_model;
pub mod scene;
