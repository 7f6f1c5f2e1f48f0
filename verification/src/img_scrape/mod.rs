//! Getting images from shared albums.

pub mod google_photos;
