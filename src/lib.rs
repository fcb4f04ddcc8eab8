//! Sector-level layout planning for a FAT-like filesystem image.
//!
//! Given a handful of filesystem parameters, [`layout::compute_layout`] splits
//! the image into boot records, journal, FAT copies, file metadata and file
//! data, and finds how many files the metadata region can address.
pub mod params;
pub mod capacity;
pub mod fat;
pub mod layout;
