//! Discovery of LEDs and display backlights that a device-attribute file
//! system exposes: which directories are devices, and what brightness each
//! reports.
//!
//! The library decides; the caller reads. A scan runs in four steps:
//!
//! 1. The caller lists each root directory, one level deep, into a
//!    [`source::RootListing`].
//! 2. [`source::list_candidate_dirs`] merges the listings into one sequence
//!    of candidates, or fails with the first root that could not be listed.
//! 3. The caller looks at each candidate: whether it is a directory, and what
//!    its files `brightness` and `max_brightness` hold. That makes a
//!    [`loader::Candidate`].
//! 4. [`loader::load_devices`] builds a [`device::LightDevice`] from each
//!    directory, or fails with the first directory that gives none.
//!    [`loader::load_devices_lenient`] keeps the devices that could be built
//!    and reports the others.
//!
//! Nothing is kept from one scan to the next, and nothing is tried twice: a
//! device that goes away between the listing and the read is a failure like
//! any other, [`error::ScanError::AttributeReadFailure`].
//!
//! The modules [`text`], [`number`] and [`path`] hold what the scan is built
//! from: trimming, reading an integer, and taking a path apart. The module
//! [`laws`] states what holds of every scan.

pub mod attribute;
pub mod device;
pub mod error;
pub mod laws;
pub mod loader;
pub mod number;
pub mod path;
pub mod source;
pub mod text;
