//! Image-to-schedule compiler: turns a quantized image (a grid of palette
//! indices) into a batch of time-scheduled reservation records, serialized
//! as a nested wire-format document for a booking-calendar importer.
//!
//! Each grid column maps to one calendar day and each grid row to one
//! fixed-length time slot within that day, so painting the generated
//! reservations in a calendar view reproduces the image as a mosaic.

pub mod config;
pub mod errors;
pub mod palette;
pub mod reservation_converter;
pub mod strutil;
pub mod timestamp;
