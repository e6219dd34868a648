//! Hourly availability of a bookable facility: opening hours minus
//! reservations, merged into contiguous ranges, and the ranges that are new
//! since the last stored snapshot.

pub mod text;
pub mod calendar;
pub mod instant;
pub mod timeslot;
pub mod availability;
pub mod differ;
pub mod snapshot;
pub mod source;
pub mod notice;
pub mod cycle;
pub mod guarantees;
