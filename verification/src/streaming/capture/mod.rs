//! Camera lists from the system's device reports, and capture tuning:
//! frame pacing, change detection, regions, cursor and
//! resolution tracking.

pub mod cameras;
pub mod screen;
