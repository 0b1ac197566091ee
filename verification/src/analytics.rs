//! Opt-in local battery step analytics (charge / play duration estimates).
//!
//! Learns per bucket edge (last three durations). Interruptions clear only the in-progress
//! bucket timer; committed steps survive. Remaining-time estimates can speculate from a
//! single qualifying step (the half bucket between 100 and 95 is no rate source) and
//! interpolate within the current bucket using accrued active time. Display labels floor
//! to duration-tier breakpoints.
pub mod averages;
pub mod estimate;
pub mod learning;
pub mod showing;
pub mod store;
