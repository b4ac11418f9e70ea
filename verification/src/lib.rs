//! Robust wall-clock consensus from a panel of time-reference servers.
//!
//! A caller queries each configured peer for the current time (network I/O,
//! outside this library), collects one outcome per peer into an outcome set,
//! and hands the set to the consensus estimator, which derives a single
//! trustworthy timestamp via a two-pass trimmed median: a first-pass median
//! over all successful samples serves as a pivot, samples farther than a fixed
//! cutoff from that pivot are discarded, and the median of the survivors is
//! the answer - provided enough samples survive to form a quorum.

pub mod consensus;
pub mod median;
