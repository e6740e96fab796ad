//! Verified core of the NRSC5 Studio play log and spectrum waterfall.

pub mod clock;
pub mod dsp;
pub mod local_time;
pub mod play_log;
pub mod text;
