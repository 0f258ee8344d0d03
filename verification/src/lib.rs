//! Time keeping, display planning and network decisions of a Wi-Fi wall clock.

pub mod calendar;
pub mod civil;
pub mod clock;
pub mod face;
pub mod link;
pub mod net;
pub mod ntp_stamp;
pub mod ssid;
