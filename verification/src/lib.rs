//! A unit-safe duration and time-point algebra.
//!
//! Durations carry a compile-time `Period` tag (a rational number of seconds
//! per tick); the type system forbids mixing two durations of different
//! periods, while conversion between periods happens only through an
//! explicit, checked cast.

pub mod clock;
pub mod duration;
pub mod prelude;
pub mod ratio;
pub mod time_point;

pub use crate::clock::{Clock, Monotonic, SteadyClock, SystemClock, TrivialClock};
pub use crate::duration::{Duration, DurationCast, TreatAsFloatingPoint};
pub use crate::ratio::{
    Giga, Kilo, Mega, Micro, Mili, Nano, Period, Pico, Ratio, RatioDivide, RatioMultiply,
    Reciprocal, Tera, Unit,
};
pub use crate::time_point::TimePoint;
