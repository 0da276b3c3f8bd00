//! The names most programs want in scope: the value types, the period
//! tags, and the conversion traits.

pub use crate::clock::{
    Clock, ClockTimeConversion, Monotonic, SteadyClock, SystemClock, TrivialClock,
};
pub use crate::duration::{
    Duration, DurationCast, DurationInto, DurationTryInto, DurationValues, IsDuration,
    Days, Hours, Microseconds, Miliseconds, Minutes, Months, Nanoseconds, RangeError, Seconds,
    TreatAsFloatingPoint, Weeks, Years,
};
pub use crate::ratio::{
    Day, Giga, Hour, Kilo, Mega, Micro, Mili, Minute, Month, Nano, Period, Pico, Ratio,
    RatioDivide, RatioMultiply, Reciprocal, Tera, Unit, Week, Year,
};
pub use crate::time_point::{time_point_cast, TimePoint};
