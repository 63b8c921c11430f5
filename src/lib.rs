//! Time tracking: work sessions per person, hours worked and monthly totals.
pub mod data;
pub mod frame;
pub mod hours;
pub mod mode;
pub mod period;
pub mod record;
pub mod text;
pub mod timestamp;

pub use data::{HoursData, Names};
pub use frame::HoursDataFrame;
pub use hours::Hours;
pub use mode::Mode;
pub use period::Period;
pub use record::{Field, HoursError, HoursRecord, Schema};
pub use timestamp::Timestamp;
