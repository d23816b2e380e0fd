//! Timezone transition reporting: given the transition tables of a parsed
//! TZif timezone database entry, select the transitions that fall within a
//! calendar year and resolve the offset, abbreviation and DST window in
//! force at an instant.

pub mod calendar;
pub mod resolve;
pub mod select;
pub mod zone;

pub use calendar::{MAX_YEAR, MIN_YEAR};
pub use resolve::{resolve, worldtime, Tzdata};
pub use select::{get, select, Timechange};
pub use zone::{TypeRecord, ZoneData};
