//! Roman timekeeping: the hour of the day counted in twelve daylight and
//! twelve night hours from sunrise, the date counted back from the Kalends,
//! Nones and Ides, and the year counted by the reign of a country's head of
//! government.

pub mod calendar;
pub mod reign;
pub mod roman;
pub mod rulers;
pub mod terms;
pub mod text;

pub use calendar::{LocalDateTime, MAX_YEAR, MIN_YEAR};
pub use reign::find_reign;
pub use roman::{RomanTime, RomanTimeModel};
pub use rulers::{get_owners_for_country, YearOwner};
pub use terms::{year_owners, OfficeStart};
