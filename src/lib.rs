//! Resolves the next observance of the Western liturgical calendar for a
//! given date, with its display text and liturgical colour.
pub mod broadcast;
pub mod calendar;
pub mod civil;
pub mod ordinal;

pub use calendar::{has_next_church_date, next_church_date, ChurchDateResult, Color};
pub use civil::CalendarDate;
pub use ordinal::{date_ordinal, OrdinalLength};
