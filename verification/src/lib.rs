//! Theatre listings: turning a venue's listing page into show records.
//!
//! `date` reads the free-text dates of a listing ("25 December",
//! "3rd September - 10th September"), `listing` walks the children of the
//! production list and carries the year heading in effect, and `page` holds
//! the calls into the HTML library. `text` has the character scanning that
//! the parsers share.

pub mod text;
pub mod date;
pub mod page;
pub mod listing;
