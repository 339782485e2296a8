//! A guestlist for a wedding: who is invited, who belongs to which party, and
//! what each guest has replied.
//!
//! The crate holds the store and its rules. Guests are found by the name they
//! type, whatever its capitals and surrounding blanks, and are then known by an
//! identifier that is theirs for as long as the store lives. Guests who were
//! invited together form a group, and any one of a group may read and answer
//! for the others.

pub mod db;
pub mod srv;
pub mod user;
