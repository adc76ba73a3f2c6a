//! Verified core of a CalDAV / ICS synchronisation engine.
//!
//! The library covers the logic of the engine: interpreting WebDAV
//! multistatus responses, extracting and recombining VEVENT blocks from
//! iCalendar text, planning reverse-sync uploads, and the retry and
//! scheduling decisions of the per-resource sync loops. Network and
//! storage work is left to the surrounding application, which hands the
//! library plain values and carries out the actions it decides on.

pub mod auth;
pub mod config;
pub mod ics;
pub mod numeric;
pub mod reverse;
pub mod sched;
pub mod sync;
pub mod text;
pub mod urls;
pub mod xml;
