//! Telemetry of a Bluetooth fitness bike, without the Bluetooth.
//!
//! The library holds what there is to decide and to compute when a program
//! follows one bike: which peripheral is the bike ([`locator`]), what a
//! notification says ([`packet`]), how readings add up to a workout
//! ([`workout`]), and what to ask of the transport next ([`session`]).
//! [`run`] and [`scan`] state what holds of whole runs of a session.
//!
//! All quantities are exact integers in small fixed units; the program
//! around the library talks to the transport, reads the clock and draws
//! the screen.

pub mod locator;
pub mod packet;
pub mod run;
pub mod scan;
pub mod session;
pub mod workout;
