//! Renders a pre-encoded Morse message (a string over `.`, `-`, ` ` and `/`)
//! as a timed on/off waveform on a digital output, through a narrow port
//! abstraction that hardware or an in-memory recorder can stand behind.

pub mod events;
pub mod port;
pub mod transmit;
