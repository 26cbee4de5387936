//! A piano tone from a digital waveguide model.
//!
//! A struck string is modelled as waves that travel along delay lines, pass the
//! filters that stand for the string's stiffness and loss, and scatter where
//! the string meets the hammer and the soundboard. This crate holds the whole
//! of that model: the sample history, the filter, the filter designs, the
//! waveguide network, the hammer and the note that owns them.
//!
//! Everything is written for an abstract sample type (see [`sample`]) and is
//! proved against the contracts that stand at each function. The contracts
//! state each result in the sample type's own arithmetic.

pub mod analysis;
pub mod delay_line;
pub mod dwgs;
pub mod filter;
pub mod hammer;
pub mod loss;
pub mod math;
pub mod piano;
pub mod residue;
pub mod ring_buffer;
pub mod sample;
pub mod soundboard;
pub mod thirian;
pub mod tuning;
