//! Reads FMOD `.bank` files: the RIFF container, the FSB5 sample bank inside it
//! and the PCM samples that the bank holds.

pub mod bank_laws;
pub mod benchmark;
pub mod bytes;
pub mod decoder;
pub mod encoding;
pub mod extract;
pub mod file_laws;
pub mod fsb5;
pub mod reading_laws;
pub mod riff;
pub mod run;
pub mod sample_laws;
pub mod session;
pub mod text;
pub mod view_laws;
pub mod wav;
