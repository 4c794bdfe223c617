//! The verified core of a piano spectrum visualiser: microphone audio is
//! analysed, mapped onto the 88 keys of a piano and shown as one lamp per
//! key, on a terminal or on an LED strip.
//!
//! This crate holds the parts of that pipeline that work on integers and
//! bytes, each with a contract that Verus proves:
//!
//! - [`ring`]: the bounded buffer of the most recent samples, shared by the
//!   capture callback and the analysis loop;
//! - [`piano`]: key numbers, key colours, and the slot of a rounded pitch;
//! - [`watchdog`]: the liveness protocol of the audio source;
//! - [`control`]: what a line on the control channel leads to, and the exit
//!   code of every way to stop;
//! - [`leds`] and [`terminal`]: the two render targets, from one colour per
//!   key to LED colours and to terminal bytes;
//! - [`display`]: the colour type they share.
//!
//! The arithmetic on amplitudes, frequencies and intensities (windowing,
//! the Fourier transform, the pitch of a frequency, the peak envelope, the
//! colour space) is done in floating point by the program around this
//! crate, as are all devices and threads.
pub mod control;
pub mod display;
pub mod leds;
pub mod piano;
pub mod ring;
pub mod terminal;
pub mod watchdog;
