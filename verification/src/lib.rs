//! A CHIP-8 virtual machine.
//!
//! A program image is loaded into memory above the glyphs of the built-in
//! font. Sixty times a second the host runs one frame: the machine
//! executes as many instructions as its clock rate allows, then its two
//! timers tick. Instructions draw sprites onto a 64 by 32 display by
//! inverting pixels, read a keypad of sixteen keys and set a sound timer
//! from which the host learns how many audio samples to play.
//!
//! Where interpreters of this instruction set have differed, this one
//! resets the flag register after a logical operation, shifts the value of
//! `Vy` into `Vx`, and clips a sprite at the right and bottom edges of the
//! display while wrapping its origin.
//!
//! - [`machine`] is the mathematical model: the state and what every
//!   instruction and every frame does to it.
//! - [`chip8`] is the executable machine, described by that model.
//! - [`instruction`], [`display`], [`stack`], [`timing`] and [`fault`] are its parts.
//! - [`laws`] states what holds of the model for every program.
//! - [`config`] and [`text`] read the emulator's command line.
//! - [`host`] holds what the program around the machine decides, and
//!   [`sound`] the tone that it plays.
//! - [`random`] wraps the random number generator.

pub mod chip8;
pub mod config;
pub mod display;
pub mod fault;
pub mod host;
pub mod instruction;
pub mod laws;
pub mod machine;
pub mod random;
pub mod sound;
pub mod stack;
pub mod text;
pub mod timing;
