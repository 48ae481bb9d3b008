//! A builder-style front end that prepares PCM audio for a lossless codec.
//!
//! The crate holds everything that can be decided without the codec itself:
//! the two input layouts and their validation, the bit depths and the
//! quantization of normalized samples to them, the tag list, the growable
//! output buffer that the codec writes into, and the exact order of codec
//! calls of one encode, as a state machine that a driver steps through.
//!
//! The driver is not part of the crate. It starts a [`Session`] with
//! [`FlacBuilder::build`], makes the call that [`Session::pending`] names,
//! reports the codec's answer with [`Session::advance`], and goes on until
//! no call is due; [`Session::outcome`] then says how the encode ended.

pub mod block;
pub mod builder;
pub mod error;
pub mod ieee;
pub mod input;
pub mod level;
pub mod plan;
pub mod rounding;
pub mod sample;
pub mod session;
pub mod sink;
pub mod tags;

pub use builder::{FlacBuilder, Settings};
pub use error::{EncoderError, Failure};
pub use ieee::{Double, Single};
pub use input::InputData;
pub use level::BpsLevel;
pub use plan::{CodecCall, BLOCK_FRAMES};
pub use sample::IntoSample;
pub use session::{Course, Phase, Session};
pub use sink::BufferSink;
