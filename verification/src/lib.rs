//! A fixed-point note engine for a finger-tracked instrument.
//!
//! A tracker reports where the fingers of a hand are. Each finger is a key: a
//! finger that is pressed down holds a voice, a finger that is lifted lets its
//! voice die away, and a finger that moves sideways bends the pitch of its voice.
//!
//! Every quantity is an integer in a fixed unit, so that rendering is exact and
//! repeatable: the amplitudes of generators in millionths of full scale, volumes
//! and outputs in hundred-millionths, oscillator frequencies in millihertz, tip
//! positions in thousandths of a device unit.
//!
//! - `units`: the units, and the arithmetic on them
//! - `shape`: the waveforms
//! - `wave`, `sample`, `playback`: the generators and the triggers made of them
//! - `note`: a voice and its envelope
//! - `frame`: a tracker's snapshot, and what it says of each finger
//! - `state`: the instrument maps and the pool of voices
//! - `control`: the control channel, and the player that fills the host's buffers
//! - `pool_laws`: what holds of the pool whatever is played

pub mod units;
pub mod shape;
pub mod wave;
pub mod sample;
pub mod playback;
pub mod frame;
pub mod note;
pub mod notefreq;
pub mod state;
pub mod control;
pub mod pool_laws;
