//! A polyphonic synthesis engine in fixed-point arithmetic.
//!
//! Every held key sounds as one voice: an attack-decay-sustain-release
//! envelope and a bank of slightly detuned oscillators. The registry mixes
//! the voices, and the render source hands the mix out block by block.
//!
//! All quantities are integers. Amplitudes and samples are counted in
//! millionths of full scale, frequencies in millihertz, and envelope time in
//! milliseconds.

pub mod adsr;
pub mod clock;
pub mod detune;
pub mod detune_slider;
pub mod envelope;
pub mod key_mapping;
pub mod level;
pub mod mixing;
pub mod oscillator;
pub mod pitch;
pub mod synth;
pub mod synth_source;
pub mod waveform;

pub use detune_slider::Slider;
pub use synth::Synth;
pub use synth_source::SynthSource;
