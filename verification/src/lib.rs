//! Core of a small polyphonic synthesizer: the per-voice ADSR envelope state
//! machine and the voice lifecycle registry.
//!
//! Envelope gains are held as exact rationals (`Gain`), so every per-sample
//! amplitude multiplier is computed and reasoned about precisely; turning a
//! gain into a floating-point factor, producing raw waveforms and talking to
//! the audio device are left to the surrounding application.

pub mod adsr_source;
pub mod note;
pub mod synth;
