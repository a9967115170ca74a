pub mod audio_model;
pub mod clock;
pub mod mixer;
pub mod oscillator;
pub mod output;
pub mod queue;
pub mod sequencer;
