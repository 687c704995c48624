//! Live audio stations over a publish/subscribe transport: the frame wire
//! format, the paced encoder's frame assembly, the clock track, the catch-up
//! of a late subscriber and the fan-out of decoded audio to listeners.
pub mod wire;
pub mod catchup;
pub mod pacing;
pub mod relay;
