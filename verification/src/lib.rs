//! The logic of a window warper: captured frames, the window they are shown in, and the
//! H.264 transport stream that carries them over the network.

pub mod bytes;
pub mod capture;
pub mod cli;
pub mod encoder;
pub mod mpegts;
pub mod nv12;
pub mod preview;
pub mod renderer;
pub mod session;
pub mod stream;
pub mod text;
pub mod window;
