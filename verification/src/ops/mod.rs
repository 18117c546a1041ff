//! The operators that come with the engine.

pub mod audio_send;
pub mod proxy;
pub mod sin;

pub use audio_send::AudioSend;
pub use proxy::OutProxy;
pub use sin::Sin;
