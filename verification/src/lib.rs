//! Verified core of a multi-channel signal-capture pipeline.
//!
//! The library models the data path of a capture device: a fixed-size block
//! arena shared by all capture sources, per-channel double-buffered capture
//! state machines, a bounded hand-off queue of reports, a self-delimiting
//! framing codec, a byte ring drained towards a serial transport, a global
//! fuse that gates new capture work, a debounced control input, and a set of
//! profiling counters.  Everything here is plain state-machine and byte-level
//! logic; the hardware itself (DMA engines, USB endpoints, the free-running
//! timer) lives outside and hands the library plain values.

pub mod arena;
pub mod behaviors;
pub mod channel;
pub mod debounce;
pub mod drain;
pub mod encoder;
pub mod engine;
pub mod framing;
pub mod fuse;
pub mod patterns;
pub mod profiler;
pub mod queue;
pub mod record;
pub mod ring;
pub mod timer;
