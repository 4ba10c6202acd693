//! HyperLink protocol library: wire framing, message codecs, pairing helpers
//! and the decision logic of the host, companion and bench tools.

pub mod bench;
pub mod clock;
pub mod companion;
pub mod config;
pub mod crypto;
pub mod discovery;
pub mod echo;
pub mod message;
pub mod metrics;
pub mod pairing;
pub mod pipeline;
pub mod reassembly;
pub mod version;
pub mod video;
pub mod wire;
