//! Name records for peer discovery: where a node is reached, how records are written to and read
//! from RLP, and how a node vouches for its record with a signature.
//!
//! - [`rlp`] says what the wire format is, [`codec`] holds the calls into `alloy_rlp`.
//! - [`encoding`] holds the traits for values that are written and read, and lists of them.
//! - [`port`], [`record`] and [`signed`] are the records, from the inside out.
//! - [`discovery`] is what peer discovery algorithms and their surroundings exchange.
//! - [`laws`] states what holds across these, such as that records are read back as written.
//! - [`format_laws`] and [`refusal_laws`] state the wire format and the reasons for refusing an
//!   input byte by byte; [`writing_laws`], [`reading_laws`] and [`signing_laws`] state what each
//!   operation does with what it is given.
pub mod addr;
pub mod codec;
pub mod discovery;
pub mod encoding;
pub mod error;
pub mod format_laws;
pub mod laws;
pub mod port;
pub mod reading_laws;
pub mod record;
pub mod refusal_laws;
pub mod rlp;
pub mod signed;
pub mod signing_domain;
pub mod signing_laws;
pub mod writing_laws;

pub use addr::{Ipv4Addr, SocketAddrV4};
pub use discovery::{
    Epoch, PeerDiscoveryAlgo, PeerDiscoveryAlgoBuilder, PeerDiscoveryCommand, PeerDiscoveryEvent,
    PeerDiscoveryMetricsCommand, PeerDiscoveryTimerCommand, Round, TimerKind,
};
pub use encoding::{Decodable, Encodable};
pub use error::{DecodeError, RlpError};
pub use port::{Port, PortTag};
pub use record::{Capability, NameRecord, WireNameRecord};
pub use signed::{CertificateSignatureRecoverable, MonadNameRecord, NodeId, SigningDomain};
