//! Enumeration of the IPv4 hosts of a CIDR block, and a TCP connect scan
//! over them with a bounded pool of workers.
//!
//! The crate does no network I/O of its own: the connect attempt is handed
//! in as a function, and so is the consumer of the outcomes. What the crate
//! decides is which hosts a range denotes, which tasks a scan is made of,
//! how the end of an attempt is classified, and that every task ends in
//! exactly one outcome.
//!
//! The crate is split by concern:
//!
//! * [`address`] holds the 32-bit address value and its dotted-quad text;
//! * [`text`] reads decimal fields out of a byte string;
//! * [`range`] turns `A.B.C.D/N` into the ordered list of hosts it denotes;
//! * [`probe`] classifies one connect attempt and walks the ports of one host;
//! * [`pool`] spreads the hosts over a bounded pool of workers;
//! * [`config`] holds the settings of one scan.

pub mod address;
pub mod config;
pub mod pool;
pub mod probe;
pub mod range;
pub mod text;
