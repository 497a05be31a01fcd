//! Recovery of CBC-encrypted messages through a padding oracle.
//!
//! The library holds the decision logic of the attack: the adaptive ordering
//! of candidate bytes, the per-block search as a step function driven by the
//! oracle's answers, the partition of a ciphertext into per-block jobs, the
//! framing of oracle requests and replies, and the parsing of its inputs.

pub mod prio;
pub mod msg;
pub mod hexfmt;
pub mod oracle;
pub mod crypt;
pub mod cli;
pub mod ui;
