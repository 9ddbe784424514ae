//! A verified core for a simulated network censor: protocol decoding from
//! Ethernet through TCP/UDP, flow identity and per-flow state, an allow/block
//! list discipline, a register-machine policy interpreter with its optimizer,
//! reset crafting, and a deadline-ordered delay queue.

pub mod action;
pub mod arp;
pub mod bytes;
pub mod censor;
pub mod decode;
pub mod encode;
pub mod ipc;
pub mod lists;
pub mod model;
pub mod nfq;
pub mod packet;
pub mod pcap;
pub mod program;
pub mod text;
pub mod transport;
pub mod watermark;
