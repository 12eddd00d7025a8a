//! The decisions of a Lightning node that speaks to its operator over a console.
//!
//! Everything here is a plain function of plain values: what a typed line asks for, what the
//! node answers to a chain of network events, what its payment records hold and how they are
//! written down. The program around the library performs the input and output.

pub mod actions;
pub mod answer_laws;
pub mod commands;
pub mod console;
pub mod console_laws;
pub mod credentials;
pub mod event_laws;
pub mod events;
pub mod gossip_stats;
pub mod hex;
pub mod ldk;
pub mod line_laws;
pub mod network;
pub mod notice_laws;
pub mod offline;
pub mod payment_table;
pub mod payments;
pub mod peer_laws;
pub mod peers;
pub mod refusal_laws;
pub mod report_laws;
pub mod reports;
pub mod signing;
pub mod startup;
pub mod startup_laws;
pub mod storage_laws;
pub mod text;
pub mod text_laws;
pub mod wire;
