//! A covert file-transfer protocol tunneled through DNS query/answer
//! exchanges: requests are encoded into DNS query names, responses into DNS
//! answer record data, and a sender and a receiver state machine drive a
//! chunked, acknowledged file transfer over them.

pub mod client;
pub mod decode;
pub mod digits;
pub mod encode;
pub mod dns;
pub mod labels;
pub mod message;
pub mod server;
