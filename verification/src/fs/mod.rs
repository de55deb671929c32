//! The file service: its wire format, the block-device adapter under the
//! file-system backends, and the table of bound clients.
pub mod proto;
pub mod blockdev;
pub mod clients;
