//! Verified core of a small file-sharing web server: the choice of the
//! serving mode, the interactive choice of the address to announce, the
//! pages it serves and the place where uploads are stored.

pub mod address;
pub mod basic;
pub mod decimal;
pub mod listing;
pub mod mode;
pub mod server;
pub mod socket;
pub mod template;
pub mod text;
pub mod upload;
