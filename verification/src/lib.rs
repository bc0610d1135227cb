//! A small file-drop store: uploads are kept under a server-chosen identifier
//! beside a sidecar record of the declared file name and content type, and are
//! handed back with download headers rebuilt from that record.

pub mod codec;
pub mod download;
pub mod layout;
pub mod name;
pub mod respond;
pub mod space;
pub mod text;
pub mod upload;
