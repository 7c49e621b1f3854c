//! Listing and downloading the contents of Seafile share links: classifying
//! share URLs, normalising remote directory records, ordering a traversal of
//! the remote tree, and deciding how each file transfer proceeds.

pub mod share_link;
pub mod entry;
pub mod traversal;
pub mod transfer;
pub mod page;
