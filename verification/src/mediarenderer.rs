//! This machine as a UPnP AV MediaRenderer: what it tells the network of
//! itself, and how it answers the control points that push media at it.

pub mod control;
pub mod declared;
pub mod desc;
pub mod echo;
pub mod gena;
pub mod http;
pub mod soap;
pub mod ssdp;
pub mod xml;
