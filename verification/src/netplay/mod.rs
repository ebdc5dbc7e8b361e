//! Rollback netplay: the rules of an online session, of a spectator and of a simulated link.
//! Transport, matchmaking and the rollback engine itself belong to the host.

pub mod checksums;
pub mod link;
pub mod session;
pub mod spectator;
