//! Message passing between workers, with runtimes that deliver mail one
//! letter at a time until none is left.
pub mod schedule;
pub mod mail;
pub mod mailbox;
pub mod envelope;
pub mod worker;
pub mod runtime;
pub mod home;
pub mod v2;
pub mod gen;
