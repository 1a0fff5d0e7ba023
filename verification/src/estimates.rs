pub mod participant;
pub mod session;
pub mod vote;
