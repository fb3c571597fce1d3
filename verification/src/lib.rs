//! Dynamic-DNS reconciliation: keeps a list of hostnames pointed at the
//! machine's current public IPv4 address.
//!
//! A run first sets up its desired hosts ([`zones`], [`hostname`]). Each pass
//! then resolves the address, lists the records of the zones involved, plans
//! the create and update calls ([`reconcile`]) and carries them out one by
//! one ([`pass`]), collecting a log on the way ([`changelog`]).

pub mod changelog;
pub mod config;
pub mod convergence;
pub mod hostname;
pub mod hosts;
pub mod ipv4;
pub mod pass;
pub mod policy;
pub mod reconcile;
pub mod records;
pub mod text;
pub mod zones;

pub use changelog::MuxWriter;
