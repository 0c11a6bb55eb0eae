//! The decisions of a multicast DNS reflector, verified.
//!
//! A multicast DNS reflector listens for multicast DNS packets and repeats each of
//! them to every interface it was given, except those on the network that the packet
//! came from.
//!
//! The program around this library does the work on sockets, files and processes. The
//! library says what is to be done: what the command line means ([`cli`], [`syntax`]),
//! how the program starts and ends ([`tasks`], [`daemon`], [`pidfile`]), how its sockets
//! are set up ([`sockets`], [`unix`]), and where each packet goes ([`reflector`]).

pub mod address;
pub mod cli;
pub mod daemon;
pub mod decimal;
pub mod matcher;
pub mod pidfile;
pub mod reflector;
pub mod sockets;
pub mod syntax;
pub mod tasks;
pub mod unix;
