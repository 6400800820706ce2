//! The core of `marv`, a previewer for markdown files: a file is rendered
//! as a page, served by a small background server, and reloaded in the
//! browser whenever it changes on disk.
//!
//! Everything in this crate is decided without touching the outside world.
//! Files, processes, sockets and timers belong to the caller: the crate
//! says which file to read, which command to run, which port to try, and
//! what to make of the outcome.
//!
//! - [`registry`] keeps track of running servers, one record per watched
//!   file, named by the [`fingerprint`] of its path.
//! - [`ports`] scans the port range for a free port.
//! - [`process`] knows the commands that probe, terminate and launch a
//!   server and open the browser.
//! - [`start`], [`stop`] and [`kill_all`] are the state machines behind the
//!   three commands; [`launcher`] holds the events they are fed.
//! - [`channel`] is the single slot that carries the latest content from
//!   the [`watcher`] to the pages;
//!   [`connection`] decides when a page is told to reload.
//! - [`server`] sets server mode up and puts the reload script into the
//!   page; [`renderer`] makes the content of the page.
//! - [`cli`] picks the command; [`text`] and [`decimal`] are the string
//!   handling that the rest is built on.

pub mod channel;
pub mod cli;
pub mod connection;
pub mod decimal;
pub mod fingerprint;
pub mod kill_all;
pub mod launcher;
pub mod ports;
pub mod process;
pub mod registry;
pub mod renderer;
pub mod server;
pub mod start;
pub mod stop;
pub mod text;
pub mod watcher;
