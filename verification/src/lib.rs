//! The deciding core of a fault-tolerant actor runtime, with its proofs.
//!
//! The runtime multiplexes lightweight processes onto worker threads and
//! arranges them in a tree of supervisors that restarts what fails. This
//! crate holds what the runtime decides: how paths are built, where an
//! envelope goes, what a system, a supervisor, a children group and a
//! child do when something arrives or something ends, how often and after
//! what wait a child is restarted, which worker takes which process.
//! Every element is a state machine: it is handed what happened and
//! answers with what is to be done. The threads, the channels and the
//! clock belong to whoever drives the machines.
//!
//! - [`id`], [`path`]: identifiers and addresses.
//! - [`message`], [`envelope`], [`handler`], [`context`]: what is sent,
//!   how it is signed, and how a child looks at what it gets.
//! - [`broadcast`], [`mailbox`]: the sending and the receiving halves of
//!   mailboxes.
//! - [`system`], [`supervisor`], [`children`], [`child`], [`restart`]:
//!   the supervision tree.
//! - [`child_ref`], [`children_ref`], [`dispatcher`], [`distributor`],
//!   [`quip`]: the references and entry points a program uses.
//! - [`lightproc`], [`run_queue`], [`load_balancer`]: processes, queues
//!   and workers.
//! - [`config`], [`errors`]: configuration and errors.
//! - [`scaffold`], [`graph`], [`nested_integer`]: the tools that come
//!   with the runtime for keeping solutions to programming problems.
//! - [`table`], [`text`]: tables keyed by identifiers, and text.

pub mod broadcast;
pub mod child;
pub mod child_ref;
pub mod children;
pub mod children_ref;
pub mod config;
pub mod context;
pub mod dispatcher;
pub mod distributor;
pub mod envelope;
pub mod errors;
pub mod graph;
pub mod handler;
pub mod id;
pub mod lightproc;
pub mod load_balancer;
pub mod mailbox;
pub mod message;
pub mod nested_integer;
pub mod path;
pub mod quip;
pub mod restart;
pub mod run_queue;
pub mod scaffold;
pub mod supervisor;
pub mod system;
pub mod table;
pub mod text;
