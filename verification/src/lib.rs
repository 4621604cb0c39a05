//! Git identities that follow the working directory.
//!
//! A store keeps identities (name, email and, for some, a signing key)
//! under keys. An identity is put in effect by key, user-wide or in one
//! repository, or by the marker file `.gswitch`, which names the key for
//! the directory that holds it and for everything below, up to the top of
//! the repository and no further.
//!
//! The library does no input or output of its own. An operation that needs
//! the outside world takes the answers that its host has given so far and
//! returns either the next thing to do or its result; the host does what is
//! asked, appends the answer and calls again. What the operation returns is
//! a function of its arguments and of those answers, and that function is
//! what each contract states.

pub mod config;
pub mod dotfile;
pub mod error;
pub mod git;
pub mod host;
pub mod laws;
pub mod model;
pub mod path;
pub mod policy;
pub mod shell;
pub mod text;
