//! A verified core for a git identity switcher.
//!
//! A developer keeps several git identities (username and email) under short
//! aliases in a JSON file in the home directory and switches the global
//! `user.name` / `user.email` between them.  This crate holds the verified
//! logic of that tool: the profile collection and its uniqueness rules, the
//! JSON encoding of the stored file, input validation, and the decisions of
//! every operation (add, delete, switch, list, current).  Reading and writing
//! the file, running the `git` binary and the interactive prompts live in the
//! surrounding program, which hands this crate plain values.

pub mod decode;
pub mod encode;
pub mod error;
pub mod git;
pub mod identity;
pub mod json;
pub mod laws;
pub mod profile;
pub mod storage;
pub mod text;
pub mod validation;
