//! Per-conversation Markov text models behind an idle-evicting cache.
//!
//! Every conversation has a model of its own, which learns the lines that
//! are said in it and makes up new ones. `chain_wrapper` keeps the models of
//! the conversations in use, at most one for each; `chain_info` is one such
//! entry, `model` the chain inside it and `record` its stored form. `text`
//! cuts a message into the lines that are learned. `backoff` decides how an
//! operation on the store is retried, `drive` which file of the store a
//! conversation lives in, `credentials` reads the store's credentials, and
//! `front` holds what the chat front end decides.
//!
//! The library does no input or output. Whatever comes from the store, the
//! clock or the messenger is handed in, and whatever is to be stored or
//! deleted is handed out.

pub mod backoff;
pub mod chain_info;
pub mod chain_wrapper;
pub mod credentials;
pub mod drive;
pub mod front;
pub mod model;
pub mod record;
pub mod text;
