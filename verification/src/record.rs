//! The persisted form of a conversation: one `bincode` record.

use crate::text::views;
use vstd::prelude::*;

verus! {

/// What `bincode::deserialize` reads from `bytes` as a record of the lines a
/// conversation has learned, its id, its learning flag and the time of its
/// last use; `None` where it reports an error.
pub uninterp spec fn record_read(bytes: Seq<u8>) -> Option<(Seq<Seq<char>>, i64, bool, u64)>;

/// What `bincode::serialize` writes for a record of the lines a conversation
/// has learned, its id, its learning flag and the time of its last use.
pub uninterp spec fn record_written(
    lines: Seq<Seq<char>>,
    chat_id: i64,
    is_learning: bool,
    last_accessed: u64,
) -> Seq<u8>;

/// `bincode::serialize` on a record. Into memory and without a size limit it
/// reports no error for a tuple of strings, integers and a flag, and what it
/// writes `bincode::deserialize` reads back unchanged.
#[verifier::external_body]
pub(crate) fn encode_record(
    lines: &Vec<String>,
    chat_id: i64,
    is_learning: bool,
    last_accessed: u64,
) -> (bytes: Vec<u8>)
    ensures
        bytes@ == record_written(views(lines@), chat_id, is_learning, last_accessed),
        record_read(bytes@) == Some((views(lines@), chat_id, is_learning, last_accessed)),
{
    bincode::serialize(&(lines, chat_id, is_learning, last_accessed)).unwrap()
}

/// `bincode::deserialize` on a record; an error becomes `None`.
#[verifier::external_body]
pub(crate) fn decode_record(bytes: &Vec<u8>) -> (record: Option<(Vec<String>, i64, bool, u64)>)
    ensures
        match record {
            Some(r) => record_read(bytes@) == Some((views(r.0@), r.1, r.2, r.3)),
            None => record_read(bytes@) is None,
        },
{
    bincode::deserialize::<(Vec<String>, i64, bool, u64)>(bytes).ok()
}

} // verus!
