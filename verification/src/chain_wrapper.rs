//! The cache of conversations: at most one entry for each id, loaded when
//! the id is first met and evicted when it has lain idle.
//!
//! The cache never talks to the store. It says what to fetch, takes what was
//! fetched, and hands out what is to be stored or deleted.

use crate::chain_info::{
    learning_disabled, learning_enabled, lemma_messages_not_blank, loaded, no_phrases, ChainInfo,
    Conversation, Exhausted,
};
use crate::drive::{blob_key, decimal};
use crate::record::record_read;
use crate::text::blank;
use std::collections::HashMap;
use vstd::prelude::*;
use vstd::std_specs::iter::IteratorSpec;
use vstd::string::StringExecFns;

verus! {

broadcast use vstd::std_specs::hash::group_hash_axioms;

/// The reply to a command that could not be carried out.
pub open spec fn command_failed() -> Seq<char> {
    "[command failed, please try again later]"@
}

/// The reply to a command that cleared a conversation's data.
pub open spec fn database_cleared() -> Seq<char> {
    "[database cleared]"@
}

/// An entry last used at `last_accessed` is idle at `now` when more than
/// `max_idle` ticks have passed since.
pub open spec fn idle(last_accessed: u64, now: u64, max_idle: u64) -> bool {
    now - last_accessed > max_idle
}

/// The cache after the store's answer for `chat_id` came in: a resident
/// entry stays as it is, a failure of the store adds nothing.
pub open spec fn received(
    cache: Map<i64, Conversation>,
    chat_id: i64,
    fetched: Result<Option<Vec<u8>>, String>,
    now: u64,
) -> Map<i64, Conversation> {
    if cache.contains_key(chat_id) {
        cache
    } else {
        match loaded(chat_id, fetched, now) {
            Some((entry, _)) => cache.insert(chat_id, entry),
            None => cache,
        }
    }
}

/// The cache after `text` was offered to `chat_id`.
pub open spec fn fed(cache: Map<i64, Conversation>, chat_id: i64, text: Seq<char>, now: u64) -> Map<
    i64,
    Conversation,
> {
    if cache.contains_key(chat_id) {
        cache.insert(chat_id, cache[chat_id].fed(text, now))
    } else {
        cache
    }
}

/// The cache after `chat_id` was asked for a phrase.
pub open spec fn asked(cache: Map<i64, Conversation>, chat_id: i64, now: u64) -> Map<
    i64,
    Conversation,
> {
    if cache.contains_key(chat_id) {
        cache.insert(chat_id, cache[chat_id].touched(now))
    } else {
        cache
    }
}

/// The cache after learning was toggled for `chat_id`.
pub open spec fn toggled(cache: Map<i64, Conversation>, chat_id: i64, now: u64) -> Map<
    i64,
    Conversation,
> {
    if cache.contains_key(chat_id) {
        cache.insert(chat_id, cache[chat_id].toggled(now))
    } else {
        cache
    }
}

/// The reply to a request for a phrase, where the model has no say in it: a
/// conversation that is not resident could not be loaded, and one that has
/// learned nothing says so.
pub open spec fn fixed_reply(cache: Map<i64, Conversation>, chat_id: i64) -> Option<Seq<char>> {
    if !cache.contains_key(chat_id) {
        Some(command_failed())
    } else if cache[chat_id].is_empty() {
        Some(no_phrases())
    } else {
        None
    }
}

/// The cache after the idle entries were evicted at `now`.
pub open spec fn pruned(cache: Map<i64, Conversation>, now: u64, max_idle: u64) -> Map<
    i64,
    Conversation,
> {
    Map::new(
        |k: i64| cache.contains_key(k) && !idle(cache[k].last_accessed, now, max_idle),
        |k: i64| cache[k],
    )
}

/// Bytes to store for a conversation.
pub struct Blob {
    pub chat_id: i64,
    pub bytes: Vec<u8>,
}

impl Blob {
    /// The name under which the store keeps these bytes.
    pub fn key(&self) -> (key: String)
        ensures
            key@ == decimal(self.chat_id as int),
    {
        blob_key(self.chat_id)
    }
}

/// `blobs` persist exactly those of `leaving` that have learned something:
/// each of them once, with its own record, and nothing else.
pub open spec fn persists(blobs: Seq<Blob>, leaving: Map<i64, Conversation>) -> bool {
    &&& forall|j: int|
        0 <= j < blobs.len() ==> {
            let id = (#[trigger] blobs[j]).chat_id;
            &&& leaving.contains_key(id)
            &&& !leaving[id].is_empty()
            &&& blobs[j].bytes@ == leaving[id].bytes()
            &&& record_read(blobs[j].bytes@) == Some(leaving[id].record())
        }
    &&& forall|i: int, j: int|
        0 <= i < j < blobs.len() ==> (#[trigger] blobs[i]).chat_id != (#[trigger] blobs[j]).chat_id
    &&& forall|k: i64| #[trigger]
        leaving.contains_key(k) && !leaving[k].is_empty() ==> exists|j: int|
            0 <= j < blobs.len() && (#[trigger] blobs[j]).chat_id == k
}

/// The conversations that are resident, each under its id.
pub struct ChainWrapper {
    chains: HashMap<i64, ChainInfo>,
    max_idle: u64,
}

impl View for ChainWrapper {
    type V = Map<i64, Conversation>;

    closed spec fn view(&self) -> Map<i64, Conversation> {
        Map::new(|k: i64| self.chains@.contains_key(k), |k: i64| self.chains@[k]@)
    }
}

impl ChainWrapper {
    /// Every entry is sound and sits under its own id.
    pub closed spec fn wf(&self) -> bool {
        forall|k: i64| #[trigger]
            self.chains@.contains_key(k) ==> self.chains@[k].wf() && self.chains@[k]@.chat_id == k
    }

    /// How long an entry may lie idle before it is evicted.
    pub closed spec fn idle_limit(&self) -> u64 {
        self.max_idle
    }

    /// Each entry stands for a conversation with the id it sits under.
    pub proof fn lemma_ids(&self)
        requires
            self.wf(),
        ensures
            forall|k: i64| #[trigger] self@.contains_key(k) ==> self@[k].chat_id == k,
    {
    }

    /// An empty cache that evicts what has lain idle for more than `max_idle`
    /// ticks.
    pub fn new(max_idle: u64) -> (cache: ChainWrapper)
        ensures
            cache.wf(),
            cache@ == Map::<i64, Conversation>::empty(),
            cache.idle_limit() == max_idle,
    {
        let cache = ChainWrapper { chains: HashMap::new(), max_idle };
        proof {
            assert(cache@ =~= Map::<i64, Conversation>::empty());
        }
        cache
    }

    /// The reply to a command that could not be carried out.
    pub fn err_msg() -> (msg: String)
        ensures
            msg@ == command_failed(),
    {
        String::from_str("[command failed, please try again later]")
    }

    /// How long an entry may lie idle.
    pub fn max_idle(&self) -> (limit: u64)
        ensures
            limit == self.idle_limit(),
    {
        self.max_idle
    }

    /// Whether `chat_id` has an entry in memory. Where it has none, the
    /// store is to be asked for its bytes and the answer handed to `receive`.
    pub fn is_resident(&self, chat_id: i64) -> (resident: bool)
        ensures
            resident == self@.contains_key(chat_id),
    {
        self.chains.contains_key(&chat_id)
    }

    /// The name to ask the store for before anything is done for `chat_id`:
    /// that of its bytes where it is not resident, none where it is.
    pub fn fetch_key(&self, chat_id: i64) -> (key: Option<String>)
        ensures
            key is None <==> self@.contains_key(chat_id),
            key matches Some(name) ==> name@ == decimal(chat_id as int),
    {
        if self.chains.contains_key(&chat_id) {
            None
        } else {
            Some(blob_key(chat_id))
        }
    }

    /// How many conversations are resident.
    pub fn len(&self) -> (n: usize)
        ensures
            n == self@.dom().len(),
    {
        proof {
            assert(self@.dom() =~= self.chains@.dom());
        }
        self.chains.len()
    }

    /// Takes the store's answer for `chat_id`. Where the id is not resident
    /// and the store answered, the entry moves in: restored from the bytes, or
    /// fresh where there were none or they were corrupt; `Ok(true)` then asks
    /// for the corrupt bytes to be deleted. A failure of the store is handed
    /// back and leaves the id absent.
    pub fn receive(&mut self, chat_id: i64, fetched: Result<Option<Vec<u8>>, String>, now: u64) -> (res:
        Result<bool, String>)
        requires
            old(self).wf(),
        ensures
            final(self).wf(),
            final(self).idle_limit() == old(self).idle_limit(),
            final(self)@ == received(old(self)@, chat_id, fetched, now),
            old(self)@.contains_key(chat_id) ==> res == Ok::<bool, String>(false),
            !old(self)@.contains_key(chat_id) ==> match fetched {
                Err(e) => res == Err::<bool, String>(e),
                Ok(_) => res == Ok::<bool, String>(loaded(chat_id, fetched, now).unwrap().1),
            },
    {
        if self.chains.contains_key(&chat_id) {
            Ok(false)
        } else {
            match ChainInfo::new(chat_id, fetched, now) {
                Ok((entry, purge)) => {
                    self.chains.insert(chat_id, entry);
                    proof {
                        assert(self@ =~= old(self)@.insert(chat_id, entry@));
                    }
                    Ok(purge)
                },
                Err(e) => Err(e),
            }
        }
    }

    /// Offers `s` to the conversation `chat_id`. One that is not resident
    /// could not be loaded, and the text is dropped.
    pub fn feed(&mut self, chat_id: i64, s: &str, now: u64)
        requires
            old(self).wf(),
        ensures
            final(self).wf(),
            final(self).idle_limit() == old(self).idle_limit(),
            final(self)@ == fed(old(self)@, chat_id, s@, now),
    {
        match self.chains.remove(&chat_id) {
            Some(mut entry) => {
                entry.feed(s, now);
                self.chains.insert(chat_id, entry);
                proof {
                    assert(self@ =~= old(self)@.insert(chat_id, entry@));
                }
            },
            None => {
                proof {
                    assert(self.chains@ =~= old(self).chains@);
                }
            },
        }
    }

    /// The reply to a request for a phrase, given what the entry made of it:
    /// its phrase, or the message that the command failed where its model
    /// gave nothing but blank phrases.
    pub fn generate_report(outcome: Result<String, Exhausted>) -> (reply: String)
        ensures
            match outcome {
                Ok(phrase) => reply == phrase,
                Err(_) => reply@ == command_failed(),
            },
    {
        match outcome {
            Ok(phrase) => phrase,
            Err(_) => ChainWrapper::err_msg(),
        }
    }

    /// A phrase from the conversation `chat_id`. The reply is never blank:
    /// where the conversation is not resident, or its model gave nothing but
    /// blank phrases, it is the message that the command failed. A `token`
    /// that is not blank and that the conversation's model has met begins
    /// the reply.
    pub fn generate(&mut self, chat_id: i64, token: &str, now: u64) -> (reply: String)
        requires
            old(self).wf(),
        ensures
            final(self).wf(),
            final(self).idle_limit() == old(self).idle_limit(),
            final(self)@ == asked(old(self)@, chat_id, now),
            fixed_reply(old(self)@, chat_id) matches Some(text) ==> reply@ == text,
            old(self)@.contains_key(chat_id) && !blank(token@) && old(self)@[chat_id].knows(token@)
                ==> token@.is_prefix_of(reply@),
            !blank(reply@),
    {
        proof {
            lemma_messages_not_blank();
            lemma_reports_not_blank();
        }
        match self.chains.remove(&chat_id) {
            Some(mut entry) => {
                let res = entry.generate(token, now);
                self.chains.insert(chat_id, entry);
                proof {
                    assert(self@ =~= old(self)@.insert(chat_id, entry@));
                }
                ChainWrapper::generate_report(res)
            },
            None => {
                proof {
                    assert(self.chains@ =~= old(self).chains@);
                }
                ChainWrapper::err_msg()
            },
        }
    }

    /// Toggles learning for the conversation `chat_id` and says what it is
    /// now; for one that is not resident, that the command failed.
    pub fn toggle_learning(&mut self, chat_id: i64, now: u64) -> (reply: String)
        requires
            old(self).wf(),
        ensures
            final(self).wf(),
            final(self).idle_limit() == old(self).idle_limit(),
            final(self)@ == toggled(old(self)@, chat_id, now),
            reply@ == if !old(self)@.contains_key(chat_id) {
                command_failed()
            } else if old(self)@[chat_id].is_learning {
                learning_disabled()
            } else {
                learning_enabled()
            },
    {
        match self.chains.remove(&chat_id) {
            Some(mut entry) => {
                let reply = entry.toggle_learning(now);
                self.chains.insert(chat_id, entry);
                proof {
                    assert(self@ =~= old(self)@.insert(chat_id, entry@));
                }
                reply
            },
            None => {
                proof {
                    assert(self.chains@ =~= old(self).chains@);
                }
                ChainWrapper::err_msg()
            },
        }
    }

    /// Clears the conversation `chat_id` and drops it from memory without
    /// persisting it. `true` asks for its stored bytes to be deleted; for an
    /// id that is not resident nothing changes and nothing is asked.
    pub fn clear_data(&mut self, chat_id: i64, now: u64) -> (purge: bool)
        requires
            old(self).wf(),
        ensures
            final(self).wf(),
            final(self).idle_limit() == old(self).idle_limit(),
            final(self)@ == old(self)@.remove(chat_id),
            purge == old(self)@.contains_key(chat_id),
    {
        match self.chains.remove(&chat_id) {
            Some(mut entry) => {
                entry.clear_data(now);
                proof {
                    assert(self@ =~= old(self)@.remove(chat_id));
                }
                true
            },
            None => {
                proof {
                    assert(self.chains@ =~= old(self).chains@);
                    assert(self@ =~= old(self)@.remove(chat_id));
                }
                false
            },
        }
    }

    /// The reply to a command that cleared a conversation, given the error
    /// with which the deletion of its stored bytes failed, if it did.
    pub fn clear_report(failure: Option<String>) -> (reply: String)
        ensures
            reply@ == if failure is Some {
                command_failed()
            } else {
                database_cleared()
            },
    {
        match failure {
            Some(_) => ChainWrapper::err_msg(),
            None => String::from_str("[database cleared]"),
        }
    }

    /// Whether `elem` has lain idle for more than `max_idle` ticks at `now`.
    pub fn is_old(elem: &ChainInfo, now: u64, max_idle: u64) -> (old_enough: bool)
        ensures
            old_enough == idle(elem@.last_accessed, now, max_idle),
    {
        let last = elem.last_accessed();
        now > last && now - last > max_idle
    }

    /// The ids of the resident conversations, each once.
    fn resident_ids(&self) -> (ids: Vec<i64>)
        ensures
            ids@.no_duplicates(),
            forall|k: i64| ids@.contains(k) <==> self@.contains_key(k),
    {
        let mut ids: Vec<i64> = Vec::new();
        let ghost keys = self.chains.keys().remaining();
        for k in it: self.chains.keys()
            invariant
                it.seq() == keys,
                ids@ == keys.unref().take(it.index() as int),
        {
            ids.push(*k);
        }
        proof {
            assert(ids@ =~= keys.unref());
            assert forall|k: i64| ids@.contains(k) <==> self@.contains_key(k) by {
                assert(ids@.to_set().contains(k) <==> ids@.contains(k));
            }
            assert forall|a: int, b: int|
                0 <= a < ids@.len() && 0 <= b < ids@.len() && a != b implies ids@[a] != ids@[b] by {
                assert(keys[a] != keys[b]);
            }
        }
        ids
    }

    /// Takes the entries named by `ids` out of memory, those that `only_idle`
    /// spares excepted, and persists each that has learned something.
    fn evict(&mut self, ids: &Vec<i64>, now: u64, only_idle: bool) -> (blobs: Vec<Blob>)
        requires
            old(self).wf(),
            ids@.no_duplicates(),
            forall|k: i64| ids@.contains(k) <==> old(self)@.contains_key(k),
        ensures
            final(self).wf(),
            final(self).idle_limit() == old(self).idle_limit(),
            final(self)@ == leftover(old(self)@, now, old(self).idle_limit(), only_idle),
            persists(
                blobs@,
                old(self)@.remove_keys(
                    leftover(old(self)@, now, old(self).idle_limit(), only_idle).dom(),
                ),
            ),
    {
        let mut blobs: Vec<Blob> = Vec::new();
        let mut i: usize = 0;
        let ghost before = self@;
        let ghost limit = self.max_idle;
        let ghost stay = leftover(before, now, limit, only_idle);
        while i < ids.len()
            invariant
                i <= ids.len(),
                self.wf(),
                self.max_idle == limit,
                before == old(self)@,
                stay == leftover(before, now, limit, only_idle),
                ids@.no_duplicates(),
                forall|k: i64| ids@.contains(k) <==> before.contains_key(k),
                forall|k: i64| #[trigger]
                    self@.contains_key(k) <==> before.contains_key(k) && (stay.contains_key(k)
                        || !ids@.take(i as int).contains(k)),
                forall|k: i64| #[trigger] self@.contains_key(k) ==> self@[k] == before[k],
                forall|j: int|
                    0 <= j < blobs.len() ==> {
                        let id = (#[trigger] blobs[j]).chat_id;
                        &&& ids@.take(i as int).contains(id)
                        &&& before.contains_key(id)
                        &&& !stay.contains_key(id)
                        &&& !before[id].is_empty()
                        &&& blobs[j].bytes@ == before[id].bytes()
                        &&& record_read(blobs[j].bytes@) == Some(before[id].record())
                    },
                forall|a: int, b: int|
                    0 <= a < b < blobs.len() ==> (#[trigger] blobs[a]).chat_id != (
                    #[trigger] blobs[b]).chat_id,
                forall|k: i64|
                    ids@.take(i as int).contains(k) && !stay.contains_key(k)
                        && !before[k].is_empty() ==> exists|j: int|
                        0 <= j < blobs.len() && (#[trigger] blobs[j]).chat_id == k,
            decreases ids.len() - i,
        {
            let id = ids[i];
            let ghost done = ids@.take(i as int);
            let ghost next = ids@.take(i + 1);
            proof {
                assert(next =~= done.push(id));
                assert(ids@.contains(id));
                assert(!done.contains(id)) by {
                    if done.contains(id) {
                        let j = choose|j: int| 0 <= j < done.len() && done[j] == id;
                        assert(ids@[j] == id && ids@[i as int] == id);
                    }
                }
                assert forall|k: i64| next.contains(k) <==> (done.contains(k) || k == id) by {
                    if done.contains(k) {
                        let j = choose|j: int| 0 <= j < done.len() && done[j] == k;
                        assert(next[j] == k);
                    }
                    if k == id {
                        assert(next[i as int] == id);
                    }
                }
                assert(self@.contains_key(id));
            }
            let ghost cache_before = self@;
            let ghost blobs_before = blobs@;
            let leaves = match self.chains.get(&id) {
                Some(entry) => !only_idle || ChainWrapper::is_old(entry, now, self.max_idle),
                None => false,
            };
            if leaves {
                match self.chains.remove(&id) {
                    Some(entry) => {
                        proof {
                            assert(!stay.contains_key(id));
                            assert(self@ =~= cache_before.remove(id));
                        }
                        match entry.persist() {
                            Some(bytes) => {
                                blobs.push(Blob { chat_id: id, bytes });
                                proof {
                                    assert(forall|j: int|
                                        0 <= j < blobs_before.len() ==> blobs@[j]
                                            == blobs_before[j]);
                                    assert(blobs@[blobs_before.len() as int].chat_id == id);
                                }
                            },
                            None => {},
                        }
                    },
                    None => {},
                }
            } else {
                proof {
                    assert(stay.contains_key(id));
                }
            }
            i = i + 1;
        }
        proof {
            assert(ids@.take(i as int) =~= ids@);
            assert(self@ =~= stay);
            let leaving = before.remove_keys(stay.dom());
            assert forall|k: i64| #[trigger]
                leaving.contains_key(k) && !leaving[k].is_empty() implies exists|j: int|
                0 <= j < blobs.len() && (#[trigger] blobs[j]).chat_id == k by {
                assert(ids@.contains(k));
            }
        }
        blobs
    }

    /// Evicts the entries that are idle at `now`. Each of them that has
    /// learned something is persisted first: its bytes are among those
    /// handed back for the store.
    pub fn prune(&mut self, now: u64) -> (blobs: Vec<Blob>)
        requires
            old(self).wf(),
        ensures
            final(self).wf(),
            final(self).idle_limit() == old(self).idle_limit(),
            final(self)@ == pruned(old(self)@, now, old(self).idle_limit()),
            persists(
                blobs@,
                old(self)@.remove_keys(pruned(old(self)@, now, old(self).idle_limit()).dom()),
            ),
    {
        let ids = self.resident_ids();
        proof {
            assert(leftover(self@, now, self.max_idle, true) =~= pruned(
                self@,
                now,
                self.max_idle,
            ));
        }
        self.evict(&ids, now, true)
    }

    /// Empties the cache, as before the process ends: every entry that has
    /// learned something is persisted, idle or not.
    pub fn drop_all(&mut self) -> (blobs: Vec<Blob>)
        requires
            old(self).wf(),
        ensures
            final(self).wf(),
            final(self).idle_limit() == old(self).idle_limit(),
            final(self)@ == Map::<i64, Conversation>::empty(),
            persists(blobs@, old(self)@),
    {
        let ids = self.resident_ids();
        proof {
            assert(leftover(self@, 0, self.max_idle, false) =~= Map::<i64, Conversation>::empty());
            assert(self@.remove_keys(Map::<i64, Conversation>::empty().dom()) =~= self@);
        }
        self.evict(&ids, 0, false)
    }
}

/// What an eviction leaves: the entries that are not idle where only idle
/// ones go, nothing where all go.
pub open spec fn leftover(
    cache: Map<i64, Conversation>,
    now: u64,
    max_idle: u64,
    only_idle: bool,
) -> Map<i64, Conversation> {
    if only_idle {
        pruned(cache, now, max_idle)
    } else {
        Map::empty()
    }
}

/// A conversation that was never met, in memory or in the store, has
/// nothing to say: once the store has answered that it holds no bytes for
/// it, a request for a phrase gets the fixed reply of an empty model.
pub proof fn lemma_unseen_has_nothing_to_say(cache: Map<i64, Conversation>, chat_id: i64, now: u64)
    requires
        !cache.contains_key(chat_id),
    ensures
        received(cache, chat_id, Ok(None), now).contains_key(chat_id),
        fixed_reply(received(cache, chat_id, Ok(None), now), chat_id) == Some(no_phrases()),
{
}

/// A failure of the store leaves no trace: the id stays absent, a request
/// for a phrase is answered with the failure message, and a later answer of
/// the store is taken as if the failure had never been.
pub proof fn lemma_failed_load_leaves_no_entry(
    cache: Map<i64, Conversation>,
    chat_id: i64,
    error: String,
    later: Result<Option<Vec<u8>>, String>,
    now: u64,
    then: u64,
)
    requires
        !cache.contains_key(chat_id),
    ensures
        received(cache, chat_id, Err(error), now) == cache,
        fixed_reply(received(cache, chat_id, Err(error), now), chat_id) == Some(command_failed()),
        received(received(cache, chat_id, Err(error), now), chat_id, later, then) == received(
            cache,
            chat_id,
            later,
            then,
        ),
{
}

/// Toggling learning twice for a conversation gives back its learning flag,
/// and text offered to it while learning is off leaves what it has learned,
/// and so what it can say, as it was.
pub proof fn lemma_toggle_window(
    cache: Map<i64, Conversation>,
    chat_id: i64,
    text: Seq<char>,
    off: u64,
    during: u64,
    on: u64,
)
    requires
        cache.contains_key(chat_id),
        cache[chat_id].is_learning,
    ensures
        toggled(toggled(cache, chat_id, off), chat_id, on)[chat_id].is_learning,
        toggled(toggled(cache, chat_id, off), chat_id, on)[chat_id].lines == cache[chat_id].lines,
        fed(toggled(cache, chat_id, off), chat_id, text, during)[chat_id].lines
            == cache[chat_id].lines,
        toggled(fed(toggled(cache, chat_id, off), chat_id, text, during), chat_id, on)[chat_id].lines
            == cache[chat_id].lines,
        toggled(
            fed(toggled(cache, chat_id, off), chat_id, text, during),
            chat_id,
            on,
        )[chat_id].is_learning,
{
}

/// Clearing twice is clearing once: after the first time the conversation
/// is gone from memory, and the second time changes nothing and asks for no
/// deletion.
pub proof fn lemma_clear_twice(cache: Map<i64, Conversation>, chat_id: i64)
    ensures
        !cache.remove(chat_id).contains_key(chat_id),
        cache.remove(chat_id).remove(chat_id) == cache.remove(chat_id),
{
    assert(cache.remove(chat_id).remove(chat_id) =~= cache.remove(chat_id));
}

/// Pruning evicts exactly the idle: an entry last used more than the limit
/// ago is gone, any other stays as it was, and nothing moves in.
pub proof fn lemma_prune_evicts_the_idle(
    cache: Map<i64, Conversation>,
    chat_id: i64,
    now: u64,
    max_idle: u64,
)
    ensures
        pruned(cache, now, max_idle).contains_key(chat_id) <==> cache.contains_key(chat_id)
            && now - cache[chat_id].last_accessed <= max_idle,
        pruned(cache, now, max_idle).contains_key(chat_id) ==> pruned(cache, now, max_idle)[chat_id]
            == cache[chat_id],
{
}

/// An operation on one conversation leaves every other as it was, and
/// never makes an absent one resident: only the store's answer does that.
pub proof fn lemma_operations_are_local(
    cache: Map<i64, Conversation>,
    chat_id: i64,
    other: i64,
    text: Seq<char>,
    now: u64,
)
    requires
        other != chat_id,
    ensures
        fed(cache, chat_id, text, now).contains_key(other) == cache.contains_key(other),
        asked(cache, chat_id, now).contains_key(other) == cache.contains_key(other),
        toggled(cache, chat_id, now).contains_key(other) == cache.contains_key(other),
        cache.contains_key(other) ==> fed(cache, chat_id, text, now)[other] == cache[other]
            && asked(cache, chat_id, now)[other] == cache[other] && toggled(
            cache,
            chat_id,
            now,
        )[other] == cache[other],
        fed(cache, chat_id, text, now).contains_key(chat_id) == cache.contains_key(chat_id),
        asked(cache, chat_id, now).contains_key(chat_id) == cache.contains_key(chat_id),
        toggled(cache, chat_id, now).contains_key(chat_id) == cache.contains_key(chat_id),
{
}

/// Neither report is blank.
pub proof fn lemma_reports_not_blank()
    ensures
        !blank(command_failed()),
        !blank(database_cleared()),
{
    reveal_strlit("[command failed, please try again later]");
    reveal_strlit("[database cleared]");
    assert(command_failed()[0] == '[');
    assert(database_cleared()[0] == '[');
}

} // verus!
