//! One conversation: its model, its learning flag and the time of its last
//! use.
//!
//! An entry keeps the lines that its model has learned beside the chain
//! that was fed them, and it is the lines that are stored. A chain read back
//! from bytes could hold any table, also one on which a walk fails or never
//! ends; lines can always be fed to a new chain, which is then as sound as
//! one that never left memory.
//!
//! Times are readings of a clock that the caller owns, as a count of ticks:
//! the library compares them and never asks what a tick is.

use crate::model::{
    chain_is_empty, chain_table, feed_line, knows, learned, lemma_feed_keeps_taught,
    lemma_fresh_table_is_silent, new_chain, sample, sample_from, speaks, taught, WordChain,
};
use crate::record::{decode_record, encode_record, record_read, record_written};
use crate::text::{
    blank, heard, is_blank, learnable_lines, lemma_heard_concat, lemma_heard_push,
    lemma_prefix_not_blank, lines_to_learn, tokens, views,
};
use vstd::prelude::*;
use vstd::string::StringExecFns;

verus! {

/// How many phrases are drawn from a model before a blank run is given up.
pub const MAX_DRAWS: usize = 10;

/// The reply of a conversation that has learned nothing yet.
pub open spec fn no_phrases() -> Seq<char> {
    "[no phrases learnt]"@
}

/// The confirmation that learning was switched off.
pub open spec fn learning_disabled() -> Seq<char> {
    "[learning disabled]"@
}

/// The confirmation that learning was switched on.
pub open spec fn learning_enabled() -> Seq<char> {
    "[learning enabled]"@
}

/// The time of last use after an operation at `now` on an entry last used at
/// `last`: the clock's reading where the clock has moved on, else the next
/// tick, so that it grows with every operation until the count is used up.
pub open spec fn tick(last: u64, now: u64) -> u64 {
    if now > last {
        now
    } else if last < u64::MAX {
        (last + 1) as u64
    } else {
        last
    }
}

/// What a conversation entry stands for.
pub struct Conversation {
    pub chat_id: i64,
    /// The lines the model has learned, first to last.
    pub lines: Seq<Seq<char>>,
    pub is_learning: bool,
    pub last_accessed: u64,
}

impl Conversation {
    /// A conversation that has learned nothing, first used at `now`.
    pub open spec fn fresh(chat_id: i64, now: u64) -> Conversation {
        Conversation { chat_id, lines: Seq::empty(), is_learning: true, last_accessed: now }
    }

    /// Whether the model has learned nothing.
    pub open spec fn is_empty(self) -> bool {
        self.lines.len() == 0
    }

    /// Whether the model has met `token`: whether it is one of the tokens,
    /// cut at spaces, of a line that was learned.
    pub open spec fn knows(self, token: Seq<char>) -> bool {
        heard(self.lines, token)
    }

    /// After any operation at `now`.
    pub open spec fn touched(self, now: u64) -> Conversation {
        Conversation { last_accessed: tick(self.last_accessed, now), ..self }
    }

    /// After `text` was offered at `now`: learned line by line where learning
    /// is on, ignored where it is off.
    pub open spec fn fed(self, text: Seq<char>, now: u64) -> Conversation {
        if self.is_learning {
            Conversation { lines: self.lines + learnable_lines(text), ..self.touched(now) }
        } else {
            self.touched(now)
        }
    }

    /// After learning was toggled at `now`.
    pub open spec fn toggled(self, now: u64) -> Conversation {
        Conversation { is_learning: !self.is_learning, ..self.touched(now) }
    }

    /// After the data was cleared at `now`.
    pub open spec fn cleared(self, now: u64) -> Conversation {
        Conversation { lines: Seq::empty(), is_learning: true, ..self.touched(now) }
    }

    /// The record that persists this conversation.
    pub open spec fn record(self) -> (Seq<Seq<char>>, i64, bool, u64) {
        (self.lines, self.chat_id, self.is_learning, self.last_accessed)
    }

    /// The bytes of that record.
    pub open spec fn bytes(self) -> Seq<u8> {
        record_written(self.lines, self.chat_id, self.is_learning, self.last_accessed)
    }
}

/// The entry that a stored record gives for `chat_id` at `now`, and whether
/// the stored bytes have to be deleted. A record that can be read is taken
/// for what the conversation has learned, whatever id it carries: it was
/// found under the conversation's name, and the entry goes by the id it was
/// asked for. Only bytes that cannot be read are corrupt: the entry starts
/// afresh and the bytes go.
pub open spec fn restored(
    chat_id: i64,
    record: Option<(Seq<Seq<char>>, i64, bool, u64)>,
    now: u64,
) -> (Conversation, bool) {
    match record {
        Some((lines, _, is_learning, _)) => (
            Conversation { chat_id, lines, is_learning, last_accessed: now },
            false,
        ),
        None => (Conversation::fresh(chat_id, now), true),
    }
}

/// The entry that the store's answer gives for `chat_id` at `now`, and
/// whether the stored bytes have to be deleted; `None` where the store
/// failed.
pub open spec fn loaded(chat_id: i64, fetched: Result<Option<Vec<u8>>, String>, now: u64) -> Option<
    (Conversation, bool),
> {
    match fetched {
        Err(_) => None,
        Ok(None) => Some((Conversation::fresh(chat_id, now), false)),
        Ok(Some(bytes)) => Some(restored(chat_id, record_read(bytes@), now)),
    }
}

/// What to do with a phrase that a model produced.
#[derive(Clone, Copy, Debug, PartialEq, Eq, Structural)]
pub enum Verdict {
    /// The phrase is the reply.
    Accept,
    /// The phrase is blank: draw another.
    Again,
    /// The phrase is blank and the draws are used up.
    GiveUp,
}

/// The verdict on `candidate`, the `drawn`-th phrase of a run.
pub open spec fn verdict(candidate: Seq<char>, drawn: nat) -> Verdict {
    if !blank(candidate) {
        Verdict::Accept
    } else if drawn >= MAX_DRAWS {
        Verdict::GiveUp
    } else {
        Verdict::Again
    }
}

/// Decides on `candidate`, the `drawn`-th phrase of a run.
pub fn weigh(candidate: &str, drawn: usize) -> (v: Verdict)
    ensures
        v == verdict(candidate@, drawn as nat),
{
    if !is_blank(candidate) {
        Verdict::Accept
    } else if drawn >= MAX_DRAWS {
        Verdict::GiveUp
    } else {
        Verdict::Again
    }
}

/// What becomes of a phrase that a model produced after a token: it is the
/// answer unless it is blank.
pub fn spoken(phrase: String) -> (res: Option<String>)
    ensures
        res == if blank(phrase@) {
            None::<String>
        } else {
            Some(phrase)
        },
{
    if is_blank(phrase.as_str()) {
        None
    } else {
        Some(phrase)
    }
}

/// A model gave nothing but blank phrases.
#[derive(Clone, Copy, Debug, PartialEq, Eq, Structural)]
pub struct Exhausted {
    /// How many phrases were drawn and discarded.
    pub draws: usize,
}

/// A conversation's model with its metadata.
pub struct ChainInfo {
    chain: WordChain,
    lines: Vec<String>,
    chat_id: i64,
    is_learning: bool,
    last_accessed: u64,
}

impl View for ChainInfo {
    type V = Conversation;

    closed spec fn view(&self) -> Conversation {
        Conversation {
            chat_id: self.chat_id,
            lines: views(self.lines@),
            is_learning: self.is_learning,
            last_accessed: self.last_accessed,
        }
    }
}

impl ChainInfo {
    /// The chain holds what feeding it the learned lines gives, no more and
    /// no less.
    pub closed spec fn wf(&self) -> bool {
        &&& chain_table(self.chain) == learned(views(self.lines@))
        &&& self.lines@.len() > 0 ==> speaks(chain_table(self.chain))
        &&& forall|token: Seq<char>| #[trigger]
            knows(chain_table(self.chain), token) <==> heard(views(self.lines@), token)
    }

    /// The entry for `chat_id` from what the store answered when asked for
    /// its bytes, and whether the stored bytes have to be deleted. A failure
    /// of the store is handed on: no entry is made up in its place.
    pub fn new(chat_id: i64, fetched: Result<Option<Vec<u8>>, String>, now: u64) -> (res: Result<
        (ChainInfo, bool),
        String,
    >)
        ensures
            match fetched {
                Err(e) => res == Err::<(ChainInfo, bool), String>(e),
                Ok(_) => res matches Ok((entry, purge)) && entry.wf() && Some((entry@, purge))
                    == loaded(chat_id, fetched, now),
            },
    {
        match fetched {
            Err(e) => Err(e),
            Ok(None) => Ok((ChainInfo::empty(chat_id, now), false)),
            Ok(Some(bytes)) => match decode_record(&bytes) {
                Some((lines, _, is_learning, _)) => {
                    let chain = ChainInfo::replay(&lines);
                    Ok((ChainInfo { chain, lines, chat_id, is_learning, last_accessed: now }, false))
                },
                None => Ok((ChainInfo::empty(chat_id, now), true)),
            },
        }
    }

    /// An entry that has learned nothing.
    pub fn empty(chat_id: i64, now: u64) -> (entry: ChainInfo)
        ensures
            entry.wf(),
            entry@ == Conversation::fresh(chat_id, now),
    {
        let entry = ChainInfo {
            chain: new_chain(),
            lines: Vec::new(),
            chat_id,
            is_learning: true,
            last_accessed: now,
        };
        proof {
            assert(views(entry.lines@) =~= Seq::<Seq<char>>::empty());
            lemma_fresh_table_is_silent();
        }
        entry
    }

    /// A chain that has learned `lines`, first to last.
    fn replay(lines: &Vec<String>) -> (chain: WordChain)
        ensures
            chain_table(chain) == learned(views(lines@)),
            lines@.len() > 0 ==> speaks(chain_table(chain)),
            forall|token: Seq<char>| #[trigger]
                knows(chain_table(chain), token) <==> heard(views(lines@), token),
    {
        let mut chain = new_chain();
        let mut i: usize = 0;
        proof {
            assert(views(lines@).take(0) =~= Seq::<Seq<char>>::empty());
            lemma_fresh_table_is_silent();
        }
        while i < lines.len()
            invariant
                i <= lines.len(),
                chain_table(chain) == learned(views(lines@).take(i as int)),
                i > 0 ==> speaks(chain_table(chain)),
                forall|token: Seq<char>| #[trigger]
                    knows(chain_table(chain), token) <==> heard(
                        views(lines@).take(i as int),
                        token,
                    ),
            decreases lines.len() - i,
        {
            proof {
                let sofar = views(lines@).take(i as int);
                lemma_feed_keeps_taught(sofar, lines@[i as int]@);
                assert(views(lines@).take(i + 1) =~= sofar.push(lines@[i as int]@));
                assert forall|token: Seq<char>|
                    heard(views(lines@).take(i + 1), token) <==> heard(sofar, token) || tokens(
                        lines@[i as int]@,
                    ).contains(token) by {
                    lemma_heard_push(sofar, lines@[i as int]@, token);
                }
            }
            feed_line(&mut chain, lines[i].as_str());
            i = i + 1;
        }
        proof {
            assert(views(lines@).take(i as int) =~= views(lines@));
        }
        chain
    }

    /// The conversation's id.
    pub fn chat_id(&self) -> (id: i64)
        ensures
            id == self@.chat_id,
    {
        self.chat_id
    }

    /// Whether offered text is learned.
    pub fn is_learning(&self) -> (on: bool)
        ensures
            on == self@.is_learning,
    {
        self.is_learning
    }

    /// The time of the last operation.
    pub fn last_accessed(&self) -> (at: u64)
        ensures
            at == self@.last_accessed,
    {
        self.last_accessed
    }

    /// Whether the model has learned nothing.
    pub fn is_empty(&self) -> (empty: bool)
        requires
            self.wf(),
        ensures
            empty == self@.is_empty(),
    {
        proof {
            self.lemma_table();
        }
        chain_is_empty(&self.chain)
    }

    /// What the invariant says of the chain's table.
    proof fn lemma_table(&self)
        requires
            self.wf(),
        ensures
            taught(chain_table(self.chain)),
            speaks(chain_table(self.chain)) == !self@.is_empty(),
            forall|token: Seq<char>| #[trigger]
                knows(chain_table(self.chain), token) <==> self@.knows(token),
    {
        if self.lines@.len() == 0 {
            lemma_fresh_table_is_silent();
            assert(views(self.lines@) =~= Seq::<Seq<char>>::empty());
        }
    }

    /// Notes an operation at `now`.
    fn touch(&mut self, now: u64)
        requires
            old(self).wf(),
        ensures
            final(self).wf(),
            final(self)@ == old(self)@.touched(now),
    {
        if now > self.last_accessed {
            self.last_accessed = now;
        } else if self.last_accessed < u64::MAX {
            self.last_accessed = self.last_accessed + 1;
        }
    }

    /// Offers `msg` to the model: where learning is on, each of its lines is
    /// learned on its own.
    pub fn feed(&mut self, msg: &str, now: u64)
        requires
            old(self).wf(),
        ensures
            final(self).wf(),
            final(self)@ == old(self)@.fed(msg@, now),
    {
        self.touch(now);
        if self.is_learning {
            let fresh = lines_to_learn(msg);
            let ghost before = self@;
            let mut i: usize = 0;
            proof {
                assert(views(fresh@).take(0) =~= Seq::<Seq<char>>::empty());
                assert(before.lines + Seq::<Seq<char>>::empty() =~= before.lines);
            }
            while i < fresh.len()
                invariant
                    i <= fresh.len(),
                    self.wf(),
                    self@ == (Conversation {
                        lines: before.lines + views(fresh@).take(i as int),
                        ..before
                    }),
                decreases fresh.len() - i,
            {
                let line = fresh[i].clone();
                let ghost table = chain_table(self.chain);
                let ghost lines = views(self.lines@);
                proof {
                    self.lemma_table();
                    lemma_feed_keeps_taught(views(self.lines@), line@);
                    assert(views(self.lines@.push(line)) =~= views(self.lines@).push(line@));

                    assert(views(fresh@).take(i + 1) =~= views(fresh@).take(i as int).push(
                        line@,
                    ));
                    assert(before.lines + views(fresh@).take(i + 1) =~= (before.lines + views(
                        fresh@,
                    ).take(i as int)).push(line@));
                }
                feed_line(&mut self.chain, line.as_str());
                self.lines.push(line);
                proof {
                    assert forall|token: Seq<char>| #[trigger]
                        knows(chain_table(self.chain), token) <==> heard(
                            views(self.lines@),
                            token,
                        ) by {
                        assert(knows(table, token) <==> heard(lines, token));
                        lemma_heard_push(lines, line@, token);
                    }
                }
                i = i + 1;
            }
            proof {
                assert(views(fresh@).take(i as int) =~= views(fresh@));
            }
        }
    }

    /// Draws phrases from the model until one is not blank, `MAX_DRAWS` times
    /// at most.
    pub fn gen_loop(&self) -> (res: Result<String, Exhausted>)
        requires
            self.wf(),
            !self@.is_empty(),
        ensures
            res matches Ok(phrase) ==> !blank(phrase@),
            res matches Err(e) ==> e.draws == MAX_DRAWS,
    {
        proof {
            self.lemma_table();
        }
        let mut drawn: usize = 0;
        loop
            invariant
                drawn < MAX_DRAWS,
                taught(chain_table(self.chain)),
                speaks(chain_table(self.chain)),
            decreases MAX_DRAWS - drawn,
        {
            let phrase = sample(&self.chain);
            drawn = drawn + 1;
            match weigh(phrase.as_str(), drawn) {
                Verdict::Accept => {
                    return Ok(phrase);
                },
                Verdict::GiveUp => {
                    return Err(Exhausted { draws: drawn });
                },
                Verdict::Again => {},
            }
        }
    }

    /// A phrase that begins with `token`, where the model has one that is
    /// not blank. A model that has never met `token` has none. One that has
    /// met it has one whenever `token` is not blank itself, since the phrase
    /// begins with it; after a blank token the walk decides.
    pub fn gen_from(&self, token: &str) -> (res: Option<String>)
        requires
            self.wf(),
        ensures
            !self@.knows(token@) ==> res is None,
            self@.knows(token@) && !blank(token@) ==> res is Some,
            res matches Some(phrase) ==> self@.knows(token@) && !blank(phrase@)
                && token@.is_prefix_of(phrase@),
    {
        proof {
            self.lemma_table();
        }
        let phrase = sample_from(&self.chain, token);
        proof {
            assert(knows(chain_table(self.chain), token@) <==> self@.knows(token@));
            if self@.knows(token@) && !blank(token@) {
                lemma_prefix_not_blank(token@, phrase@);
            }
        }
        spoken(phrase)
    }

    /// A phrase from the model. A model that has learned nothing answers with
    /// a fixed message. Else the phrase is never blank: with a `token` that is
    /// not blank it is first looked for after that token, and where that gives
    /// nothing, or no token was given, it is drawn freely. So a token that is
    /// not blank and that the model has met always begins the phrase.
    pub fn generate(&mut self, token: &str, now: u64) -> (res: Result<String, Exhausted>)
        requires
            old(self).wf(),
        ensures
            final(self).wf(),
            final(self)@ == old(self)@.touched(now),
            old(self)@.is_empty() ==> (res matches Ok(phrase) && phrase@ == no_phrases()),
            !blank(token@) && old(self)@.knows(token@) ==> (res matches Ok(phrase)
                && token@.is_prefix_of(phrase@)),
            res matches Ok(phrase) ==> !blank(phrase@),
            res matches Err(e) ==> e.draws == MAX_DRAWS,
    {
        self.touch(now);
        if !self.is_empty() {
            if is_blank(token) {
                self.gen_loop()
            } else {
                match self.gen_from(token) {
                    Some(phrase) => Ok(phrase),
                    None => self.gen_loop(),
                }
            }
        } else {
            proof {
                lemma_messages_not_blank();
            }
            Ok(String::from_str("[no phrases learnt]"))
        }
    }

    /// Switches learning off where it is on, and on where it is off, and says
    /// which.
    pub fn toggle_learning(&mut self, now: u64) -> (msg: String)
        requires
            old(self).wf(),
        ensures
            final(self).wf(),
            final(self)@ == old(self)@.toggled(now),
            msg@ == if old(self)@.is_learning {
                learning_disabled()
            } else {
                learning_enabled()
            },
    {
        self.touch(now);
        if self.is_learning {
            self.is_learning = false;
            String::from_str("[learning disabled]")
        } else {
            self.is_learning = true;
            String::from_str("[learning enabled]")
        }
    }

    /// Forgets everything learned and switches learning on. The stored bytes
    /// of the conversation are the caller's to delete.
    pub fn clear_data(&mut self, now: u64)
        requires
            old(self).wf(),
        ensures
            final(self).wf(),
            final(self)@ == old(self)@.cleared(now),
    {
        self.touch(now);
        self.chain = new_chain();
        self.lines = Vec::new();
        self.is_learning = true;
        proof {
            assert(views(self.lines@) =~= Seq::<Seq<char>>::empty());
            lemma_fresh_table_is_silent();
        }
    }

    /// The record of this entry, as bytes.
    pub fn get_bincode(&self) -> (bytes: Vec<u8>)
        ensures
            bytes@ == self@.bytes(),
            record_read(bytes@) == Some(self@.record()),
    {
        encode_record(&self.lines, self.chat_id, self.is_learning, self.last_accessed)
    }

    /// The bytes to store for this entry: its record where the model has
    /// learned something, nothing where it has not.
    pub fn persist(&self) -> (blob: Option<Vec<u8>>)
        requires
            self.wf(),
        ensures
            blob is Some <==> !self@.is_empty(),
            blob matches Some(bytes) ==> bytes@ == self@.bytes() && record_read(bytes@) == Some(
                self@.record(),
            ),
    {
        if !self.is_empty() {
            Some(self.get_bincode())
        } else {
            None
        }
    }
}

/// Every operation moves the time of last use forward, to the clock's
/// reading or past it, for as long as the count of ticks is not used up.
pub proof fn lemma_last_access_advances(entry: Conversation, text: Seq<char>, now: u64)
    ensures
        entry.touched(now).last_accessed >= now,
        entry.touched(now).last_accessed >= entry.last_accessed,
        entry.last_accessed < u64::MAX ==> entry.touched(now).last_accessed > entry.last_accessed,
        entry.fed(text, now).last_accessed == entry.touched(now).last_accessed,
        entry.toggled(now).last_accessed == entry.touched(now).last_accessed,
        entry.cleared(now).last_accessed == entry.touched(now).last_accessed,
{
}

/// Toggling twice gives back the learning flag and leaves what was learned
/// alone.
pub proof fn lemma_toggle_twice(entry: Conversation, first: u64, second: u64)
    ensures
        entry.toggled(first).toggled(second).is_learning == entry.is_learning,
        entry.toggled(first).toggled(second).lines == entry.lines,
        entry.toggled(first).toggled(second).chat_id == entry.chat_id,
{
}

/// Text offered while learning is off teaches the model nothing: what it
/// has learned, and so what it can say, is what it was before.
pub proof fn lemma_feed_while_disabled(entry: Conversation, text: Seq<char>, now: u64)
    requires
        !entry.is_learning,
    ensures
        entry.fed(text, now).lines == entry.lines,
        entry.fed(text, now) == entry.touched(now),
        learned(entry.fed(text, now).lines) == learned(entry.lines),
{
}

/// A record that was written for an entry restores it: the same id, the
/// same learning flag and the same lines learned, so the same model. Only
/// the time of last use is new.
pub proof fn lemma_record_round_trip(entry: Conversation, bytes: Seq<u8>, now: u64)
    requires
        record_read(bytes) == Some(entry.record()),
    ensures
        restored(entry.chat_id, record_read(bytes), now) == (
            Conversation { last_accessed: now, ..entry },
            false,
        ),
        learned(restored(entry.chat_id, record_read(bytes), now).0.lines) == learned(entry.lines),
{
}

/// What a model has met: a fresh one nothing, one that was cleared nothing;
/// text that is learned adds the tokens of its lines and takes none away;
/// toggling and text offered while learning is off change nothing.
pub proof fn lemma_known_tokens(entry: Conversation, text: Seq<char>, now: u64, token: Seq<char>)
    ensures
        !Conversation::fresh(entry.chat_id, now).knows(token),
        !entry.cleared(now).knows(token),
        entry.toggled(now).knows(token) == entry.knows(token),
        entry.touched(now).knows(token) == entry.knows(token),
        entry.fed(text, now).knows(token) <==> entry.knows(token) || (entry.is_learning && heard(
            learnable_lines(text),
            token,
        )),
{
    lemma_heard_concat(entry.lines, learnable_lines(text), token);
}

/// A blank phrase is never accepted, and a run is given up only on the
/// last of its `MAX_DRAWS` draws.
pub proof fn lemma_verdicts(candidate: Seq<char>, drawn: nat)
    ensures
        verdict(candidate, drawn) == Verdict::Accept <==> !blank(candidate),
        verdict(candidate, drawn) == Verdict::GiveUp <==> blank(candidate) && drawn >= MAX_DRAWS,
        verdict(candidate, drawn) == Verdict::Again <==> blank(candidate) && drawn < MAX_DRAWS,
{
}

/// None of the fixed replies is blank.
pub proof fn lemma_messages_not_blank()
    ensures
        !blank(no_phrases()),
        !blank(learning_disabled()),
        !blank(learning_enabled()),
{
    reveal_strlit("[no phrases learnt]");
    reveal_strlit("[learning disabled]");
    reveal_strlit("[learning enabled]");
    assert(no_phrases()[0] == '[');
    assert(learning_disabled()[0] == '[');
    assert(learning_enabled()[0] == '[');
}

} // verus!
