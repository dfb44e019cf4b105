//! The generative model: a word-level Markov chain of the `markov` crate.
//!
//! Nothing in this file is proved. It says what the crate's `Chain<String>`
//! does, over the transition table that a chain holds, and the rest of the
//! library is proved against that.

use crate::text::tokens;
use markov::Chain;
use vstd::prelude::*;

verus! {

/// A `markov::Chain<String>`, kept whole: the library never looks inside.
#[verifier::external_body]
pub struct WordChain {
    inner: Chain<String>,
}

/// The transition table that a chain holds: for each state (the tokens last
/// seen, `None` standing for the edge of a line) the tokens that followed it,
/// each with the number of times it did.
pub uninterp spec fn chain_table(chain: WordChain) -> Map<
    Seq<Option<Seq<char>>>,
    Map<Option<Seq<char>>, nat>,
>;

/// The table that `Chain::feed_str` leaves in a chain of order one that held
/// `table`, once it was given `line`.
pub uninterp spec fn table_after_feed(
    table: Map<Seq<Option<Seq<char>>>, Map<Option<Seq<char>>, nat>>,
    line: Seq<char>,
) -> Map<Seq<Option<Seq<char>>>, Map<Option<Seq<char>>, nat>>;

/// The state in which every line begins, in a chain of order one.
pub open spec fn start_state() -> Seq<Option<Seq<char>>> {
    seq![None]
}

/// The table of a chain that has learned nothing: the start state alone,
/// with nothing after it.
pub open spec fn fresh_table() -> Map<Seq<Option<Seq<char>>>, Map<Option<Seq<char>>, nat>> {
    map![start_state() => Map::<Option<Seq<char>>, nat>::empty()]
}

/// The table of a chain that was made empty and then given `lines`, first to
/// last.
pub open spec fn learned(lines: Seq<Seq<char>>) -> Map<
    Seq<Option<Seq<char>>>,
    Map<Option<Seq<char>>, nat>,
>
    decreases lines.len(),
{
    if lines.len() == 0 {
        fresh_table()
    } else {
        table_after_feed(learned(lines.drop_last()), lines.last())
    }
}

/// A table is taught when feeding lines to an empty chain leads to it. Only
/// such tables are handed to the chain's methods: in them every state that a
/// walk can reach has a successor, so that a walk ends.
pub open spec fn taught(table: Map<Seq<Option<Seq<char>>>, Map<Option<Seq<char>>, nat>>) -> bool {
    exists|lines: Seq<Seq<char>>| table == learned(lines)
}

/// A table speaks when some token follows the start state.
pub open spec fn speaks(table: Map<Seq<Option<Seq<char>>>, Map<Option<Seq<char>>, nat>>) -> bool {
    &&& table.contains_key(start_state())
    &&& exists|token: Option<Seq<char>>| table[start_state()].contains_key(token)
}

/// A table knows a token when the token alone is one of its states, which
/// it is once a line with that token was learned.
pub open spec fn knows(
    table: Map<Seq<Option<Seq<char>>>, Map<Option<Seq<char>>, nat>>,
    token: Seq<char>,
) -> bool {
    table.contains_key(seq![Some(token)])
}

/// A chain that has learned nothing does not speak and knows no token.
pub proof fn lemma_fresh_table_is_silent()
    ensures
        taught(fresh_table()),
        !speaks(fresh_table()),
        forall|token: Seq<char>| !#[trigger] knows(fresh_table(), token),
{
    assert forall|token: Seq<char>| !#[trigger] knows(fresh_table(), token) by {
        assert(seq![Some(token)][0] != start_state()[0]);
    }
    assert(learned(Seq::<Seq<char>>::empty()) == fresh_table());
    assert(fresh_table()[start_state()] == Map::<Option<Seq<char>>, nat>::empty());
}

/// Feeding a line to a taught table gives a taught table.
pub proof fn lemma_feed_keeps_taught(lines: Seq<Seq<char>>, line: Seq<char>)
    ensures
        learned(lines.push(line)) == table_after_feed(learned(lines), line),
        taught(learned(lines.push(line))),
{
    assert(lines.push(line).drop_last() =~= lines);
}

/// `Chain::new`: a chain of order one whose table holds the start state and
/// nothing else.
#[verifier::external_body]
pub(crate) fn new_chain() -> (chain: WordChain)
    ensures
        chain_table(chain) == fresh_table(),
{
    WordChain { inner: Chain::new() }
}

/// `Chain::feed_str`: cuts `line` at each space and counts, for every token,
/// the one that follows it. Since a line has at least one token, even when
/// it is empty, the start state has a successor afterwards. Every token of
/// the line becomes a state, and no state is ever taken away. The counters
/// cannot run over: each step adds at most one to each for every token given,
/// and the lines given are held in memory by the caller.
#[verifier::external_body]
pub(crate) fn feed_line(chain: &mut WordChain, line: &str)
    requires
        taught(chain_table(*old(chain))),
    ensures
        chain_table(*final(chain)) == table_after_feed(chain_table(*old(chain)), line@),
        speaks(chain_table(*final(chain))),
        forall|token: Seq<char>| #[trigger]
            knows(chain_table(*final(chain)), token) <==> knows(chain_table(*old(chain)), token)
                || tokens(line@).contains(token),
{
    chain.inner.feed_str(line);
}

/// `Chain::is_empty`: whether nothing follows the start state. It looks the
/// start state up, which a taught table always holds.
#[verifier::external_body]
pub(crate) fn chain_is_empty(chain: &WordChain) -> (empty: bool)
    requires
        taught(chain_table(*chain)),
    ensures
        empty == !speaks(chain_table(*chain)),
{
    chain.inner.is_empty()
}

/// `Chain::generate_str`: a random walk from the start state, its tokens
/// joined by spaces. The walk needs a successor in every state it comes to,
/// the start state included; what it returns is left open.
#[verifier::external_body]
pub(crate) fn sample(chain: &WordChain) -> (phrase: String)
    requires
        taught(chain_table(*chain)),
        speaks(chain_table(*chain)),
{
    chain.inner.generate_str()
}

/// `Chain::generate_str_from_token`: a random walk that starts after `token`.
/// The chain looks `token` up as a state. Where it is none, the result is
/// empty; where it is one, the result is `token` followed by what the walk
/// adds, each token after a space.
#[verifier::external_body]
pub(crate) fn sample_from(chain: &WordChain, token: &str) -> (phrase: String)
    requires
        taught(chain_table(*chain)),
    ensures
        knows(chain_table(*chain), token@) ==> token@.is_prefix_of(phrase@),
        !knows(chain_table(*chain), token@) ==> phrase@.len() == 0,
{
    chain.inner.generate_str_from_token(token)
}

} // verus!
