//! Characters, blank text and the lines of a message.
//!
//! A message is learned line by line: it is cut at every line feed, each
//! piece loses the white space at both ends, and the pieces that are left
//! empty are dropped.

use vstd::prelude::*;

verus! {

/// White space as Unicode defines it: the characters it marks `White_Space`.
pub open spec fn space(c: char) -> bool {
    let n = c as u32;
    ||| 0x09 <= n <= 0x0D
    ||| n == 0x20
    ||| n == 0x85
    ||| n == 0xA0
    ||| n == 0x1680
    ||| 0x2000 <= n <= 0x200A
    ||| n == 0x2028
    ||| n == 0x2029
    ||| n == 0x202F
    ||| n == 0x205F
    ||| n == 0x3000
}

/// A text is blank when it holds nothing but white space.
pub open spec fn blank(s: Seq<char>) -> bool {
    forall|i: int| 0 <= i < s.len() ==> space(#[trigger] s[i])
}

/// `s` without the white space it begins with.
pub open spec fn trim_start(s: Seq<char>) -> Seq<char>
    decreases s.len(),
{
    if s.len() > 0 && space(s.first()) {
        trim_start(s.drop_first())
    } else {
        s
    }
}

/// `s` without the white space it ends with.
pub open spec fn trim_end(s: Seq<char>) -> Seq<char>
    decreases s.len(),
{
    if s.len() > 0 && space(s.last()) {
        trim_end(s.drop_last())
    } else {
        s
    }
}

/// `s` without the white space at either end.
pub open spec fn trimmed(s: Seq<char>) -> Seq<char> {
    trim_end(trim_start(s))
}

/// The pieces between the line feeds of `s`. There is always one piece more
/// than there are line feeds, so the empty text has one empty piece.
pub open spec fn pieces(s: Seq<char>) -> Seq<Seq<char>>
    decreases s.len(),
{
    if s.len() == 0 {
        seq![Seq::<char>::empty()]
    } else if s.last() == '\n' {
        pieces(s.drop_last()).push(Seq::<char>::empty())
    } else {
        let before = pieces(s.drop_last());
        before.drop_last().push(before.last().push(s.last()))
    }
}

/// Each of `parts` trimmed, without those that trimming left empty.
pub open spec fn kept(parts: Seq<Seq<char>>) -> Seq<Seq<char>>
    decreases parts.len(),
{
    if parts.len() == 0 {
        Seq::<Seq<char>>::empty()
    } else {
        let line = trimmed(parts.last());
        if line.len() == 0 {
            kept(parts.drop_last())
        } else {
            kept(parts.drop_last()).push(line)
        }
    }
}

/// The lines that a message contributes to a model.
pub open spec fn learnable_lines(text: Seq<char>) -> Seq<Seq<char>> {
    kept(pieces(text))
}

/// The tokens of a line: the pieces between its spaces, of which there is
/// always one more than there are spaces, so that an empty line has one
/// empty token.
pub open spec fn tokens(line: Seq<char>) -> Seq<Seq<char>>
    decreases line.len(),
{
    if line.len() == 0 {
        seq![Seq::<char>::empty()]
    } else if line.last() == ' ' {
        tokens(line.drop_last()).push(Seq::<char>::empty())
    } else {
        let before = tokens(line.drop_last());
        before.drop_last().push(before.last().push(line.last()))
    }
}

/// Whether `token` is a token of one of `lines`.
pub open spec fn heard(lines: Seq<Seq<char>>, token: Seq<char>) -> bool {
    exists|i: int| 0 <= i < lines.len() && #[trigger] tokens(lines[i]).contains(token)
}

/// A line always has a token.
pub proof fn lemma_tokens_nonempty(line: Seq<char>)
    ensures
        tokens(line).len() >= 1,
    decreases line.len(),
{
    if line.len() > 0 {
        lemma_tokens_nonempty(line.drop_last());
    }
}

/// A word without a space is its own and only token.
pub proof fn lemma_tokens_of_word(word: Seq<char>)
    requires
        forall|i: int| 0 <= i < word.len() ==> word[i] != ' ',
    ensures
        tokens(word) == seq![word],
    decreases word.len(),
{
    if word.len() > 0 {
        let rest = word.drop_last();
        lemma_tokens_of_word(rest);
        assert(seq![rest].drop_last().push(rest.push(word.last())) =~= seq![rest.push(word.last())]);
        assert(rest.push(word.last()) =~= word);
    } else {
        assert(word =~= Seq::<char>::empty());
    }
}

/// The tokens of two texts joined by a space are those of the first and
/// then those of the second.
pub proof fn lemma_tokens_of_joined(first: Seq<char>, second: Seq<char>)
    ensures
        tokens(first + seq![' '] + second) == tokens(first) + tokens(second),
    decreases second.len(),
{
    let joined = first + seq![' '] + second;
    if second.len() == 0 {
        assert(joined.drop_last() =~= first);
        assert(tokens(first).push(Seq::<char>::empty()) =~= tokens(first) + tokens(second));
    } else {
        let rest = second.drop_last();
        lemma_tokens_of_joined(first, rest);
        lemma_tokens_nonempty(rest);
        assert(joined.drop_last() =~= first + seq![' '] + rest);
        assert(joined.last() == second.last());
        let before = tokens(first) + tokens(rest);
        if second.last() == ' ' {
            assert(before.push(Seq::<char>::empty()) =~= tokens(first) + tokens(second));
        } else {
            assert(before.drop_last() =~= tokens(first) + tokens(rest).drop_last());
            assert(before.last() == tokens(rest).last());
            assert(before.drop_last().push(before.last().push(second.last())) =~= tokens(first)
                + tokens(second));
        }
    }
}

/// A text that holds no line feed is one piece.
pub proof fn lemma_pieces_of_line(line: Seq<char>)
    requires
        forall|i: int| 0 <= i < line.len() ==> line[i] != '\n',
    ensures
        pieces(line) == seq![line],
    decreases line.len(),
{
    if line.len() > 0 {
        let rest = line.drop_last();
        lemma_pieces_of_line(rest);
        assert(seq![rest].drop_last().push(rest.push(line.last())) =~= seq![rest.push(line.last())]);
        assert(rest.push(line.last()) =~= line);
    } else {
        assert(line =~= Seq::<char>::empty());
    }
}

/// A line that is already trimmed, is not empty and holds no line feed is
/// learned as it stands.
pub proof fn lemma_learnable_line(line: Seq<char>)
    requires
        line.len() > 0,
        !space(line.first()),
        !space(line.last()),
        forall|i: int| 0 <= i < line.len() ==> line[i] != '\n',
    ensures
        learnable_lines(line) == seq![line],
{
    lemma_pieces_of_line(line);
    assert(trim_start(line) == line);
    assert(trim_end(line) == line);
    assert(seq![line].drop_last() =~= Seq::<Seq<char>>::empty());
    assert(kept(Seq::<Seq<char>>::empty()) =~= Seq::<Seq<char>>::empty());
    assert(seq![line].last() == line);
    assert(Seq::<Seq<char>>::empty().push(line) =~= seq![line]);
}

/// What is heard in `lines` and one more `line` is what is heard in either.
pub proof fn lemma_heard_push(lines: Seq<Seq<char>>, line: Seq<char>, token: Seq<char>)
    ensures
        heard(lines.push(line), token) <==> heard(lines, token) || tokens(line).contains(token),
{
    let more = lines.push(line);
    if heard(lines, token) {
        let i = choose|i: int| 0 <= i < lines.len() && #[trigger] tokens(lines[i]).contains(token);
        assert(more[i] == lines[i]);
    }
    if tokens(line).contains(token) {
        assert(more[lines.len() as int] == line);
    }
    if heard(more, token) {
        let i = choose|i: int| 0 <= i < more.len() && #[trigger] tokens(more[i]).contains(token);
        if i < lines.len() {
            assert(more[i] == lines[i]);
        }
    }
}

/// What is heard in two runs of lines, one after the other, is what is heard
/// in either.
pub proof fn lemma_heard_concat(first: Seq<Seq<char>>, second: Seq<Seq<char>>, token: Seq<char>)
    ensures
        heard(first + second, token) <==> heard(first, token) || heard(second, token),
{
    let both = first + second;
    if heard(first, token) {
        let i = choose|i: int| 0 <= i < first.len() && #[trigger] tokens(first[i]).contains(token);
        assert(both[i] == first[i]);
    }
    if heard(second, token) {
        let i = choose|i: int|
            0 <= i < second.len() && #[trigger] tokens(second[i]).contains(token);
        assert(both[first.len() + i] == second[i]);
    }
    if heard(both, token) {
        let i = choose|i: int| 0 <= i < both.len() && #[trigger] tokens(both[i]).contains(token);
        if i < first.len() {
            assert(both[i] == first[i]);
        } else {
            assert(both[i] == second[i - first.len()]);
        }
    }
}

/// What each of `strings` holds.
pub open spec fn views(strings: Seq<String>) -> Seq<Seq<char>> {
    Seq::new(strings.len(), |i: int| strings[i]@)
}

/// Trimming never leaves white space at either end, and nothing but white
/// space is taken away: a text trims to nothing exactly when it is blank.
pub proof fn lemma_trimmed_empty_iff_blank(s: Seq<char>)
    ensures
        trimmed(s).len() == 0 <==> blank(s),
{
    lemma_trim_start_shape(s);
    let t = trim_start(s);
    lemma_trim_end_shape(t);
    let lead = s.len() - t.len();
    if blank(s) {
        if t.len() > 0 {
            assert(t[0] == s[lead]);
        }
        assert(t.len() == 0);
    } else {
        let i = choose|i: int| 0 <= i < s.len() && !space(s[i]);
        assert(i >= lead);
        assert(t[i - lead] == s[i]);
        let u = trim_end(t);
        assert(u.len() > i - lead);
    }
}

/// `trim_start` removes a prefix of white space and stops at the first
/// character that is none.
pub proof fn lemma_trim_start_shape(s: Seq<char>)
    ensures
        trim_start(s).len() <= s.len(),
        trim_start(s) == s.skip(s.len() - trim_start(s).len()),
        forall|i: int| 0 <= i < s.len() - trim_start(s).len() ==> space(#[trigger] s[i]),
        trim_start(s).len() > 0 ==> !space(trim_start(s).first()),
    decreases s.len(),
{
    if s.len() > 0 && space(s.first()) {
        let rest = s.drop_first();
        lemma_trim_start_shape(rest);
        let k = rest.len() - trim_start(rest).len();
        assert(rest.skip(k) =~= s.skip(k + 1));
        assert forall|i: int| 0 <= i < s.len() - trim_start(s).len() implies space(
            #[trigger] s[i],
        ) by {
            if i > 0 {
                assert(s[i] == rest[i - 1]);
            }
        }
    } else {
        assert(s.skip(0) =~= s);
    }
}

/// `trim_end` removes a suffix of white space and stops at the last character
/// that is none.
pub proof fn lemma_trim_end_shape(s: Seq<char>)
    ensures
        trim_end(s).len() <= s.len(),
        trim_end(s) == s.take(trim_end(s).len() as int),
        forall|i: int| trim_end(s).len() <= i < s.len() ==> space(#[trigger] s[i]),
        trim_end(s).len() > 0 ==> !space(trim_end(s).last()),
    decreases s.len(),
{
    if s.len() > 0 && space(s.last()) {
        let rest = s.drop_last();
        lemma_trim_end_shape(rest);
        let k = trim_end(rest).len() as int;
        assert(rest.take(k) =~= s.take(k));
        assert forall|i: int| trim_end(s).len() <= i < s.len() implies space(#[trigger] s[i]) by {
            if i < s.len() - 1 {
                assert(s[i] == rest[i]);
            }
        }
    } else {
        assert(s.take(s.len() as int) =~= s);
    }
}

/// A text that begins with one that is not blank is not blank.
pub proof fn lemma_prefix_not_blank(start: Seq<char>, s: Seq<char>)
    requires
        start.is_prefix_of(s),
        !blank(start),
    ensures
        !blank(s),
{
    let i = choose|i: int| 0 <= i < start.len() && !space(start[i]);
    assert(s[i] == s.subrange(0, start.len() as int)[i]);
}

/// There is always a last piece.
pub proof fn lemma_pieces_nonempty(s: Seq<char>)
    ensures
        pieces(s).len() >= 1,
    decreases s.len(),
{
    if s.len() > 0 {
        lemma_pieces_nonempty(s.drop_last());
    }
}

/// No piece holds a line feed.
pub proof fn lemma_pieces_hold_no_line_feed(s: Seq<char>)
    ensures
        forall|i: int, j: int|
            0 <= i < pieces(s).len() && 0 <= j < pieces(s)[i].len() ==> #[trigger] pieces(
                s,
            )[i][j] != '\n',
    decreases s.len(),
{
    if s.len() > 0 {
        lemma_pieces_hold_no_line_feed(s.drop_last());
        lemma_pieces_nonempty(s.drop_last());
    }
}

/// A line that is kept is not empty and neither begins nor ends with white
/// space, so it is not blank; and it is cut out of the part it comes from.
pub proof fn lemma_kept_lines_are_trimmed(parts: Seq<Seq<char>>)
    ensures
        forall|i: int|
            0 <= i < kept(parts).len() ==> {
                let line = #[trigger] kept(parts)[i];
                &&& line.len() > 0
                &&& !space(line.first())
                &&& !space(line.last())
                &&& !blank(line)
                &&& exists|k: int, from: int, to: int|
                    0 <= k < parts.len() && 0 <= from <= to <= parts[k].len() && line
                        == #[trigger] parts[k].subrange(from, to)
            },
    decreases parts.len(),
{
    if parts.len() > 0 {
        let before = parts.drop_last();
        lemma_kept_lines_are_trimmed(before);
        let part = parts.last();
        let start = trim_start(part);
        let line = trimmed(part);
        lemma_trim_start_shape(part);
        lemma_trim_end_shape(start);
        assert forall|i: int| 0 <= i < kept(parts).len() implies {
            let l = #[trigger] kept(parts)[i];
            &&& l.len() > 0
            &&& !space(l.first())
            &&& !space(l.last())
            &&& !blank(l)
            &&& exists|k: int, from: int, to: int|
                0 <= k < parts.len() && 0 <= from <= to <= parts[k].len() && l
                    == #[trigger] parts[k].subrange(from, to)
        } by {
            let l = kept(parts)[i];
            if i < kept(before).len() {
                assert(l == kept(before)[i]);
                let (k, from, to) = choose|k: int, from: int, to: int|
                    0 <= k < before.len() && 0 <= from <= to <= before[k].len() && l
                        == #[trigger] before[k].subrange(from, to);
                assert(parts[k] == before[k]);
                assert(l == parts[k].subrange(from, to));
            } else {
                assert(l == line);
                assert(l.first() == start.first());
                let from = part.len() - start.len();
                assert(l =~= part.subrange(from, from + l.len()));
                assert(l == parts[parts.len() - 1].subrange(from, from + l.len()));
            }
        }
    }
}

/// What a message teaches is never blank: each of its lines has a first and
/// a last character that are no white space, and none holds a line feed.
pub proof fn lemma_learnable_lines(text: Seq<char>)
    ensures
        forall|i: int|
            0 <= i < learnable_lines(text).len() ==> {
                let line = #[trigger] learnable_lines(text)[i];
                &&& !blank(line)
                &&& !space(line.first())
                &&& !space(line.last())
                &&& forall|j: int| 0 <= j < line.len() ==> line[j] != '\n'
            },
{
    lemma_kept_lines_are_trimmed(pieces(text));
    lemma_pieces_hold_no_line_feed(text);
    assert forall|i: int| 0 <= i < learnable_lines(text).len() implies {
        let line = #[trigger] learnable_lines(text)[i];
        &&& !blank(line)
        &&& !space(line.first())
        &&& !space(line.last())
        &&& forall|j: int| 0 <= j < line.len() ==> line[j] != '\n'
    } by {
        let line = learnable_lines(text)[i];
        let (k, from, to) = choose|k: int, from: int, to: int|
            0 <= k < pieces(text).len() && 0 <= from <= to <= pieces(text)[k].len() && line
                == #[trigger] pieces(text)[k].subrange(from, to);
        assert forall|j: int| 0 <= j < line.len() implies line[j] != '\n' by {
            assert(line[j] == pieces(text)[k][from + j]);
        }
    }
}

/// Whether `c` is white space.
pub fn is_space(c: char) -> (r: bool)
    ensures
        r == space(c),
{
    let n: u32 = c as u32;
    (0x09 <= n && n <= 0x0D) || n == 0x20 || n == 0x85 || n == 0xA0 || n == 0x1680 || (0x2000 <= n
        && n <= 0x200A) || n == 0x2028 || n == 0x2029 || n == 0x202F || n == 0x205F || n == 0x3000
}

/// Whether `s` holds nothing but white space.
pub fn is_blank(s: &str) -> (r: bool)
    ensures
        r == blank(s@),
{
    let mut all: bool = true;
    for c in it: s.chars()
        invariant
            it.seq() == s@,
            all == blank(s@.take(it.index() as int)),
    {
        proof {
            let k = it.index() as int;
            let before = s@.take(k);
            let after = s@.take(k + 1);
            assert(after[k] == c);
            assert(forall|i: int| 0 <= i < k ==> before[i] == after[i]);
            if blank(before) && space(c) {
                assert forall|i: int| 0 <= i < after.len() implies space(#[trigger] after[i]) by {
                    if i < k {
                        assert(before[i] == after[i]);
                    }
                }
            }
            if blank(after) {
                assert forall|i: int| 0 <= i < before.len() implies space(
                    #[trigger] before[i],
                ) by {
                    assert(before[i] == after[i]);
                }
            }
        }
        all = all && is_space(c);
    }
    proof {
        assert(s@.take(s@.len() as int) =~= s@);
    }
    all
}

/// The characters of `s`, in order.
pub fn chars_of(s: &str) -> (chars: Vec<char>)
    ensures
        chars@ == s@,
{
    let mut chars: Vec<char> = Vec::new();
    for c in it: s.chars()
        invariant
            it.seq() == s@,
            chars@ == s@.take(it.index() as int),
    {
        chars.push(c);
    }
    chars
}

/// Where the trimmed form of the characters from `start` up to `end` begins
/// and ends.
pub fn trim_bounds(chars: &Vec<char>, start: usize, end: usize) -> (bounds: (usize, usize))
    requires
        start <= end <= chars.len(),
    ensures
        start <= bounds.0 <= bounds.1 <= end,
        chars@.subrange(bounds.0 as int, bounds.1 as int) == trimmed(
            chars@.subrange(start as int, end as int),
        ),
{
    let mut lo: usize = start;
    while lo < end && is_space(chars[lo])
        invariant
            start <= lo <= end <= chars.len(),
            trim_start(chars@.subrange(lo as int, end as int)) == trim_start(
                chars@.subrange(start as int, end as int),
            ),
        decreases end - lo,
    {
        proof {
            let s = chars@.subrange(lo as int, end as int);
            assert(s.first() == chars@[lo as int]);
            assert(s.drop_first() =~= chars@.subrange(lo + 1, end as int));
        }
        lo = lo + 1;
    }
    proof {
        let s = chars@.subrange(lo as int, end as int);
        if lo < end {
            assert(s.first() == chars@[lo as int]);
        }
        assert(trim_start(s) == s);
    }
    let mut hi: usize = end;
    while lo < hi && is_space(chars[hi - 1])
        invariant
            lo <= hi <= end <= chars.len(),
            trim_end(chars@.subrange(lo as int, hi as int)) == trim_end(
                chars@.subrange(lo as int, end as int),
            ),
        decreases hi - lo,
    {
        proof {
            let s = chars@.subrange(lo as int, hi as int);
            assert(s.last() == chars@[hi - 1]);
            assert(s.drop_last() =~= chars@.subrange(lo as int, hi - 1));
        }
        hi = hi - 1;
    }
    proof {
        let s = chars@.subrange(lo as int, hi as int);
        if lo < hi {
            assert(s.last() == chars@[hi - 1]);
        }
        assert(trim_end(s) == s);
    }
    (lo, hi)
}

/// The lines that `text` contributes to a model: its pieces between line
/// feeds, trimmed, without the empty ones.
pub fn lines_to_learn(text: &str) -> (lines: Vec<String>)
    ensures
        views(lines@) == learnable_lines(text@),
{
    let chars = chars_of(text);
    let mut lines: Vec<String> = Vec::new();
    let mut from: usize = 0;
    let mut at: usize = 0;
    proof {
        assert(text@.take(0) =~= Seq::<char>::empty());
        assert(pieces(text@.take(0)).drop_last() =~= Seq::<Seq<char>>::empty());
        assert(text@.subrange(0, 0) =~= Seq::<char>::empty());
        assert(views(lines@) =~= Seq::<Seq<char>>::empty());
    }
    while at < chars.len()
        invariant
            chars@ == text@,
            from <= at <= chars.len(),
            pieces(text@.take(at as int)).len() >= 1,
            pieces(text@.take(at as int)).last() == text@.subrange(from as int, at as int),
            views(lines@) == kept(pieces(text@.take(at as int)).drop_last()),
        decreases chars.len() - at,
    {
        let c = chars[at];
        proof {
            let before = text@.take(at as int);
            let after = text@.take(at + 1);
            assert(after.last() == c);
            assert(after.drop_last() =~= before);
            lemma_pieces_nonempty(after);
        }
        if c == '\n' {
            let (lo, hi) = trim_bounds(&chars, from, at);
            proof {
                let before = text@.take(at as int);
                let after = text@.take(at + 1);
                assert(pieces(after) == pieces(before).push(Seq::<char>::empty()));
                assert(pieces(after).drop_last() =~= pieces(before));
                assert(pieces(before).drop_last().push(pieces(before).last()) =~= pieces(before));
                assert(text@.subrange(at + 1, at + 1) =~= Seq::<char>::empty());
            }
            if lo < hi {
                let line = text.substring_char(lo, hi).to_owned();
                let ghost old_lines = lines@;
                lines.push(line);
                proof {
                    assert(views(lines@) =~= views(old_lines).push(line@));
                }
            }
            from = at + 1;
        } else {
            proof {
                let before = text@.take(at as int);
                let after = text@.take(at + 1);
                assert(pieces(after).drop_last() =~= pieces(before).drop_last());
                assert(text@.subrange(from as int, at + 1) =~= text@.subrange(
                    from as int,
                    at as int,
                ).push(c));
            }
        }
        at = at + 1;
    }
    proof {
        assert(text@.take(at as int) =~= text@);
        let all = pieces(text@);
        assert(all.drop_last().push(all.last()) =~= all);
    }
    let (lo, hi) = trim_bounds(&chars, from, at);
    if lo < hi {
        let line = text.substring_char(lo, hi).to_owned();
        let ghost old_lines = lines@;
        lines.push(line);
        proof {
            assert(views(lines@) =~= views(old_lines).push(line@));
        }
    }
    lines
}

} // verus!
