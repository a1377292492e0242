//! The streaming line-reassembly model: how a channel's log of text lines
//! grows as arbitrarily chunked text arrives.
//!
//! The model is a small machine over `(lines, done)`: `lines` is the ordered
//! log, and `done` says whether the last log entry has been closed by a line
//! terminator (`false` means the last entry is provisional and will be
//! extended by the next chunk).

use vstd::prelude::*;

verus! {

/// One step of the reassembly machine: the effect of a single incoming
/// character on the log.
///
/// A terminator closes the provisional last line if there is one, and
/// otherwise contributes an empty completed line. Any other character
/// extends the provisional last line, or opens a new provisional line.
pub open spec fn feed_char(
    lines: Seq<Seq<char>>,
    done: bool,
    c: char,
) -> (Seq<Seq<char>>, bool) {
    if c == '\n' {
        if !done && lines.len() > 0 {
            (lines, true)
        } else {
            (lines.push(Seq::empty()), true)
        }
    } else {
        if !done && lines.len() > 0 {
            (lines.update(lines.len() - 1, lines.last().push(c)), false)
        } else {
            (lines.push(seq![c]), false)
        }
    }
}

/// The effect of a whole chunk of text on the log: each character in order.
pub open spec fn feed(lines: Seq<Seq<char>>, done: bool, t: Seq<char>) -> (Seq<Seq<char>>, bool)
    decreases t.len(),
{
    if t.len() == 0 {
        (lines, done)
    } else {
        let stepped = feed_char(lines, done, t[0]);
        feed(stepped.0, stepped.1, t.drop_first())
    }
}

/// Feeding one more character at the end of a chunk is one more step.
pub proof fn lemma_feed_snoc(lines: Seq<Seq<char>>, done: bool, t: Seq<char>, c: char)
    ensures
        feed(lines, done, t.push(c)).0 == feed_char(
            feed(lines, done, t).0,
            feed(lines, done, t).1,
            c,
        ).0,
        feed(lines, done, t.push(c)).1 == feed_char(
            feed(lines, done, t).0,
            feed(lines, done, t).1,
            c,
        ).1,
    decreases t.len(),
{
    if t.len() == 0 {
        reveal_with_fuel(feed, 2);
        assert(t.push(c)[0] == c);
        assert(t.push(c).drop_first() =~= Seq::<char>::empty());
        assert(feed(lines, done, t.push(c)).0 == feed_char(lines, done, c).0);
        assert(feed(lines, done, t.push(c)).1 == feed_char(lines, done, c).1);
    } else {
        let stepped = feed_char(lines, done, t[0]);
        assert(t.push(c)[0] == t[0]);
        assert(t.push(c).drop_first() =~= t.drop_first().push(c));
        lemma_feed_snoc(stepped.0, stepped.1, t.drop_first(), c);
    }
}

/// Splitting a chunk anywhere does not change the outcome: feeding the two
/// halves one after the other equals feeding their concatenation.
pub proof fn lemma_feed_concat(lines: Seq<Seq<char>>, done: bool, a: Seq<char>, b: Seq<char>)
    ensures
        feed(lines, done, a + b).0 == feed(feed(lines, done, a).0, feed(lines, done, a).1, b).0,
        feed(lines, done, a + b).1 == feed(feed(lines, done, a).0, feed(lines, done, a).1, b).1,
    decreases a.len(),
{
    if a.len() == 0 {
        assert(a + b =~= b);
    } else {
        let stepped = feed_char(lines, done, a[0]);
        assert((a + b)[0] == a[0]);
        assert((a + b).drop_first() =~= a.drop_first() + b);
        lemma_feed_concat(stepped.0, stepped.1, a.drop_first(), b);
    }
}

/// The number of line terminators in a chunk of text.
pub open spec fn count_terminators(t: Seq<char>) -> nat
    decreases t.len(),
{
    if t.len() == 0 {
        0
    } else {
        (if t[0] == '\n' {
            1nat
        } else {
            0nat
        }) + count_terminators(t.drop_first())
    }
}

/// One more character at the end of a chunk is one more terminator, or none.
pub proof fn lemma_count_terminators_snoc(t: Seq<char>, c: char)
    ensures
        count_terminators(t.push(c)) == count_terminators(t) + if c == '\n' {
            1nat
        } else {
            0nat
        },
    decreases t.len(),
{
    if t.len() == 0 {
        reveal_with_fuel(count_terminators, 2);
        assert(t.push(c)[0] == c);
        assert(t.push(c).drop_first() =~= Seq::<char>::empty());
    } else {
        assert(t.push(c)[0] == t[0]);
        assert(t.push(c).drop_first() =~= t.drop_first().push(c));
        lemma_count_terminators_snoc(t.drop_first(), c);
    }
}

/// How many entries of the log are completed lines: all of them, or all but
/// the provisional last one.
pub open spec fn completed_lines(lines: Seq<Seq<char>>, done: bool) -> nat {
    if lines.len() == 0 {
        0
    } else if done {
        lines.len()
    } else {
        (lines.len() - 1) as nat
    }
}

/// Each terminator in a chunk completes exactly one line, and nothing else
/// completes any: the completed-line count grows by the terminator count.
pub proof fn lemma_feed_completed(lines: Seq<Seq<char>>, done: bool, t: Seq<char>)
    ensures
        completed_lines(feed(lines, done, t).0, feed(lines, done, t).1) == completed_lines(
            lines,
            done,
        ) + count_terminators(t),
    decreases t.len(),
{
    if t.len() == 0 {
    } else {
        let stepped = feed_char(lines, done, t[0]);
        lemma_feed_completed(stepped.0, stepped.1, t.drop_first());
    }
}

/// No log entry holds an embedded line terminator.
pub open spec fn terminator_free(lines: Seq<Seq<char>>) -> bool {
    forall|i: int, j: int|
        0 <= i < lines.len() && 0 <= j < lines[i].len() ==> lines[i][j] != '\n'
}

/// Reassembly never embeds a terminator in a log entry: terminators only
/// ever close lines.
pub proof fn lemma_feed_terminator_free(lines: Seq<Seq<char>>, done: bool, t: Seq<char>)
    requires
        terminator_free(lines),
    ensures
        terminator_free(feed(lines, done, t).0),
    decreases t.len(),
{
    if t.len() == 0 {
    } else {
        let stepped = feed_char(lines, done, t[0]);
        assert(terminator_free(stepped.0));
        lemma_feed_terminator_free(stepped.0, stepped.1, t.drop_first());
    }
}

/// Splitting a text on the line terminator: every terminator closes the
/// piece before it; a trailing piece without a terminator is kept, while a
/// trailing terminator adds no empty piece.
pub open spec fn split_lines(t: Seq<char>) -> Seq<Seq<char>>
    decreases t.len(),
{
    if t.len() == 0 {
        Seq::empty()
    } else if t[0] == '\n' {
        seq![Seq::<char>::empty()] + split_lines(t.drop_first())
    } else {
        let rest = split_lines(t.drop_first());
        if rest.len() == 0 {
            seq![seq![t[0]]]
        } else {
            seq![seq![t[0]] + rest[0]] + rest.drop_first()
        }
    }
}

/// A text splits into at least one piece exactly when it is nonempty.
pub proof fn lemma_split_lines_len(t: Seq<char>)
    ensures
        split_lines(t).len() == 0 <==> t.len() == 0,
{
}

/// How one more character at the end of a text changes its split: a
/// terminator closes the open piece or contributes an empty one; any other
/// character extends the open piece or opens a new one.
pub proof fn lemma_split_lines_snoc(t: Seq<char>, c: char)
    ensures
        c == '\n' && t.len() > 0 && t.last() != '\n' ==> split_lines(t.push(c)) == split_lines(t),
        c == '\n' && !(t.len() > 0 && t.last() != '\n') ==> split_lines(t.push(c))
            == split_lines(t).push(Seq::empty()),
        c != '\n' && t.len() > 0 && t.last() != '\n' ==> split_lines(t.push(c)) == split_lines(
            t,
        ).update(split_lines(t).len() - 1, split_lines(t).last().push(c)),
        c != '\n' && !(t.len() > 0 && t.last() != '\n') ==> split_lines(t.push(c)) == split_lines(
            t,
        ).push(seq![c]),
    decreases t.len(),
{
    if t.len() == 0 {
        assert(t.push(c)[0] == c);
        assert(t.push(c).drop_first() =~= Seq::<char>::empty());
        reveal_with_fuel(split_lines, 2);
        if c == '\n' {
            assert(split_lines(t.push(c)) =~~= split_lines(t).push(Seq::empty()));
        } else {
            assert(split_lines(t.push(c)) =~~= split_lines(t).push(seq![c]));
        }
    } else {
        let t2 = t.drop_first();
        let s = t.push(c);
        assert(s[0] == t[0]);
        assert(s.drop_first() =~= t2.push(c));
        lemma_split_lines_snoc(t2, c);
        lemma_split_lines_len(t2);
        lemma_split_lines_len(t2.push(c));
        if t2.len() > 0 {
            assert(t.last() == t2.last());
        } else {
            assert(t.last() == t[0]);
            assert(t2.push(c)[0] == c);
            assert(t2.push(c).drop_first() =~= Seq::<char>::empty());
        }
        let rest = split_lines(t2);
        let rest2 = split_lines(t2.push(c));
        if t[0] == '\n' {
            if c == '\n' && t.last() != '\n' {
                assert(split_lines(s) =~~= split_lines(t));
            } else if c == '\n' {
                assert(split_lines(s) =~~= split_lines(t).push(Seq::empty()));
            } else if t.last() != '\n' {
                assert(split_lines(t).len() == rest.len() + 1);
                assert(split_lines(s) =~~= split_lines(t).update(
                    split_lines(t).len() - 1,
                    split_lines(t).last().push(c),
                ));
            } else {
                assert(split_lines(s) =~~= split_lines(t).push(seq![c]));
            }
        } else {
            if c == '\n' && t.last() != '\n' {
                assert(split_lines(s) =~~= split_lines(t));
            } else if c == '\n' {
                assert(split_lines(s) =~~= split_lines(t).push(Seq::empty()));
            } else if t.last() != '\n' {
                assert(split_lines(s) =~~= split_lines(t).update(
                    split_lines(t).len() - 1,
                    split_lines(t).last().push(c),
                ));
            } else {
                assert(split_lines(s) =~~= split_lines(t).push(seq![c]));
            }
        }
    }
}

/// Reassembling a whole text on a fresh channel yields exactly its split on
/// the terminator, and the last entry stays provisional exactly when the
/// text does not end with a terminator.
pub proof fn lemma_feed_fresh_is_split(done: bool, t: Seq<char>)
    ensures
        feed(Seq::empty(), done, t).0 == split_lines(t),
        feed(Seq::empty(), done, t).1 == if t.len() == 0 {
            done
        } else {
            t.last() == '\n'
        },
    decreases t.len(),
{
    if t.len() == 0 {
    } else {
        let u = t.drop_last();
        let c = t.last();
        assert(u.push(c) =~= t);
        lemma_feed_fresh_is_split(done, u);
        lemma_feed_snoc(Seq::empty(), done, u, c);
        lemma_split_lines_snoc(u, c);
        lemma_split_lines_len(u);
    }
}

/// The total text of a run: all chunks concatenated in arrival order.
pub open spec fn concat_chunks(chunks: Seq<Seq<char>>) -> Seq<char>
    decreases chunks.len(),
{
    if chunks.len() == 0 {
        Seq::empty()
    } else {
        chunks[0] + concat_chunks(chunks.drop_first())
    }
}

/// The log state after a sequence of chunk appends.
pub open spec fn feed_chunks(
    lines: Seq<Seq<char>>,
    done: bool,
    chunks: Seq<Seq<char>>,
) -> (Seq<Seq<char>>, bool)
    decreases chunks.len(),
{
    if chunks.len() == 0 {
        (lines, done)
    } else {
        let stepped = feed(lines, done, chunks[0]);
        feed_chunks(stepped.0, stepped.1, chunks.drop_first())
    }
}

/// A sequence of chunk appends is one append of the concatenation.
pub proof fn lemma_feed_chunks_concat(lines: Seq<Seq<char>>, done: bool, chunks: Seq<Seq<char>>)
    ensures
        feed_chunks(lines, done, chunks).0 == feed(lines, done, concat_chunks(chunks)).0,
        feed_chunks(lines, done, chunks).1 == feed(lines, done, concat_chunks(chunks)).1,
    decreases chunks.len(),
{
    if chunks.len() == 0 {
    } else {
        let stepped = feed(lines, done, chunks[0]);
        lemma_feed_chunks_concat(stepped.0, stepped.1, chunks.drop_first());
        lemma_feed_concat(lines, done, chunks[0], concat_chunks(chunks.drop_first()));
    }
}

/// Reassembly is chunk-boundary-invariant: however a channel's text is cut
/// into chunks, appending the chunks in order to a fresh channel produces
/// exactly the split of the concatenated text.
pub proof fn lemma_chunk_boundary_invariance(done: bool, chunks: Seq<Seq<char>>)
    ensures
        feed_chunks(Seq::empty(), done, chunks).0 == split_lines(concat_chunks(chunks)),
{
    lemma_feed_chunks_concat(Seq::empty(), done, chunks);
    lemma_feed_fresh_is_split(done, concat_chunks(chunks));
}

} // verus!
