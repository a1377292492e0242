//! One channel's view state: its reassembled log of lines, its scroll
//! position, and (for writable channels) the pending operator input line.

use vstd::prelude::*;
use vstd::string::StrSliceExecFns;
use crate::reassembly::{
    count_terminators, feed, feed_char, lemma_count_terminators_snoc, lemma_feed_snoc,
};
use crate::strings::{decode_utf8_lossy, utf8_lossy};
use crate::window::reconciled;

verus! {

/// The two channel views agree on everything but the pending input line.
pub open spec fn unchanged_but_input(a: ChannelState, b: ChannelState) -> bool {
    b.name == a.name && b.has_down == a.has_down && b.messages == a.messages && b.last_line_done
        == a.last_line_done && b.scroll_offset == a.scroll_offset
}

/// The two channel views agree on everything but the scroll offset.
pub open spec fn unchanged_but_scroll(a: ChannelState, b: ChannelState) -> bool {
    b.name == a.name && b.has_down == a.has_down && b.messages == a.messages && b.last_line_done
        == a.last_line_done && b.input == a.input
}

/// How the scroll offset moves when a chunk arrives: a view pinned to the
/// bottom stays pinned, and a view scrolled away from the bottom moves up by
/// one for every newly completed line, so the operator's position does not
/// jump.
pub open spec fn scroll_after_append(offset: usize, t: Seq<char>) -> usize {
    if offset == 0 {
        0
    } else if offset + count_terminators(t) <= usize::MAX {
        (offset + count_terminators(t)) as usize
    } else {
        usize::MAX
    }
}

/// The channel view `b` is the channel view `a` after one raw chunk of
/// `bytes` has been fed in: the log and the provisional flag advance by the
/// reassembly machine over the lossily decoded text, the scroll offset
/// keeps the operator's position, and nothing else moves.
pub open spec fn appended(a: ChannelState, b: ChannelState, bytes: Seq<u8>) -> bool {
    b.lines() == feed(a.lines(), a.last_line_done, utf8_lossy(bytes)).0 && b.last_line_done
        == feed(a.lines(), a.last_line_done, utf8_lossy(bytes)).1 && b.scroll_offset
        == scroll_after_append(a.scroll_offset, utf8_lossy(bytes)) && b.name == a.name
        && b.has_down == a.has_down && b.input == a.input
}

/// One remote channel as the operator sees it.
pub struct ChannelState {
    /// Human-readable channel name, if the device gave one.
    pub name: Option<String>,
    /// Whether a paired down channel exists, so that the input line and
    /// submits are active.
    pub has_down: bool,
    /// The reassembled log of completed lines, in arrival order; the last
    /// entry is provisional while no terminator has closed it.
    pub messages: Vec<String>,
    /// Whether the last log entry has been closed by a line terminator.
    pub last_line_done: bool,
    /// Accumulated, un-submitted operator keystrokes.
    pub input: String,
    /// How many lines the view is scrolled up from the bottom; zero means
    /// pinned to the bottom.
    pub scroll_offset: usize,
}

impl ChannelState {
    /// The log as a sequence of line texts.
    pub open spec fn lines(&self) -> Seq<Seq<char>> {
        self.messages@.map_values(|m: String| m@)
    }

    /// A fresh channel view: empty log, empty input, pinned to the bottom.
    pub fn new(name: Option<String>, has_down: bool) -> (r: ChannelState)
        ensures
            r.name == name,
            r.has_down == has_down,
            r.lines() == Seq::<Seq<char>>::empty(),
            r.last_line_done == false,
            r.input@ == Seq::<char>::empty(),
            r.scroll_offset == 0,
    {
        let r = ChannelState {
            name,
            has_down,
            messages: Vec::new(),
            last_line_done: false,
            input: String::new(),
            scroll_offset: 0,
        };
        proof {
            assert(r.lines() =~= Seq::<Seq<char>>::empty());
        }
        r
    }

    /// Feeds one chunk of already-decoded text into the log, reassembling
    /// lines across chunk boundaries, and keeps the operator's relative view
    /// position when scrolled away from the bottom.
    pub fn append_str(&mut self, t: &str)
        ensures
            final(self).lines() == feed(old(self).lines(), old(self).last_line_done, t@).0,
            final(self).last_line_done == feed(old(self).lines(), old(self).last_line_done, t@).1,
            final(self).scroll_offset == scroll_after_append(old(self).scroll_offset, t@),
            final(self).name == old(self).name,
            final(self).has_down == old(self).has_down,
            final(self).input == old(self).input,
    {
        let len = t.unicode_len();
        let mut i: usize = 0;
        let mut completed: usize = 0;
        while i < len
            invariant
                i <= len,
                len == t@.len(),
                completed == count_terminators(t@.take(i as int)),
                completed <= i,
                self.lines() == feed(old(self).lines(), old(self).last_line_done, t@.take(i as int)).0,
                self.last_line_done == feed(
                    old(self).lines(),
                    old(self).last_line_done,
                    t@.take(i as int),
                ).1,
                self.scroll_offset == old(self).scroll_offset,
                self.name == old(self).name,
                self.has_down == old(self).has_down,
                self.input == old(self).input,
            decreases len - i,
        {
            let ghost prev_lines = self.lines();
            let ghost prev_done = self.last_line_done;
            let c = t.get_char(i);
            proof {
                assert(t@.take(i as int).push(t@[i as int]) =~= t@.take(i + 1 as int));
                lemma_feed_snoc(
                    old(self).lines(),
                    old(self).last_line_done,
                    t@.take(i as int),
                    t@[i as int],
                );
                lemma_count_terminators_snoc(t@.take(i as int), t@[i as int]);
            }
            if c == '\n' {
                if !self.last_line_done && self.messages.len() > 0 {
                    self.last_line_done = true;
                } else {
                    self.messages.push(String::new());
                    self.last_line_done = true;
                    proof {
                        assert(self.lines() =~~= prev_lines.push(Seq::<char>::empty()));
                    }
                }
                completed = completed + 1;
            } else {
                if !self.last_line_done && self.messages.len() > 0 {
                    let m = self.messages.len() - 1;
                    self.messages[m].push(c);
                    proof {
                        assert(self.lines() =~~= prev_lines.update(
                            prev_lines.len() - 1,
                            prev_lines.last().push(c),
                        ));
                    }
                } else {
                    let mut line = String::new();
                    line.push(c);
                    self.messages.push(line);
                    self.last_line_done = false;
                    proof {
                        assert(self.lines() =~~= prev_lines.push(seq![c]));
                    }
                }
            }
            i = i + 1;
            proof {
                assert(self.lines() == feed_char(prev_lines, prev_done, t@[i - 1]).0);
            }
        }
        proof {
            assert(t@.take(len as int) =~= t@);
        }
        if self.scroll_offset != 0 {
            self.scroll_offset = self.scroll_offset.saturating_add(completed);
        }
    }

    /// Feeds one raw chunk as read from the transport: the bytes are decoded
    /// lossily, so a malformed stream never stops the channel, and the
    /// decoded text is reassembled into lines.
    pub fn append_bytes(&mut self, bytes: &[u8])
        ensures
            final(self).lines() == feed(
                old(self).lines(),
                old(self).last_line_done,
                utf8_lossy(bytes@),
            ).0,
            final(self).last_line_done == feed(
                old(self).lines(),
                old(self).last_line_done,
                utf8_lossy(bytes@),
            ).1,
            final(self).scroll_offset == scroll_after_append(
                old(self).scroll_offset,
                utf8_lossy(bytes@),
            ),
            final(self).name == old(self).name,
            final(self).has_down == old(self).has_down,
            final(self).input == old(self).input,
    {
        let s = decode_utf8_lossy(bytes);
        self.append_str(s.as_str());
    }

    /// Appends one typed character to the pending input line; a channel
    /// without a down channel takes no input.
    pub fn type_char(&mut self, c: char)
        ensures
            old(self).has_down ==> final(self).input@ == old(self).input@.push(c),
            !old(self).has_down ==> final(self).input == old(self).input,
            final(self).name == old(self).name,
            final(self).has_down == old(self).has_down,
            final(self).messages == old(self).messages,
            final(self).last_line_done == old(self).last_line_done,
            final(self).scroll_offset == old(self).scroll_offset,
    {
        if self.has_down {
            self.input.push(c);
        }
    }

    /// Deletes the last pending input character; on an empty input line, or
    /// a channel without a down channel, this is a no-op.
    pub fn backspace(&mut self)
        ensures
            old(self).has_down && old(self).input@.len() > 0 ==> final(self).input@ == old(
                self,
            ).input@.drop_last(),
            !(old(self).has_down && old(self).input@.len() > 0) ==> final(self).input@ == old(
                self,
            ).input@,
            final(self).name == old(self).name,
            final(self).has_down == old(self).has_down,
            final(self).messages == old(self).messages,
            final(self).last_line_done == old(self).last_line_done,
            final(self).scroll_offset == old(self).scroll_offset,
    {
        if self.has_down {
            let _ = self.input.pop();
        }
    }

    /// Scrolls one line away from the bottom; growth is unbounded and only
    /// windowing clamps what is shown.
    pub fn scroll_up(&mut self)
        ensures
            final(self).scroll_offset == if old(self).scroll_offset < usize::MAX {
                old(self).scroll_offset + 1
            } else {
                old(self).scroll_offset as int
            },
            final(self).name == old(self).name,
            final(self).has_down == old(self).has_down,
            final(self).messages == old(self).messages,
            final(self).last_line_done == old(self).last_line_done,
            final(self).input == old(self).input,
    {
        self.scroll_offset = self.scroll_offset.saturating_add(1);
    }

    /// Scrolls one line back toward the bottom; at the bottom this is a
    /// no-op, never an error.
    pub fn scroll_down(&mut self)
        ensures
            final(self).scroll_offset == if old(self).scroll_offset > 0 {
                old(self).scroll_offset - 1
            } else {
                0
            },
            final(self).name == old(self).name,
            final(self).has_down == old(self).has_down,
            final(self).messages == old(self).messages,
            final(self).last_line_done == old(self).last_line_done,
            final(self).input == old(self).input,
    {
        if self.scroll_offset > 0 {
            self.scroll_offset = self.scroll_offset - 1;
        }
    }

    /// Reconciles the scroll offset with the freshest log length, once per
    /// render cycle: when the log is too short for the offset, the offset is
    /// clamped down so the view never shows blank padding above the log.
    pub fn reconcile_scroll(&mut self, height: usize)
        ensures
            final(self).scroll_offset == reconciled(
                old(self).lines().len() as int,
                old(self).scroll_offset as int,
                height as int,
            ),
            unchanged_but_scroll(*old(self), *final(self)),
    {
        let n = self.messages.len();
        if !(height <= n && self.scroll_offset <= n - height) {
            self.scroll_offset = if height <= n {
                n - height
            } else {
                0
            };
        }
    }

    /// What a submit would send: the pending input plus the line terminator.
    /// A channel without a down channel submits nothing.
    pub fn submission(&self) -> (r: Option<String>)
        ensures
            self.has_down <==> r is Some,
            self.has_down ==> r->Some_0@ == self.input@.push('\n'),
    {
        if self.has_down {
            let mut s = self.input.clone();
            s.push('\n');
            Some(s)
        } else {
            None
        }
    }

    /// Finishes a submit once the transport write has been attempted: only a
    /// delivered write clears the pending input; on a failed write every
    /// keystroke is preserved so the operator can submit again.
    pub fn push_rtt(&mut self, delivered: bool)
        ensures
            old(self).has_down && delivered ==> final(self).input@ == Seq::<char>::empty(),
            !(old(self).has_down && delivered) ==> final(self).input == old(self).input,
            final(self).name == old(self).name,
            final(self).has_down == old(self).has_down,
            final(self).messages == old(self).messages,
            final(self).last_line_done == old(self).last_line_done,
            final(self).scroll_offset == old(self).scroll_offset,
    {
        if self.has_down && delivered {
            self.input = String::new();
        }
    }
}

/// Appending an empty chunk is a no-op: neither the log, nor the
/// provisional flag, nor the scroll offset changes.
pub proof fn lemma_empty_append_no_op(lines: Seq<Seq<char>>, done: bool, offset: usize)
    ensures
        feed(lines, done, Seq::<char>::empty()).0 == lines,
        feed(lines, done, Seq::<char>::empty()).1 == done,
        scroll_after_append(offset, Seq::<char>::empty()) == offset,
{
}

} // verus!
