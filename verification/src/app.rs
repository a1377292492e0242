//! The application state: the ordered collection of channel views, the
//! active tab, and the three driving operations of the run loop — polling
//! raw chunks into every channel, computing one frame to draw, and handling
//! one operator event.

use vstd::prelude::*;
use crate::channel::{appended, unchanged_but_input, unchanged_but_scroll, ChannelState};
use crate::strings::{display_width, text_display_width};
use crate::window::{reconciled, visible_slice, window_end, window_start};

verus! {

/// One operator event, as the input watcher delivers it.
#[derive(Clone, Copy)]
pub enum AppEvent {
    /// The quit signal.
    Quit,
    /// A function key: select the tab with this 1-indexed number.
    SelectTab(usize),
    /// A printable character; the line terminator means submit.
    Character(char),
    /// Delete the last pending input character.
    Backspace,
    /// Scroll the active channel one line away from the bottom.
    ScrollUp,
    /// Scroll the active channel one line back toward the bottom.
    ScrollDown,
    /// Any other event: ignored.
    Other,
}

/// What the run loop must do after an event has been handled.
pub enum EventReply {
    /// Leave the loop and shut down.
    Exit,
    /// Write this text to the active channel's down channel, then report
    /// the outcome through `App::push_rtt`.
    Send(String),
    /// Nothing: keep running.
    Continue,
}

/// Everything one render cycle must draw, computed from the state; the
/// drawing itself happens outside.
pub struct Frame {
    /// One title per tab, in order.
    pub tab_names: Vec<String>,
    /// The index of the highlighted tab.
    pub selected: usize,
    /// The visible slice of the active channel's log, top to bottom.
    pub lines: Vec<String>,
    /// The pending input line, when the active channel accepts input.
    pub input: Option<String>,
    /// The terminal columns the pending input occupies, for placing the
    /// cursor after it; zero when there is no input line.
    pub input_width: usize,
}

/// The display title of a channel: its name, or a placeholder.
pub open spec fn tab_title(name: Option<String>) -> Seq<char> {
    match name {
        Option::Some(s) => s@,
        Option::None => "Unnamed Channel"@,
    }
}

/// The application state: every channel view, and which one is active.
pub struct App {
    /// The channel views, one per tab, in display order; fixed for the run.
    pub tabs: Vec<ChannelState>,
    /// The index of the active tab.
    pub current_tab: usize,
}

impl App {
    /// The active tab is a valid index; the collection is never empty.
    pub open spec fn wf(&self) -> bool {
        (self.current_tab as int) < self.tabs@.len()
    }

    /// A fresh application over the given channel views, with the first tab
    /// active.
    pub fn new(tabs: Vec<ChannelState>) -> (r: App)
        requires
            tabs@.len() > 0,
        ensures
            r.tabs == tabs,
            r.current_tab == 0,
            r.wf(),
    {
        App { tabs, current_tab: 0 }
    }

    /// Feeds this cycle's raw chunk of every channel into its view: chunk
    /// `j` goes to channel `j`. A channel that had no data this cycle gets
    /// an empty chunk, which changes nothing.
    pub fn poll_rtt(&mut self, chunks: &Vec<Vec<u8>>)
        requires
            old(self).wf(),
            chunks@.len() == old(self).tabs@.len(),
        ensures
            final(self).wf(),
            final(self).current_tab == old(self).current_tab,
            final(self).tabs@.len() == old(self).tabs@.len(),
            forall|j: int|
                0 <= j < old(self).tabs@.len() ==> #[trigger] appended(
                    old(self).tabs@[j],
                    final(self).tabs@[j],
                    chunks@[j]@,
                ),
    {
        let mut j: usize = 0;
        while j < self.tabs.len()
            invariant
                old(self).wf(),
                self.current_tab == old(self).current_tab,
                self.tabs@.len() == old(self).tabs@.len(),
                chunks@.len() == old(self).tabs@.len(),
                j <= self.tabs@.len(),
                forall|k: int|
                    0 <= k < j ==> #[trigger] appended(
                        old(self).tabs@[k],
                        self.tabs@[k],
                        chunks@[k]@,
                    ),
                forall|k: int| j <= k < self.tabs@.len() ==> self.tabs@[k] == old(self).tabs@[k],
            decreases self.tabs@.len() - j,
        {
            self.tabs[j].append_bytes(chunks[j].as_slice());
            j = j + 1;
        }
    }

    /// Computes everything the terminal must show this cycle — tab titles,
    /// the visible window of the active channel's log, and the pending
    /// input line with its cursor width — and then reconciles the active
    /// channel's scroll offset with the freshest log length.
    pub fn render(&mut self, height: usize) -> (r: Frame)
        requires
            old(self).wf(),
        ensures
            final(self).wf(),
            final(self).current_tab == old(self).current_tab,
            final(self).tabs@.len() == old(self).tabs@.len(),
            forall|j: int|
                0 <= j < old(self).tabs@.len() && j != old(self).current_tab as int ==> final(self).tabs@[j] == old(self).tabs@[j],
            unchanged_but_scroll(
                old(self).tabs@[old(self).current_tab as int],
                final(self).tabs@[old(self).current_tab as int],
            ),
            final(self).tabs@[old(self).current_tab as int].scroll_offset == reconciled(
                old(self).tabs@[old(self).current_tab as int].messages@.len() as int,
                old(self).tabs@[old(self).current_tab as int].scroll_offset as int,
                height as int,
            ),
            r.selected == old(self).current_tab,
            r.tab_names@.len() == old(self).tabs@.len(),
            forall|j: int|
                0 <= j < old(self).tabs@.len() ==> (#[trigger] r.tab_names@[j])@ == tab_title(
                    old(self).tabs@[j].name,
                ),
            r.lines@ == old(self).tabs@[old(self).current_tab as int].messages@.subrange(
                window_start(
                    old(self).tabs@[old(self).current_tab as int].messages@.len() as int,
                    old(self).tabs@[old(self).current_tab as int].scroll_offset as int,
                    height as int,
                ),
                window_end(
                    old(self).tabs@[old(self).current_tab as int].messages@.len() as int,
                    old(self).tabs@[old(self).current_tab as int].scroll_offset as int,
                    height as int,
                ),
            ),
            old(self).tabs@[old(self).current_tab as int].has_down <==> r.input is Some,
            old(self).tabs@[old(self).current_tab as int].has_down ==> r.input->Some_0 == old(self).tabs@[old(self).current_tab as int].input && r.input_width == display_width(
                old(self).tabs@[old(self).current_tab as int].input@,
            ),
            !old(self).tabs@[old(self).current_tab as int].has_down ==> r.input_width == 0,
    {
        let ct = self.current_tab;
        let mut tab_names: Vec<String> = Vec::new();
        let mut j: usize = 0;
        while j < self.tabs.len()
            invariant
                self.tabs == old(self).tabs,
                self.current_tab == old(self).current_tab,
                j <= self.tabs@.len(),
                tab_names@.len() == j,
                forall|k: int|
                    0 <= k < j ==> (#[trigger] tab_names@[k])@ == tab_title(self.tabs@[k].name),
            decreases self.tabs@.len() - j,
        {
            let nm = match &self.tabs[j].name {
                Some(s) => s.clone(),
                None => "Unnamed Channel".to_owned(),
            };
            tab_names.push(nm);
            j = j + 1;
        }
        let lines = visible_slice(
            &self.tabs[ct].messages,
            self.tabs[ct].scroll_offset,
            height,
        );
        let has_down = self.tabs[ct].has_down;
        let input: Option<String> = if has_down {
            Some(self.tabs[ct].input.clone())
        } else {
            None
        };
        let input_width: usize = if has_down {
            text_display_width(self.tabs[ct].input.as_str())
        } else {
            0
        };
        self.tabs[ct].reconcile_scroll(height);
        Frame { tab_names, selected: ct, lines, input, input_width }
    }

    /// Selects the tab at this 0-indexed position; an out-of-range request
    /// is silently ignored, never an error.
    pub fn select(&mut self, n: usize)
        requires
            old(self).wf(),
        ensures
            final(self).wf(),
            final(self).tabs == old(self).tabs,
            n < old(self).tabs@.len() ==> final(self).current_tab == n,
            n >= old(self).tabs@.len() ==> final(self).current_tab == old(self).current_tab,
    {
        if n < self.tabs.len() {
            self.current_tab = n;
        }
    }

    /// The active channel view, for routing input and rendering.
    pub fn active(&self) -> (r: &ChannelState)
        requires
            self.wf(),
        ensures
            r == self.tabs@[self.current_tab as int],
    {
        &self.tabs[self.current_tab]
    }

    /// Routes one operator event: quit exits; a function key selects a tab
    /// and an out-of-range selection is silently ignored; the line
    /// terminator asks for a submit of the active channel's pending input;
    /// any other printable character, backspace, and the scroll keys edit
    /// the active channel; everything else is ignored.
    pub fn handle_event(&mut self, ev: AppEvent) -> (r: EventReply)
        requires
            old(self).wf(),
        ensures
            final(self).wf(),
            final(self).tabs@.len() == old(self).tabs@.len(),
            forall|j: int|
                0 <= j < old(self).tabs@.len() && j != old(self).current_tab as int ==> final(self).tabs@[j] == old(self).tabs@[j],
            r is Exit <==> ev is Quit,
            !(ev matches AppEvent::SelectTab(_)) ==> final(self).current_tab == old(self).current_tab,
            ev is Quit ==> final(self).tabs == old(self).tabs,
            ev matches AppEvent::SelectTab(n) ==> final(self).tabs == old(self).tabs && r
                is Continue && (if 1 <= n && n <= old(self).tabs@.len() {
                final(self).current_tab == n - 1
            } else {
                final(self).current_tab == old(self).current_tab
            }),
            ev matches AppEvent::Character(c) ==> (if c == '\n' {
                final(self).tabs == old(self).tabs && (if old(self).tabs@[old(self).current_tab as int].has_down {
                    r matches EventReply::Send(m) && m@ == old(self).tabs@[old(self).current_tab as int].input@.push('\n')
                } else {
                    r is Continue
                })
            } else {
                r is Continue && unchanged_but_input(
                    old(self).tabs@[old(self).current_tab as int],
                    final(self).tabs@[old(self).current_tab as int],
                ) && (if old(self).tabs@[old(self).current_tab as int].has_down {
                    final(self).tabs@[old(self).current_tab as int].input@ == old(self).tabs@[old(self).current_tab as int].input@.push(c)
                } else {
                    final(self).tabs@[old(self).current_tab as int].input == old(self).tabs@[old(self).current_tab as int].input
                })
            }),
            ev is Backspace ==> r is Continue && unchanged_but_input(
                old(self).tabs@[old(self).current_tab as int],
                final(self).tabs@[old(self).current_tab as int],
            ) && (if old(self).tabs@[old(self).current_tab as int].has_down && old(self).tabs@[old(self).current_tab as int].input@.len() > 0 {
                final(self).tabs@[old(self).current_tab as int].input@ == old(self).tabs@[old(self).current_tab as int].input@.drop_last()
            } else {
                final(self).tabs@[old(self).current_tab as int].input@ == old(self).tabs@[old(self).current_tab as int].input@
            }),
            ev is ScrollUp ==> r is Continue && unchanged_but_scroll(
                old(self).tabs@[old(self).current_tab as int],
                final(self).tabs@[old(self).current_tab as int],
            ) && final(self).tabs@[old(self).current_tab as int].scroll_offset as int == (if old(self).tabs@[old(self).current_tab as int].scroll_offset < usize::MAX {
                old(self).tabs@[old(self).current_tab as int].scroll_offset + 1
            } else {
                old(self).tabs@[old(self).current_tab as int].scroll_offset as int
            }),
            ev is ScrollDown ==> r is Continue && unchanged_but_scroll(
                old(self).tabs@[old(self).current_tab as int],
                final(self).tabs@[old(self).current_tab as int],
            ) && final(self).tabs@[old(self).current_tab as int].scroll_offset as int == (if old(self).tabs@[old(self).current_tab as int].scroll_offset > 0 {
                old(self).tabs@[old(self).current_tab as int].scroll_offset - 1
            } else {
                0
            }),
            ev is Other ==> r is Continue && final(self).tabs == old(self).tabs,
    {
        match ev {
            AppEvent::Quit => EventReply::Exit,
            AppEvent::SelectTab(n) => {
                if n >= 1 {
                    self.select(n - 1);
                }
                EventReply::Continue
            },
            AppEvent::Character(c) => {
                if c == '\n' {
                    let ct = self.current_tab;
                    match self.tabs[ct].submission() {
                        Some(m) => EventReply::Send(m),
                        None => EventReply::Continue,
                    }
                } else {
                    let ct = self.current_tab;
                    self.tabs[ct].type_char(c);
                    EventReply::Continue
                }
            },
            AppEvent::Backspace => {
                let ct = self.current_tab;
                self.tabs[ct].backspace();
                EventReply::Continue
            },
            AppEvent::ScrollUp => {
                let ct = self.current_tab;
                self.tabs[ct].scroll_up();
                EventReply::Continue
            },
            AppEvent::ScrollDown => {
                let ct = self.current_tab;
                self.tabs[ct].scroll_down();
                EventReply::Continue
            },
            AppEvent::Other => EventReply::Continue,
        }
    }

    /// Finishes a submit of the active channel once the transport write has
    /// been attempted: only a delivered write clears its pending input; a
    /// failed write preserves every keystroke.
    pub fn push_rtt(&mut self, delivered: bool)
        requires
            old(self).wf(),
        ensures
            final(self).wf(),
            final(self).current_tab == old(self).current_tab,
            final(self).tabs@.len() == old(self).tabs@.len(),
            forall|j: int|
                0 <= j < old(self).tabs@.len() && j != old(self).current_tab as int ==> final(self).tabs@[j] == old(self).tabs@[j],
            unchanged_but_input(
                old(self).tabs@[old(self).current_tab as int],
                final(self).tabs@[old(self).current_tab as int],
            ),
            old(self).tabs@[old(self).current_tab as int].has_down && delivered ==> final(self).tabs@[old(self).current_tab as int].input@ == Seq::<char>::empty(),
            !(old(self).tabs@[old(self).current_tab as int].has_down && delivered) ==> final(self).tabs@[old(self).current_tab as int].input == old(self).tabs@[old(self).current_tab as int].input,
    {
        let ct = self.current_tab;
        self.tabs[ct].push_rtt(delivered);
    }
}

} // verus!
