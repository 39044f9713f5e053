//! The decisions of the narration loop: which passage comes next, when to ask the
//! source for more text, whether a change of speaker needs a pause, and the index
//! each chunk is emitted under. The loop itself (the source, the director, the
//! actor and the audio) is driven by the caller.

use vstd::prelude::*;
use crate::segmenter::{grouped, sentences, split_sentences, NarrationGrouping};
use crate::tagger::opt_chars;
use crate::text::str_eq;

verus! {

/// The state of a narration session.
pub struct NarrationQueue {
    /// Chunks handed to the listener.
    pub emitted: u32,
    /// Chunks rendered ahead of the listener.
    pub produced: u32,
    /// The session was stopped.
    pub stopped: bool,
    /// The source has no more passages.
    pub source_exhausted: bool,
    /// Passages waiting to be rendered, the next first.
    pub chunk_buffer: Vec<String>,
    /// The speaker the last rendered passage ended with.
    pub last_speaker: Option<String>,
}

/// A narration session as numbers and chars.
pub struct QueueView {
    pub emitted: u32,
    pub produced: u32,
    pub stopped: bool,
    pub source_exhausted: bool,
    pub chunk_buffer: Seq<Seq<char>>,
    pub last_speaker: Option<Seq<char>>,
}

impl View for NarrationQueue {
    type V = QueueView;

    open spec fn view(&self) -> QueueView {
        QueueView {
            emitted: self.emitted,
            produced: self.produced,
            stopped: self.stopped,
            source_exhausted: self.source_exhausted,
            chunk_buffer: self.chunk_buffer.deep_view(),
            last_speaker: opt_chars(self.last_speaker),
        }
    }
}

/// What the loop does next.
pub enum QueueStep {
    /// The session was stopped: emit nothing more.
    Stopped,
    /// Ask the source for the next passage, then step again.
    Fetch,
    /// Render this passage.
    Render(String),
    /// Nothing is left to render.
    Finished,
    /// Enough rendered chunks wait to be taken: wait until one is taken.
    Wait,
}

/// A step of the loop as plain values.
pub enum StepView {
    Stopped,
    Fetch,
    Render(Seq<char>),
    Finished,
    Wait,
}

impl View for QueueStep {
    type V = StepView;

    open spec fn view(&self) -> StepView {
        match self {
            QueueStep::Stopped => StepView::Stopped,
            QueueStep::Fetch => StepView::Fetch,
            QueueStep::Render(p) => StepView::Render(p@),
            QueueStep::Finished => StepView::Finished,
            QueueStep::Wait => StepView::Wait,
        }
    }
}

/// The step `next_step` takes from session state `q`, and the state after it.
pub open spec fn next_view(q: QueueView) -> (StepView, QueueView) {
    if q.stopped {
        (StepView::Stopped, q)
    } else if q.chunk_buffer.len() > 0 {
        (StepView::Render(q.chunk_buffer[0]), QueueView { chunk_buffer: q.chunk_buffer.drop_first(), ..q })
    } else if !q.source_exhausted {
        (StepView::Fetch, q)
    } else {
        (StepView::Finished, q)
    }
}

/// The step `next_step_ahead` takes from `q` while `waiting` rendered chunks wait.
pub open spec fn next_ahead_view(q: QueueView, waiting: int, limit: int) -> (StepView, QueueView) {
    if q.stopped {
        (StepView::Stopped, q)
    } else if waiting >= limit {
        (StepView::Wait, q)
    } else {
        next_view(q)
    }
}

/// The state after the source answered `passage`.
pub open spec fn receive_view(q: QueueView, passage: Option<Seq<char>>, grouping: NarrationGrouping) -> QueueView {
    match passage {
        Some(p) => QueueView { chunk_buffer: q.chunk_buffer + grouped(grouping, sentences(p)), ..q },
        None => QueueView { source_exhausted: true, ..q },
    }
}

/// Whether two speakers are the same (both absent counts as the same).
pub fn same_speaker(a: &Option<String>, b: &Option<String>) -> (r: bool)
    ensures
        r == (opt_chars(*a) == opt_chars(*b)),
{
    match (a, b) {
        (Some(x), Some(y)) => str_eq(x.as_str(), y.as_str()),
        (None, None) => true,
        _ => false,
    }
}

impl NarrationQueue {
    /// A session that has emitted nothing and knows no passage yet.
    pub fn new() -> (r: Self)
        ensures
            r@ == (QueueView {
                emitted: 0,
                produced: 0,
                stopped: false,
                source_exhausted: false,
                chunk_buffer: Seq::empty(),
                last_speaker: None,
            }),
    {
        let r = NarrationQueue {
            emitted: 0,
            produced: 0,
            stopped: false,
            source_exhausted: false,
            chunk_buffer: Vec::new(),
            last_speaker: None,
        };
        assert(r.chunk_buffer.deep_view() =~= Seq::<Seq<char>>::empty());
        r
    }

    /// The next step of the loop: nothing after a stop; the first waiting passage
    /// (taken off the buffer); a fetch while the source may have more; else the end.
    pub fn next_step(&mut self) -> (r: QueueStep)
        ensures
            (r@, final(self)@) == next_view(old(self)@),
            old(self)@.stopped ==> r is Stopped && final(self)@ == old(self)@,
            !old(self)@.stopped && old(self)@.chunk_buffer.len() > 0 ==> (r matches QueueStep::Render(p)
                && p@ == old(self)@.chunk_buffer[0]
                && final(self)@ == (QueueView { chunk_buffer: old(self)@.chunk_buffer.drop_first(), ..old(self)@ })),
            !old(self)@.stopped && old(self)@.chunk_buffer.len() == 0 && !old(self)@.source_exhausted ==> r is Fetch
                && final(self)@ == old(self)@,
            !old(self)@.stopped && old(self)@.chunk_buffer.len() == 0 && old(self)@.source_exhausted ==> r is Finished
                && final(self)@ == old(self)@,
    {
        if self.stopped {
            return QueueStep::Stopped;
        }
        if self.chunk_buffer.len() > 0 {
            let ghost before = self.chunk_buffer.deep_view();
            let p = self.chunk_buffer.remove(0);
            assert(self.chunk_buffer.deep_view() =~= before.drop_first());
            return QueueStep::Render(p);
        }
        if !self.source_exhausted {
            QueueStep::Fetch
        } else {
            QueueStep::Finished
        }
    }

    /// The next step of a worker rendering ahead while `waiting` rendered chunks wait
    /// to be taken: nothing after a stop; a wait while `limit` or more are waiting;
    /// otherwise the step of `next_step`. A passage is handed out to be rendered only
    /// while fewer than `limit` rendered chunks wait, so at most `limit` ever do.
    pub fn next_step_ahead(&mut self, waiting: usize, limit: usize) -> (r: QueueStep)
        ensures
            (r@, final(self)@) == next_ahead_view(old(self)@, waiting as int, limit as int),
            r is Render ==> waiting < limit && !old(self)@.stopped,
            old(self)@.stopped ==> r is Stopped && final(self)@ == old(self)@,
            !old(self)@.stopped && waiting >= limit ==> r is Wait && final(self)@ == old(self)@,
            !old(self)@.stopped && waiting < limit && old(self)@.chunk_buffer.len() > 0 ==> (r matches QueueStep::Render(p)
                && p@ == old(self)@.chunk_buffer[0]
                && final(self)@ == (QueueView { chunk_buffer: old(self)@.chunk_buffer.drop_first(), ..old(self)@ })),
            !old(self)@.stopped && waiting < limit && old(self)@.chunk_buffer.len() == 0 && !old(self)@.source_exhausted
                ==> r is Fetch && final(self)@ == old(self)@,
            !old(self)@.stopped && waiting < limit && old(self)@.chunk_buffer.len() == 0 && old(self)@.source_exhausted
                ==> r is Finished && final(self)@ == old(self)@,
    {
        if self.stopped {
            return QueueStep::Stopped;
        }
        if waiting >= limit {
            return QueueStep::Wait;
        }
        self.next_step()
    }

    /// Take what the source answered: a passage is split into sentences, grouped
    /// into passages, and queued; no passage means the source is exhausted.
    pub fn receive(&mut self, passage: Option<String>, grouping: &NarrationGrouping)
        ensures
            final(self)@ == receive_view(old(self)@, opt_chars(passage), *grouping),
            match passage {
                Some(p) => final(self)@ == (QueueView {
                    chunk_buffer: old(self)@.chunk_buffer + grouped(*grouping, sentences(p@)),
                    ..old(self)@
                }),
                None => final(self)@ == (QueueView { source_exhausted: true, ..old(self)@ }),
            },
    {
        match passage {
            Some(p) => {
                let ss = split_sentences(p.as_str());
                let groups = grouping.group(ss.as_slice());
                let ghost before = self.chunk_buffer.deep_view();
                let ghost start = self@;
                let mut k: usize = 0;
                while k < groups.len()
                    invariant
                        start == old(self)@,
                        self@ == (QueueView { chunk_buffer: self@.chunk_buffer, ..start }),
                        before == start.chunk_buffer,
                        k <= groups@.len(),
                        groups.deep_view() == grouped(*grouping, sentences(p@)),
                        self.chunk_buffer.deep_view() == before + groups.deep_view().take(k as int),
                    decreases groups@.len() - k,
                {
                    let g = String::from_str(groups[k].as_str());
                    assert(g@ == groups.deep_view()[k as int]);
                    let ghost mid = self.chunk_buffer.deep_view();
                    self.chunk_buffer.push(g);
                    assert(self.chunk_buffer.deep_view() =~= mid.push(g@));
                    assert(self.chunk_buffer.deep_view() =~= before + groups.deep_view().take(k + 1));
                    k += 1;
                }
                assert(groups.deep_view().take(k as int) =~= groups.deep_view());
            },
            None => {
                self.source_exhausted = true;
            },
        }
    }

    /// Note the speakers a rendered passage starts and ends with: whether its start
    /// needs a pause (the speaker changed, and `done` chunks came before it), and
    /// the speaker it ends with is remembered.
    pub fn speaker_turn(&mut self, first: &Option<String>, last: Option<String>, done: u32) -> (pause: bool)
        ensures
            pause == (opt_chars(*first) != old(self)@.last_speaker && done > 0),
            final(self)@ == (QueueView { last_speaker: opt_chars(last), ..old(self)@ }),
    {
        let changed = !same_speaker(&self.last_speaker, first);
        self.last_speaker = last;
        changed && done > 0
    }

    /// The index the next emitted chunk takes; the count of emitted chunks goes up
    /// by one (wrapping at `u32::MAX`).
    pub fn take_emit_index(&mut self) -> (index: u32)
        ensures
            index == old(self)@.emitted,
            final(self)@ == (QueueView { emitted: old(self)@.emitted.wrapping_add(1), ..old(self)@ }),
    {
        let index = self.emitted;
        self.emitted = self.emitted.wrapping_add(1);
        index
    }

    /// The index the next chunk rendered ahead takes; the count of rendered chunks
    /// goes up by one (wrapping at `u32::MAX`).
    pub fn take_produce_index(&mut self) -> (index: u32)
        ensures
            index == old(self)@.produced,
            final(self)@ == (QueueView { produced: old(self)@.produced.wrapping_add(1), ..old(self)@ }),
    {
        let index = self.produced;
        self.produced = self.produced.wrapping_add(1);
        index
    }

    /// Stop the session.
    pub fn stop(&mut self)
        ensures
            final(self)@ == (QueueView { stopped: true, ..old(self)@ }),
    {
        self.stopped = true;
    }

    /// Whether a worker rendering ahead has nothing left to do: the source is
    /// exhausted and no passage waits.
    pub fn drained(&self) -> (r: bool)
        ensures
            r == (self@.source_exhausted && self@.chunk_buffer.len() == 0),
    {
        self.source_exhausted && self.chunk_buffer.len() == 0
    }
}

// ---------------------------------------------------------------------------
// Whole sessions
// ---------------------------------------------------------------------------

/// What happens to a session, one call at a time: a step of the synchronous loop;
/// a step of a worker rendering ahead with the given limit (the chunks waiting are
/// those handed out and not yet emitted); the source's answer; a chunk emitted to
/// the listener; a stop.
pub enum SessionEvent {
    Next,
    NextAhead(int),
    Receive(Option<Seq<char>>, NarrationGrouping),
    Emit,
    Stop,
}

/// A session as it has gone so far: the queue, the passages the source's answers
/// were grouped into (in order), the passages handed out to be rendered (in
/// order), and the indices emitted (in order).
pub struct Session {
    pub queue: QueueView,
    pub fed: Seq<Seq<char>>,
    pub handed: Seq<Seq<char>>,
    pub emits: Seq<u32>,
}

/// A session that has not started.
pub open spec fn fresh_session() -> Session {
    Session {
        queue: QueueView {
            emitted: 0,
            produced: 0,
            stopped: false,
            source_exhausted: false,
            chunk_buffer: Seq::empty(),
            last_speaker: None,
        },
        fed: Seq::empty(),
        handed: Seq::empty(),
        emits: Seq::empty(),
    }
}

/// Rendered chunks handed out and not yet emitted.
pub open spec fn waiting_chunks(s: Session) -> int {
    s.handed.len() - s.emits.len()
}

/// The session after a step that answered `r` and left the queue `q`.
pub open spec fn after_step(s: Session, r: StepView, q: QueueView) -> Session {
    Session {
        queue: q,
        handed: match r {
            StepView::Render(p) => s.handed.push(p),
            _ => s.handed,
        },
        ..s
    }
}

/// The session after `e`, as the queue's methods change it (`next_step`,
/// `next_step_ahead`, `receive`, `take_emit_index`, `stop`).
pub open spec fn session_apply(s: Session, e: SessionEvent) -> Session {
    match e {
        SessionEvent::Next => after_step(s, next_view(s.queue).0, next_view(s.queue).1),
        SessionEvent::NextAhead(limit) => after_step(
            s,
            next_ahead_view(s.queue, waiting_chunks(s), limit).0,
            next_ahead_view(s.queue, waiting_chunks(s), limit).1,
        ),
        SessionEvent::Receive(p, g) => Session {
            queue: receive_view(s.queue, p, g),
            fed: match p {
                Some(t) => s.fed + grouped(g, sentences(t)),
                None => s.fed,
            },
            ..s
        },
        SessionEvent::Emit => Session {
            queue: QueueView { emitted: s.queue.emitted.wrapping_add(1), ..s.queue },
            emits: s.emits.push(s.queue.emitted),
            ..s
        },
        SessionEvent::Stop => Session { queue: QueueView { stopped: true, ..s.queue }, ..s },
    }
}

/// The session after the events `evs`, in order, starting from `s`.
pub open spec fn session_run(s: Session, evs: Seq<SessionEvent>) -> Session
    decreases evs.len(),
{
    if evs.len() == 0 {
        s
    } else {
        session_apply(session_run(s, evs.drop_last()), evs.last())
    }
}

/// Passages are handed out in source order: those handed out, followed by those
/// still waiting in the queue, are the source's passages grouped, in order.
pub proof fn law_session_keeps_source_order(evs: Seq<SessionEvent>)
    ensures
        ({
            let s = session_run(fresh_session(), evs);
            s.handed + s.queue.chunk_buffer == s.fed
        }),
    decreases evs.len(),
{
    if evs.len() == 0 {
        assert(Seq::<Seq<char>>::empty() + Seq::<Seq<char>>::empty() =~= Seq::<Seq<char>>::empty());
    } else {
        law_session_keeps_source_order(evs.drop_last());
        let s = session_run(fresh_session(), evs.drop_last());
        let t = session_run(fresh_session(), evs);
        let b = s.queue.chunk_buffer;
        match evs.last() {
            SessionEvent::Receive(p, g) => {
                match p {
                    Some(x) => {
                        assert(t.handed + t.queue.chunk_buffer =~= (s.handed + b) + grouped(g, sentences(x)));
                    },
                    None => {},
                }
            },
            SessionEvent::Next => {
                if !s.queue.stopped && b.len() > 0 {
                    assert(t.handed + t.queue.chunk_buffer =~= s.handed + b);
                }
            },
            SessionEvent::NextAhead(limit) => {
                if !s.queue.stopped && waiting_chunks(s) < limit && b.len() > 0 {
                    assert(t.handed + t.queue.chunk_buffer =~= s.handed + b);
                }
            },
            _ => {},
        }
    }
}

/// The loop finishes only when the source is exhausted and every passage of it
/// was handed out.
pub proof fn law_session_finishes_after_everything(evs: Seq<SessionEvent>, limit: int)
    ensures
        ({
            let s = session_run(fresh_session(), evs);
            (next_view(s.queue).0 is Finished || next_ahead_view(s.queue, waiting_chunks(s), limit).0 is Finished)
                ==> s.queue.source_exhausted && s.handed == s.fed
        }),
{
    law_session_keeps_source_order(evs);
    let s = session_run(fresh_session(), evs);
    if s.queue.chunk_buffer.len() == 0 {
        assert(s.handed + s.queue.chunk_buffer =~= s.handed);
    }
}

/// Chunks are emitted with the indices 0, 1, 2, ... in order (for fewer than 2^32
/// chunks), and the queue's count is the number emitted.
pub proof fn law_session_emits_in_order(evs: Seq<SessionEvent>)
    ensures
        ({
            let s = session_run(fresh_session(), evs);
            s.emits.len() <= u32::MAX ==> s.queue.emitted == s.emits.len() && forall|k: int|
                0 <= k < s.emits.len() ==> #[trigger] s.emits[k] == k
        }),
    decreases evs.len(),
{
    if evs.len() > 0 {
        law_session_emits_in_order(evs.drop_last());
        let s = session_run(fresh_session(), evs.drop_last());
        let t = session_run(fresh_session(), evs);
        match evs.last() {
            SessionEvent::Emit => {
                if t.emits.len() <= u32::MAX {
                    assert(s.queue.emitted.wrapping_add(1) == s.queue.emitted + 1);
                    assert forall|k: int| 0 <= k < t.emits.len() implies #[trigger] t.emits[k] == k by {
                        if k < s.emits.len() {
                            assert(t.emits[k] == s.emits[k]);
                        }
                    }
                }
            },
            _ => {
                assert(t.emits == s.emits);
            },
        }
    }
}

/// Once stopped, a session stays stopped and hands out nothing more: every later
/// step answers `Stopped`.
pub proof fn law_session_stop_is_final(evs: Seq<SessionEvent>, more: Seq<SessionEvent>, limit: int)
    requires
        session_run(fresh_session(), evs).queue.stopped,
    ensures
        ({
            let s = session_run(fresh_session(), evs);
            let t = session_run(fresh_session(), evs + more);
            &&& t.queue.stopped
            &&& t.handed == s.handed
            &&& next_view(t.queue).0 is Stopped
            &&& next_ahead_view(t.queue, waiting_chunks(t), limit).0 is Stopped
        }),
    decreases more.len(),
{
    if more.len() == 0 {
        assert(evs + more =~= evs);
    } else {
        law_session_stop_is_final(evs, more.drop_last(), limit);
        assert((evs + more).drop_last() =~= evs + more.drop_last());
        assert((evs + more).last() == more.last());
    }
}

/// A worker rendering ahead with `limit` keeps at most `limit` chunks ahead of the
/// listener: over a session whose steps are all steps ahead with that limit, the
/// passages handed out never outnumber those emitted by more than `limit`.
pub proof fn law_session_lookahead_bound(evs: Seq<SessionEvent>, limit: int)
    requires
        limit >= 0,
        forall|i: int| 0 <= i < evs.len() ==> !(#[trigger] evs[i] is Next),
        forall|i: int| 0 <= i < evs.len() && #[trigger] evs[i] is NextAhead ==> evs[i]->NextAhead_0 == limit,
    ensures
        session_run(fresh_session(), evs).handed.len() <= session_run(fresh_session(), evs).emits.len() + limit,
    decreases evs.len(),
{
    if evs.len() > 0 {
        let p = evs.drop_last();
        assert forall|i: int| 0 <= i < p.len() implies !(#[trigger] p[i] is Next) by {
            assert(p[i] == evs[i]);
        }
        assert forall|i: int| 0 <= i < p.len() && #[trigger] p[i] is NextAhead implies p[i]->NextAhead_0 == limit by {
            assert(p[i] == evs[i]);
        }
        law_session_lookahead_bound(p, limit);
        assert(evs.last() == evs[evs.len() - 1]);
    }
}

} // verus!
