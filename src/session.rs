//! The decisions of a streaming session.
//!
//! A session waits on two sources at once, a one-second timer and the
//! client's next frame, and acts on whichever comes first. The driver
//! performs the waiting and the sending; this module decides, one event at a
//! time, what each event leads to.
use vstd::prelude::*;
use crate::geometry::{
    DisplayPayload, DisplayPoint, Frac, corner, demo_records, lemma_demo_display, make_vega_data,
};

verus! {

/// A frame received from the client.
#[derive(Clone, Copy, Debug, PartialEq, Eq)]
pub enum Frame {
    Text,
    Binary,
    Ping,
    Pong,
    Close,
}

/// What ended one wait of the session.
#[derive(Clone, Copy, Debug, PartialEq, Eq)]
pub enum Event {
    /// A full second passed with no frame from the client.
    Timer,
    /// The client sent a frame.
    Inbound(Frame),
    /// The channel ended, failed, or a send on it failed.
    Ended,
}

/// What an event leads to, as a value.
pub enum Output {
    /// One text frame carrying the serialization of these points.
    Frame(Seq<DisplayPoint>),
    /// Nothing is sent.
    Nothing,
    /// The session ends and its channel is released.
    Released,
}

/// What the driver does after an event.
#[derive(Debug)]
pub enum Action {
    /// Serialize the payload and send it as one text frame.
    Send(DisplayPayload),
    /// Send nothing and wait again.
    Idle,
    /// Release the channel; the session is over.
    Release,
}

impl View for Action {
    type V = Output;

    open spec fn view(&self) -> Output {
        match self {
            Action::Send(p) => Output::Frame(p.points@),
            Action::Idle => Output::Nothing,
            Action::Release => Output::Released,
        }
    }
}

/// The payload sent on every tick: the corners of the three fixed records,
/// with a pen-up at their mean `x0` (600 / 3) between two records.
pub open spec fn demo_points() -> Seq<DisplayPoint> {
    seq![
        corner(200, 223),
        corner(210, 233),
        DisplayPoint { x: Frac { num: 600, den: 3 }, y: None },
        corner(300, 323),
        corner(310, 333),
        DisplayPoint { x: Frac { num: 600, den: 3 }, y: None },
        corner(100, 123),
        corner(110, 133),
    ]
}

/// The next state (`true` while running) and the output of one event.
pub open spec fn step_spec(open: bool, ev: Event) -> (bool, Output) {
    if !open {
        (false, Output::Nothing)
    } else {
        match ev {
            Event::Timer => (true, Output::Frame(demo_points())),
            Event::Inbound(Frame::Close) => (false, Output::Released),
            Event::Ended => (false, Output::Released),
            Event::Inbound(_) => (true, Output::Nothing),
        }
    }
}

/// The outputs of a session that starts in state `open` and sees `evs`.
pub open spec fn run_outputs(open: bool, evs: Seq<Event>) -> Seq<Output>
    decreases evs.len(),
{
    if evs.len() == 0 {
        Seq::empty()
    } else {
        let (next, out) = step_spec(open, evs[0]);
        seq![out] + run_outputs(next, evs.drop_first())
    }
}

/// The state of a session that starts in state `open` and sees `evs`.
pub open spec fn run_state(open: bool, evs: Seq<Event>) -> bool
    decreases evs.len(),
{
    if evs.len() == 0 {
        open
    } else {
        run_state(step_spec(open, evs[0]).0, evs.drop_first())
    }
}

/// The payload of a tick.
pub fn handle_timeout() -> (r: DisplayPayload)
    ensures
        r.points@ == demo_points(),
{
    let records = demo_records();
    let r = make_vega_data(records.as_slice());
    proof {
        lemma_demo_display(r.points@);
    }
    r
}

/// Whether the session goes on after the client sent `frame`. No frame of
/// the client produces output: text, binary, ping and pong are only observed.
pub fn handle_input(frame: Frame) -> (r: bool)
    ensures
        r == (frame != Frame::Close),
{
    match frame {
        Frame::Close => false,
        _ => true,
    }
}

/// One streaming session, running or closed.
#[derive(Debug)]
pub struct Session {
    open: bool,
}

impl Session {
    /// Whether the session is still running.
    pub closed spec fn running(&self) -> bool {
        self.open
    }

    /// A session that has just been upgraded, running.
    pub fn new() -> (s: Session)
        ensures
            s.running(),
    {
        Session { open: true }
    }

    /// Whether the session is still running.
    pub fn is_open(&self) -> (r: bool)
        ensures
            r == self.running(),
    {
        self.open
    }

    /// Takes the decision for one event: a tick sends the demonstration
    /// payload, a close frame or the end of the channel releases it once,
    /// other frames send nothing, and a closed session does nothing more.
    pub fn step(&mut self, ev: Event) -> (a: Action)
        ensures
            (final(self).running(), a@) == step_spec(old(self).running(), ev),
    {
        if !self.open {
            return Action::Idle;
        }
        match ev {
            Event::Timer => Action::Send(handle_timeout()),
            Event::Inbound(frame) => {
                if handle_input(frame) {
                    Action::Idle
                } else {
                    self.open = false;
                    Action::Release
                }
            },
            Event::Ended => {
                self.open = false;
                Action::Release
            },
        }
    }
}

/// A running session that hears nothing from its client sends one frame per
/// tick, each carrying the demonstration payload, and stays running.
pub proof fn lemma_quiet_session_sends_each_tick(evs: Seq<Event>)
    requires
        forall|i: int| 0 <= i < evs.len() ==> evs[i] == Event::Timer,
    ensures
        run_outputs(true, evs) =~= Seq::new(evs.len(), |i: int| Output::Frame(demo_points())),
        run_state(true, evs),
    decreases evs.len(),
{
    if evs.len() > 0 {
        lemma_quiet_session_sends_each_tick(evs.drop_first());
    }
}

/// A closed session sends nothing and releases nothing, whatever it sees.
pub proof fn lemma_closed_session_is_silent(evs: Seq<Event>)
    ensures
        run_outputs(false, evs) =~= Seq::new(evs.len(), |i: int| Output::Nothing),
        !run_state(false, evs),
    decreases evs.len(),
{
    if evs.len() > 0 {
        lemma_closed_session_is_silent(evs.drop_first());
    }
}

/// A close frame on a running session releases its channel, and nothing is
/// sent or released after it, even if the client closes again.
pub proof fn lemma_close_is_final(rest: Seq<Event>)
    ensures
        run_outputs(true, seq![Event::Inbound(Frame::Close)] + rest) =~= seq![Output::Released]
            + Seq::new(rest.len(), |i: int| Output::Nothing),
        !run_state(true, seq![Event::Inbound(Frame::Close)] + rest),
{
    let evs = seq![Event::Inbound(Frame::Close)] + rest;
    assert(evs.drop_first() =~= rest);
    lemma_closed_session_is_silent(rest);
}

/// Whatever a session sees, its channel is released at most once.
pub proof fn lemma_released_at_most_once(open: bool, evs: Seq<Event>)
    ensures
        run_outputs(open, evs).len() == evs.len(),
        forall|i: int, j: int|
            0 <= i < j < evs.len() ==> !((#[trigger] run_outputs(open, evs)[i]) is Released && (
            #[trigger] run_outputs(open, evs)[j]) is Released),
    decreases evs.len(),
{
    if evs.len() > 0 {
        let (next, out) = step_spec(open, evs[0]);
        let tail = evs.drop_first();
        lemma_released_at_most_once(next, tail);
        if out is Released {
            lemma_closed_session_is_silent(tail);
        }
        let outs = run_outputs(open, evs);
        assert forall|i: int, j: int| 0 <= i < j < evs.len() implies !((
        #[trigger] outs[i]) is Released && (#[trigger] outs[j]) is Released) by {
            assert(outs[j] == run_outputs(next, tail)[j - 1]);
            if i > 0 {
                assert(outs[i] == run_outputs(next, tail)[i - 1]);
            }
        }
    }
}

/// Two sessions driven side by side: each entry of `sched` is an event and
/// the session it reaches (`true` for the first). Yields each output tagged
/// with the session that produced it.
pub open spec fn run_pair(a: bool, b: bool, sched: Seq<(bool, Event)>) -> Seq<(bool, Output)>
    decreases sched.len(),
{
    if sched.len() == 0 {
        Seq::empty()
    } else {
        let (side, ev) = sched[0];
        if side {
            let (next, out) = step_spec(a, ev);
            seq![(true, out)] + run_pair(next, b, sched.drop_first())
        } else {
            let (next, out) = step_spec(b, ev);
            seq![(false, out)] + run_pair(a, next, sched.drop_first())
        }
    }
}

/// The events of `sched` that reach session `side`, in order.
pub open spec fn events_of(sched: Seq<(bool, Event)>, side: bool) -> Seq<Event>
    decreases sched.len(),
{
    if sched.len() == 0 {
        Seq::empty()
    } else if sched[0].0 == side {
        seq![sched[0].1] + events_of(sched.drop_first(), side)
    } else {
        events_of(sched.drop_first(), side)
    }
}

/// The outputs in `outs` tagged with session `side`, in order.
pub open spec fn outputs_of(outs: Seq<(bool, Output)>, side: bool) -> Seq<Output>
    decreases outs.len(),
{
    if outs.len() == 0 {
        Seq::empty()
    } else if outs[0].0 == side {
        seq![outs[0].1] + outputs_of(outs.drop_first(), side)
    } else {
        outputs_of(outs.drop_first(), side)
    }
}

/// Sessions are independent: however the events of two sessions interleave,
/// each session sends exactly what it would send alone on its own events.
pub proof fn lemma_sessions_independent(a: bool, b: bool, sched: Seq<(bool, Event)>)
    ensures
        outputs_of(run_pair(a, b, sched), true) == run_outputs(a, events_of(sched, true)),
        outputs_of(run_pair(a, b, sched), false) == run_outputs(b, events_of(sched, false)),
    decreases sched.len(),
{
    if sched.len() > 0 {
        let (side, ev) = sched[0];
        let rest = sched.drop_first();
        let outs = run_pair(a, b, sched);
        if side {
            let (next, out) = step_spec(a, ev);
            lemma_sessions_independent(next, b, rest);
            assert(outs.drop_first() =~= run_pair(next, b, rest));
            let mine = seq![ev] + events_of(rest, true);
            assert(mine.drop_first() =~= events_of(rest, true));
        } else {
            let (next, out) = step_spec(b, ev);
            lemma_sessions_independent(a, next, rest);
            assert(outs.drop_first() =~= run_pair(a, next, rest));
            let mine = seq![ev] + events_of(rest, false);
            assert(mine.drop_first() =~= events_of(rest, false));
        }
    }
}

} // verus!
