//! The presentation side: the single consumer that owns the canvas. Each
//! iteration renders the current canvas contents, drains every paint
//! instruction currently in the channel into the canvas, then polls the
//! display backend's events and decides whether to keep running.

use vstd::prelude::*;
use vstd::multiset::Multiset;

use crossbeam::queue::SegQueue;

use crate::canvas::Canvas;
use crate::canvas::lemma_index_in_range;
use crate::canvas::lemma_index_injective;
use crate::canvas::rgba_bytes;
use crate::channel::channel_contents;
use crate::channel::channel_pop;
use crate::pixel::Paint;

verus! {

/// The lifecycle of the presentation loop: `Open` while it renders, drains
/// and polls; `Closing` once a shutdown request was observed; `Closed` when
/// the loop has exited. `Closed` is terminal.
#[derive(Clone, Copy, Debug, Eq, PartialEq, Structural)]
pub enum LoopState {
    Open,
    Closing,
    Closed,
}

/// One event handed back by the display backend's non-blocking poll.
#[derive(Clone, Copy, Debug, Eq, PartialEq, Structural)]
pub enum PollEvent {
    /// The window was asked to close.
    CloseRequested,
    /// The platform's quit key combination (primary modifier plus W).
    QuitKeyCombo,
    /// Anything else; ignored by the loop.
    Other,
}

/// How one observed event moves the loop state: a shutdown request seen
/// while `Open` moves to `Closing`; everything else changes nothing.
pub open spec fn step_spec(s: LoopState, e: PollEvent) -> LoopState {
    match s {
        LoopState::Open => match e {
            PollEvent::CloseRequested => LoopState::Closing,
            PollEvent::QuitKeyCombo => LoopState::Closing,
            PollEvent::Other => LoopState::Open,
        },
        LoopState::Closing => LoopState::Closing,
        LoopState::Closed => LoopState::Closed,
    }
}

/// The state after observing a whole batch of polled events, in order.
pub open spec fn poll_spec(s: LoopState, events: Seq<PollEvent>) -> LoopState
    decreases events.len(),
{
    if events.len() == 0 {
        s
    } else {
        poll_spec(step_spec(s, events[0]), events.drop_first())
    }
}

/// Applies one observed event to the loop state.
pub fn handle_event(s: LoopState, e: PollEvent) -> (t: LoopState)
    ensures
        t == step_spec(s, e),
{
    match s {
        LoopState::Open => match e {
            PollEvent::CloseRequested => LoopState::Closing,
            PollEvent::QuitKeyCombo => LoopState::Closing,
            PollEvent::Other => LoopState::Open,
        },
        LoopState::Closing => LoopState::Closing,
        LoopState::Closed => LoopState::Closed,
    }
}

/// Applies a whole batch of polled events to the loop state, in order.
pub fn poll_events(s: LoopState, events: &Vec<PollEvent>) -> (t: LoopState)
    ensures
        t == poll_spec(s, events@),
{
    let mut t = s;
    let mut i: usize = 0;
    proof {
        assert(events@.skip(0) =~= events@);
    }
    while i < events.len()
        invariant
            i <= events@.len(),
            poll_spec(t, events@.skip(i as int)) == poll_spec(s, events@),
        decreases events@.len() - i,
    {
        proof {
            let tail = events@.skip(i as int);
            assert(tail[0] == events@[i as int]);
            assert(tail.drop_first() =~= events@.skip(i + 1));
        }
        t = handle_event(t, events[i]);
        i = i + 1;
    }
    proof {
        assert(events@.skip(events@.len() as int) =~= Seq::<PollEvent>::empty());
    }
    t
}

/// Whether the loop runs another render/drain/poll iteration.
pub fn loop_continues(s: LoopState) -> (r: bool)
    ensures
        r <==> s == LoopState::Open,
{
    match s {
        LoopState::Open => true,
        LoopState::Closing => false,
        LoopState::Closed => false,
    }
}

/// The exit transition: once the loop has stopped iterating, the state
/// becomes terminal. No further rendering or draining happens after it.
pub fn shutdown(s: LoopState) -> (t: LoopState)
    requires
        s != LoopState::Open,
    ensures
        t == LoopState::Closed,
{
    LoopState::Closed
}

/// No two distinct queued instructions paint the same coordinate.
pub open spec fn unique_coords(m: Multiset<Paint>) -> bool {
    forall|p1: Paint, p2: Paint|
        #[trigger] m.count(p1) > 0 && #[trigger] m.count(p2) > 0 && p1.x == p2.x && p1.y == p2.y
            ==> p1 == p2
}

/// Every queued instruction paints a coordinate of the target.
pub open spec fn all_in_bounds(m: Multiset<Paint>, width: int, height: int) -> bool {
    forall|p: Paint| #[trigger] m.count(p) > 0 ==> p.in_bounds(width, height)
}

/// Whether some queued instruction paints the entry at row-major index `j`.
pub open spec fn covers_index(m: Multiset<Paint>, width: int, j: int) -> bool {
    exists|p: Paint| #[trigger] m.count(p) > 0 && p.index_spec(width) == j
}

/// Pops the channel until it reports empty and writes every popped
/// instruction into the canvas. Afterwards the channel is empty; every
/// entry that some queued instruction painted holds that instruction's
/// color, and every other entry is untouched.
pub fn drain_channel(canvas: &mut Canvas, q: &mut SegQueue<Paint>)
    requires
        old(canvas).wf(),
        all_in_bounds(
            channel_contents(*old(q)),
            old(canvas).width_spec(),
            old(canvas).height_spec(),
        ),
        unique_coords(channel_contents(*old(q))),
    ensures
        final(canvas).wf(),
        final(canvas).width_spec() == old(canvas).width_spec(),
        final(canvas).height_spec() == old(canvas).height_spec(),
        final(canvas)@.len() == old(canvas)@.len(),
        channel_contents(*final(q)) == Multiset::<Paint>::empty(),
        forall|p: Paint|
            channel_contents(*old(q)).count(p) > 0 ==> final(canvas)@[p.index_spec(
                old(canvas).width_spec(),
            )] == p.color_spec(),
        forall|j: int|
            0 <= j < final(canvas)@.len() && !covers_index(
                channel_contents(*old(q)),
                old(canvas).width_spec(),
                j,
            ) ==> final(canvas)@[j] == old(canvas)@[j],
{
    broadcast use vstd::multiset::group_multiset_axioms;

    let ghost m0 = channel_contents(*q);
    let ghost w = old(canvas).width_spec();
    let ghost h = old(canvas).height_spec();
    let ghost mut processed: Multiset<Paint> = Multiset::empty();
    loop
        invariant
            canvas.wf(),
            canvas.width_spec() == w,
            canvas.height_spec() == h,
            canvas@.len() == old(canvas)@.len(),
            all_in_bounds(m0, w, h),
            unique_coords(m0),
            m0 == channel_contents(*old(q)),
            processed.add(channel_contents(*q)) == m0,
            forall|p: Paint|
                processed.count(p) > 0 ==> canvas@[p.index_spec(w)] == p.color_spec(),
            forall|j: int|
                0 <= j < canvas@.len() && !covers_index(processed, w, j) ==> canvas@[j] == old(
                    canvas,
                )@[j],
        ensures
            channel_contents(*q) == Multiset::<Paint>::empty(),
            processed.add(channel_contents(*q)) == m0,
            canvas.wf(),
            canvas.width_spec() == w,
            canvas.height_spec() == h,
            canvas@.len() == old(canvas)@.len(),
            forall|p: Paint|
                processed.count(p) > 0 ==> canvas@[p.index_spec(w)] == p.color_spec(),
            forall|j: int|
                0 <= j < canvas@.len() && !covers_index(processed, w, j) ==> canvas@[j] == old(
                    canvas,
                )@[j],
        decreases channel_contents(*q).len(),
    {
        let ghost m_before = channel_contents(*q);
        match channel_pop(q) {
            Some(p) => {
                proof {
                    assert(m0.count(p) >= m_before.count(p));
                    assert(m0.count(p) > 0);
                }
                canvas.apply(p);
                proof {
                    lemma_index_in_range(p.x as int, p.y as int, w, h);
                    let prev = processed;
                    processed = processed.insert(p);
                    assert(processed.add(channel_contents(*q)) =~= m0);
                    assert forall|p2: Paint| processed.count(p2) > 0 implies canvas@[p2.index_spec(
                        w,
                    )] == p2.color_spec() by {
                        if p2 == p {
                        } else {
                            assert(prev.count(p2) > 0);
                            assert(m0.count(p2) > 0);
                            lemma_index_in_range(p2.x as int, p2.y as int, w, h);
                            if p2.index_spec(w) == p.index_spec(w) {
                                lemma_index_injective(
                                    p2.x as int,
                                    p2.y as int,
                                    p.x as int,
                                    p.y as int,
                                    w,
                                );
                                assert(p2 == p);
                            }
                        }
                    }
                    assert forall|j: int|
                        0 <= j < canvas@.len() && !covers_index(processed, w, j) implies canvas@[j]
                        == old(canvas)@[j] by {
                        assert(processed.count(p) > 0);
                        assert(j != p.index_spec(w));
                        assert(!covers_index(prev, w, j)) by {
                            if covers_index(prev, w, j) {
                                let pw = choose|pw: Paint|
                                    #[trigger] prev.count(pw) > 0 && pw.index_spec(w) == j;
                                assert(processed.count(pw) > 0);
                            }
                        }
                    }
                }
            },
            None => {
                break ;
            },
        }
    }
    proof {
        assert(processed =~= m0);
    }
}

/// One iteration of the presentation loop while it is `Open`, in order:
/// render the canvas contents as they stand into a backend frame, drain
/// every currently queued instruction into the canvas, then poll the
/// batch of pending events and move the loop state accordingly.
pub fn presentation_step(
    canvas: &mut Canvas,
    q: &mut SegQueue<Paint>,
    events: &Vec<PollEvent>,
    s: LoopState,
) -> (r: (Vec<u8>, LoopState))
    requires
        s == LoopState::Open,
        old(canvas).wf(),
        all_in_bounds(
            channel_contents(*old(q)),
            old(canvas).width_spec(),
            old(canvas).height_spec(),
        ),
        unique_coords(channel_contents(*old(q))),
    ensures
        r.0@ == rgba_bytes(old(canvas)@),
        r.1 == poll_spec(s, events@),
        final(canvas).wf(),
        final(canvas).width_spec() == old(canvas).width_spec(),
        final(canvas).height_spec() == old(canvas).height_spec(),
        final(canvas)@.len() == old(canvas)@.len(),
        channel_contents(*final(q)) == Multiset::<Paint>::empty(),
        forall|p: Paint|
            channel_contents(*old(q)).count(p) > 0 ==> final(canvas)@[p.index_spec(
                old(canvas).width_spec(),
            )] == p.color_spec(),
        forall|j: int|
            0 <= j < final(canvas)@.len() && !covers_index(
                channel_contents(*old(q)),
                old(canvas).width_spec(),
                j,
            ) ==> final(canvas)@[j] == old(canvas)@[j],
{
    let frame = canvas.to_rgba_bytes();
    drain_channel(canvas, q);
    let t = poll_events(s, events);
    (frame, t)
}

} // verus!
