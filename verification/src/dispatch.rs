//! The fragment dispatcher: evaluates the caller's fragment function once
//! for every coordinate of the target and enqueues exactly one paint
//! instruction per coordinate. The domain is walked by outer dimension `x`
//! and inner dimension `y`, so the instruction for `(x, y)` is produced at
//! position `x * height + y` of the evaluation order.

use vstd::prelude::*;
use vstd::multiset::Multiset;

use crossbeam::queue::SegQueue;

use crate::channel::channel_contents;
use crate::channel::channel_push;
use crate::pixel::Color;
use crate::pixel::Coord;
use crate::pixel::Paint;

verus! {

/// Whether `c` lies in the `width` by `height` coordinate domain.
pub open spec fn in_domain(c: Coord, width: int, height: int) -> bool {
    c.x < width && c.y < height
}

/// What one dispatch over a `width` by `height` domain produces, in
/// evaluation order: one instruction per coordinate, the one for `(x, y)`
/// at position `x * height + y`, its color a possible result of the
/// fragment function at that coordinate.
pub open spec fn dispatch_output<S, F: Fn(Coord, &S) -> Color>(
    ps: Seq<Paint>,
    width: int,
    height: int,
    f: F,
    state: &S,
) -> bool {
    &&& ps.len() == width * height
    &&& forall|i: int|
        0 <= i < ps.len() ==> (#[trigger] ps[i]).x == i / height && ps[i].y == i % height
    &&& forall|i: int|
        0 <= i < ps.len() ==> call_ensures(
            f,
            ((#[trigger] ps[i]).coord_spec(), state),
            ps[i].color_spec(),
        )
}

/// Evaluates the fragment function once for every coordinate in
/// `[0, width) x [0, height)` and pushes one paint instruction per result
/// into the channel: exactly `width * height` instructions are added, and
/// nothing already queued is touched.
pub fn dispatch_stateful<S, F: Fn(Coord, &S) -> Color>(
    width: usize,
    height: usize,
    state: &S,
    f: &F,
    q: &mut SegQueue<Paint>,
)
    requires
        forall|c: Coord|
            in_domain(c, width as int, height as int) ==> call_requires(*f, (c, state)),
    ensures
        channel_contents(*final(q)).len() == channel_contents(*old(q)).len() + width * height,
        exists|ps: Seq<Paint>|
            {
                &&& #[trigger] dispatch_output(ps, width as int, height as int, *f, state)
                &&& channel_contents(*final(q)) == channel_contents(*old(q)).add(ps.to_multiset())
            },
{
    broadcast use vstd::seq_lib::group_to_multiset_ensures;
    broadcast use vstd::multiset::group_multiset_axioms;

    let ghost mut ps: Seq<Paint> = Seq::empty();
    proof {
        assert(channel_contents(*q) =~= channel_contents(*old(q)).add(ps.to_multiset()));
    }
    let mut x: usize = 0;
    while x < width
        invariant
            x <= width,
            forall|c: Coord|
                in_domain(c, width as int, height as int) ==> call_requires(*f, (c, state)),
            ps.len() == x * height,
            forall|i: int|
                0 <= i < ps.len() ==> (#[trigger] ps[i]).x == i / (height as int) && ps[i].y == i
                    % (height as int),
            forall|i: int|
                0 <= i < ps.len() ==> call_ensures(
                    *f,
                    ((#[trigger] ps[i]).coord_spec(), state),
                    ps[i].color_spec(),
                ),
            channel_contents(*q) == channel_contents(*old(q)).add(ps.to_multiset()),
        decreases width - x,
    {
        let mut y: usize = 0;
        while y < height
            invariant
                x < width,
                y <= height,
                forall|c: Coord|
                    in_domain(c, width as int, height as int) ==> call_requires(*f, (c, state)),
                ps.len() == x * height + y,
                forall|i: int|
                    0 <= i < ps.len() ==> (#[trigger] ps[i]).x == i / (height as int) && ps[i].y
                        == i % (height as int),
                forall|i: int|
                    0 <= i < ps.len() ==> call_ensures(
                        *f,
                        ((#[trigger] ps[i]).coord_spec(), state),
                        ps[i].color_spec(),
                    ),
                channel_contents(*q) == channel_contents(*old(q)).add(ps.to_multiset()),
            decreases height - y,
        {
            let c = Coord { x, y };
            proof {
                assert(in_domain(c, width as int, height as int));
            }
            let color = f(c, state);
            let p = Paint::new(c, color);
            channel_push(q, p);
            proof {
                vstd::arithmetic::div_mod::lemma_fundamental_div_mod_converse(
                    (x * height + y) as int,
                    height as int,
                    x as int,
                    y as int,
                );
                vstd::seq_lib::to_multiset_build(ps, p);
                let ps1 = ps.push(p);
                assert forall|i: int| 0 <= i < ps1.len() implies (#[trigger] ps1[i]).x == i / (
                height as int) && ps1[i].y == i % (height as int) by {
                    if i < ps.len() {
                        assert(ps1[i] == ps[i]);
                    } else {
                        assert(ps1[i] == p);
                    }
                }
                ps = ps1;
                assert(channel_contents(*q) =~= channel_contents(*old(q)).add(ps.to_multiset()));
            }
            y = y + 1;
        }
        proof {
            assert(x * height + height == (x + 1) * height) by (nonlinear_arith);
        }
        x = x + 1;
    }
    proof {
        assert(ps.len() == width * height);
        assert(ps.to_multiset().len() == ps.len());
        assert(dispatch_output(ps, width as int, height as int, *f, state));
    }
}

} // verus!
