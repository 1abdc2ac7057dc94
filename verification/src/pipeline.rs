//! The whole pipeline run headlessly: dispatch every coordinate into a
//! fresh channel, then drain the channel into a fresh canvas. The result
//! is the canvas a window would show once every instruction has arrived:
//! exactly one color per coordinate, each a result of the fragment
//! function at that coordinate.

use vstd::prelude::*;
use vstd::multiset::Multiset;

use crate::canvas::Canvas;
use crate::canvas::lemma_index_in_range;
use crate::channel::channel_contents;
use crate::channel::channel_new;
use crate::dispatch::dispatch_output;
use crate::dispatch::dispatch_stateful;
use crate::dispatch::in_domain;
use crate::pixel::Color;
use crate::pixel::Coord;
use crate::pixel::Paint;
use crate::present::all_in_bounds;
use crate::present::drain_channel;
use crate::present::unique_coords;

verus! {

/// The coordinates and bounds of a flat evaluation-order position: position
/// `i` of a dispatch over a `width` by `height` domain is coordinate
/// `(i / height, i % height)`, inside the domain.
proof fn lemma_flat_coords(i: int, width: int, height: int)
    requires
        0 <= i,
        i < width * height,
        0 <= width,
        0 <= height,
    ensures
        0 < height,
        0 <= i / height < width,
        0 <= i % height < height,
{
    assert(0 < height) by (nonlinear_arith)
        requires
            0 <= i,
            i < width * height,
            0 <= height,
    ;
    vstd::arithmetic::div_mod::lemma_fundamental_div_mod(i, height);
    vstd::arithmetic::div_mod::lemma_mod_bound(i, height);
    assert(0 <= i / height < width) by (nonlinear_arith)
        requires
            i == height * (i / height) + (i % height),
            0 <= i % height < height,
            0 <= i,
            i < width * height,
    ;
}

/// A dispatch's output assigns distinct coordinates to distinct positions,
/// so its instructions form a channel content with one instruction per
/// domain coordinate: all in bounds, and no coordinate painted twice.
proof fn lemma_dispatch_output_wf<S, F: Fn(Coord, &S) -> Color>(
    ps: Seq<Paint>,
    width: int,
    height: int,
    f: F,
    state: &S,
)
    requires
        dispatch_output(ps, width, height, f, state),
        0 <= width,
        0 <= height,
    ensures
        all_in_bounds(ps.to_multiset(), width, height),
        unique_coords(ps.to_multiset()),
{
    broadcast use vstd::seq_lib::group_to_multiset_ensures;

    assert forall|p: Paint| #[trigger] ps.to_multiset().count(p) > 0 implies p.in_bounds(
        width,
        height,
    ) by {
        assert(ps.contains(p));
        let i = choose|i: int| 0 <= i < ps.len() && ps[i] == p;
        lemma_flat_coords(i, width, height);
    }
    assert forall|p1: Paint, p2: Paint|
        #[trigger] ps.to_multiset().count(p1) > 0 && #[trigger] ps.to_multiset().count(p2) > 0
            && p1.x == p2.x && p1.y == p2.y implies p1 == p2 by {
        assert(ps.contains(p1));
        assert(ps.contains(p2));
        let i1 = choose|i: int| 0 <= i < ps.len() && ps[i] == p1;
        let i2 = choose|i: int| 0 <= i < ps.len() && ps[i] == p2;
        lemma_flat_coords(i1, width, height);
        lemma_flat_coords(i2, width, height);
        vstd::arithmetic::div_mod::lemma_fundamental_div_mod(i1, height);
        vstd::arithmetic::div_mod::lemma_fundamental_div_mod(i2, height);
        assert(i1 == height * (i1 / height) + (i1 % height));
        assert(i2 == height * (i2 / height) + (i2 % height));
        assert(i1 / height == i2 / height && i1 % height == i2 % height);
        assert(i1 == i2);
    }
}

/// Runs the whole pipeline without a display: evaluates the fragment
/// function over the full domain, routes every result through the paint
/// channel, and drains the channel into a canvas. The canvas comes back
/// with exactly one color per coordinate, and the color at `(x, y)` is a
/// result the fragment function can return for `(x, y)`.
pub fn render_offline<S, F: Fn(Coord, &S) -> Color>(
    width: usize,
    height: usize,
    state: &S,
    f: &F,
) -> (canvas: Canvas)
    requires
        width * height <= usize::MAX,
        forall|c: Coord|
            in_domain(c, width as int, height as int) ==> call_requires(*f, (c, state)),
    ensures
        canvas.wf(),
        canvas.width_spec() == width,
        canvas.height_spec() == height,
        canvas@.len() == width * height,
        forall|c: Coord|
            #[trigger] in_domain(c, width as int, height as int) ==> call_ensures(
                *f,
                (c, state),
                canvas@[c.y * (width as int) + c.x],
            ),
{
    broadcast use vstd::seq_lib::group_to_multiset_ensures;
    broadcast use vstd::multiset::group_multiset_axioms;

    let mut canvas = Canvas::new(width, height);
    let mut q = channel_new();
    dispatch_stateful(width, height, state, f, &mut q);
    let ghost m1 = channel_contents(q);
    let ghost ps = choose|ps: Seq<Paint>|
        {
            &&& #[trigger] dispatch_output(ps, width as int, height as int, *f, state)
            &&& m1 == Multiset::<Paint>::empty().add(ps.to_multiset())
        };
    proof {
        assert(m1 =~= ps.to_multiset());
        lemma_dispatch_output_wf(ps, width as int, height as int, *f, state);
    }
    drain_channel(&mut canvas, &mut q);
    proof {
        assert forall|c: Coord| #[trigger] in_domain(c, width as int, height as int) implies
            call_ensures(*f, (c, state), canvas@[c.y * (width as int) + c.x]) by {
            let i: int = c.x * height + c.y;
            lemma_index_in_range(c.y as int, c.x as int, height as int, width as int);
            assert(i < width * height) by (nonlinear_arith)
                requires
                    i < height * width,
            ;
            vstd::arithmetic::div_mod::lemma_fundamental_div_mod_converse(
                i,
                height as int,
                c.x as int,
                c.y as int,
            );
            assert(ps[i].x == c.x && ps[i].y == c.y);
            assert(ps[i].coord_spec() == c);
            assert(ps.contains(ps[i]));
            assert(m1.count(ps[i]) > 0);
            assert(canvas@[ps[i].index_spec(width as int)] == ps[i].color_spec());
        }
    }
    canvas
}

} // verus!
