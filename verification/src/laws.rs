//! Properties of instruction delivery that hold beyond any one function's
//! contract: the final canvas does not depend on the order in which the
//! channel delivers instructions, every intermediate canvas already shows
//! only initial or final values, and a redraw of unchanged contents is
//! byte-identical.

use vstd::prelude::*;

use crate::canvas::apply_paints;
use crate::canvas::lemma_index_in_range;
use crate::canvas::lemma_index_injective;
use crate::canvas::rgba_bytes;
use crate::pixel::Color;
use crate::pixel::Paint;

verus! {

/// No two positions of the batch paint the same coordinate.
pub open spec fn seq_unique_coords(ps: Seq<Paint>) -> bool {
    forall|i: int, j: int|
        0 <= i < ps.len() && 0 <= j < ps.len() && (#[trigger] ps[i]).x == (#[trigger] ps[j]).x
            && ps[i].y == ps[j].y ==> i == j
}

/// Every instruction of the batch paints a coordinate of the target.
pub open spec fn seq_all_in_bounds(ps: Seq<Paint>, width: int, height: int) -> bool {
    forall|i: int| 0 <= i < ps.len() ==> (#[trigger] ps[i]).in_bounds(width, height)
}

/// Whether some instruction of the batch paints row-major index `j`.
pub open spec fn seq_covers_index(ps: Seq<Paint>, width: int, j: int) -> bool {
    exists|i: int| 0 <= i < ps.len() && (#[trigger] ps[i]).index_spec(width) == j
}

/// What one entry holds after a batch of instructions with pairwise
/// distinct coordinates: the color of the instruction that paints it, or
/// the entry's prior value if none does.
pub proof fn lemma_apply_paints_pointwise(
    init: Seq<Color>,
    ps: Seq<Paint>,
    width: int,
    height: int,
    j: int,
)
    requires
        init.len() == width * height,
        0 <= width,
        0 <= height,
        seq_all_in_bounds(ps, width, height),
        seq_unique_coords(ps),
        0 <= j < init.len(),
    ensures
        apply_paints(init, ps, width).len() == init.len(),
        !seq_covers_index(ps, width, j) ==> apply_paints(init, ps, width)[j] == init[j],
        forall|i: int|
            0 <= i < ps.len() && (#[trigger] ps[i]).index_spec(width) == j ==> apply_paints(
                init,
                ps,
                width,
            )[j] == ps[i].color_spec(),
    decreases ps.len(),
{
    if ps.len() == 0 {
    } else {
        let prefix = ps.drop_last();
        let last = ps.last();
        let n = ps.len() - 1;
        assert(seq_all_in_bounds(prefix, width, height)) by {
            assert(forall|i: int| 0 <= i < prefix.len() ==> prefix[i] == ps[i]);
        }
        assert(seq_unique_coords(prefix)) by {
            assert(forall|i: int| 0 <= i < prefix.len() ==> prefix[i] == ps[i]);
        }
        lemma_apply_paints_pointwise(init, prefix, width, height, j);
        lemma_index_in_range(last.x as int, last.y as int, width, height);
        let r = apply_paints(init, ps, width);
        let rp = apply_paints(init, prefix, width);
        assert(r == rp.update(last.index_spec(width), last.color_spec()));
        if j == last.index_spec(width) {
            assert(r[j] == last.color_spec());
            assert forall|i: int|
                0 <= i < ps.len() && (#[trigger] ps[i]).index_spec(width) == j implies r[j]
                == ps[i].color_spec() by {
                lemma_index_injective(
                    ps[i].x as int,
                    ps[i].y as int,
                    last.x as int,
                    last.y as int,
                    width,
                );
                assert(ps[n] == last);
                assert(i == n);
            }
        } else {
            assert(r[j] == rp[j]);
            if seq_covers_index(ps, width, j) {
                assert forall|i: int|
                    0 <= i < ps.len() && (#[trigger] ps[i]).index_spec(width) == j implies r[j]
                    == ps[i].color_spec() by {
                    assert(i != n);
                    assert(prefix[i] == ps[i]);
                }
            } else {
                assert(!seq_covers_index(prefix, width, j)) by {
                    if seq_covers_index(prefix, width, j) {
                        let i = choose|i: int|
                            0 <= i < prefix.len() && (#[trigger] prefix[i]).index_spec(width) == j;
                        assert(ps[i] == prefix[i]);
                        assert(seq_covers_index(ps, width, j));
                    }
                }
            }
        }
    }
}

/// Order independence: delivering the same collection of instructions in
/// any two orders yields the same final canvas, because each coordinate is
/// painted by at most one instruction.
pub proof fn lemma_order_independence(
    init: Seq<Color>,
    ps1: Seq<Paint>,
    ps2: Seq<Paint>,
    width: int,
    height: int,
)
    requires
        init.len() == width * height,
        0 <= width,
        0 <= height,
        ps1.to_multiset() == ps2.to_multiset(),
        seq_all_in_bounds(ps1, width, height),
        seq_unique_coords(ps1),
    ensures
        apply_paints(init, ps1, width) == apply_paints(init, ps2, width),
{
    broadcast use vstd::seq_lib::group_to_multiset_ensures;

    assert(ps1.no_duplicates()) by {
        assert forall|i: int, j: int|
            0 <= i < ps1.len() && 0 <= j < ps1.len() && i != j implies ps1[i] != ps1[j] by {
            if ps1[i] == ps1[j] {
                assert(ps1[i].x == ps1[j].x && ps1[i].y == ps1[j].y);
            }
        }
    }
    ps1.lemma_multiset_has_no_duplicates();
    ps2.lemma_multiset_has_no_duplicates_conv();
    assert(seq_all_in_bounds(ps2, width, height)) by {
        assert forall|i: int| 0 <= i < ps2.len() implies (#[trigger] ps2[i]).in_bounds(
            width,
            height,
        ) by {
            assert(ps2.contains(ps2[i]));
            assert(ps1.to_multiset().count(ps2[i]) > 0);
            assert(ps1.contains(ps2[i]));
            let i1 = choose|i1: int| 0 <= i1 < ps1.len() && ps1[i1] == ps2[i];
            assert(ps1[i1].in_bounds(width, height));
        }
    }
    assert(seq_unique_coords(ps2)) by {
        assert forall|i: int, j: int|
            0 <= i < ps2.len() && 0 <= j < ps2.len() && (#[trigger] ps2[i]).x == (
            #[trigger] ps2[j]).x && ps2[i].y == ps2[j].y implies i == j by {
            assert(ps2.contains(ps2[i]));
            assert(ps2.contains(ps2[j]));
            assert(ps1.to_multiset().count(ps2[i]) > 0);
            assert(ps1.to_multiset().count(ps2[j]) > 0);
            assert(ps1.contains(ps2[i]));
            assert(ps1.contains(ps2[j]));
            let a = choose|a: int| 0 <= a < ps1.len() && ps1[a] == ps2[i];
            let b = choose|b: int| 0 <= b < ps1.len() && ps1[b] == ps2[j];
            assert(a == b);
            assert(ps2[i] == ps2[j]);
        }
    }
    let r1 = apply_paints(init, ps1, width);
    let r2 = apply_paints(init, ps2, width);
    assert forall|j: int| 0 <= j < init.len() implies r1[j] == r2[j] by {
        lemma_apply_paints_pointwise(init, ps1, width, height, j);
        lemma_apply_paints_pointwise(init, ps2, width, height, j);
        if seq_covers_index(ps1, width, j) {
            let i1 = choose|i1: int|
                0 <= i1 < ps1.len() && (#[trigger] ps1[i1]).index_spec(width) == j;
            let p = ps1[i1];
            assert(r1[j] == p.color_spec());
            assert(ps1.contains(p));
            assert(ps2.to_multiset().count(p) > 0);
            assert(ps2.contains(p));
            let i2 = choose|i2: int| 0 <= i2 < ps2.len() && ps2[i2] == p;
            assert(ps2[i2].index_spec(width) == j);
            assert(r2[j] == p.color_spec());
        } else {
            assert(!seq_covers_index(ps2, width, j)) by {
                if seq_covers_index(ps2, width, j) {
                    let i2 = choose|i2: int|
                        0 <= i2 < ps2.len() && (#[trigger] ps2[i2]).index_spec(width) == j;
                    assert(ps2.contains(ps2[i2]));
                    assert(ps1.to_multiset().count(ps2[i2]) > 0);
                    assert(ps1.contains(ps2[i2]));
                    let i1 = choose|i1: int| 0 <= i1 < ps1.len() && ps1[i1] == ps2[i2];
                    assert(seq_covers_index(ps1, width, j));
                }
            }
            assert(r1[j] == init[j]);
            assert(r2[j] == init[j]);
        }
    }
    assert forall|i: int| 0 <= i < ps1.len() implies 0 <= (#[trigger] ps1[i]).index_spec(width)
        < init.len() by {
        lemma_index_in_range(ps1[i].x as int, ps1[i].y as int, width, height);
    }
    assert forall|i: int| 0 <= i < ps2.len() implies 0 <= (#[trigger] ps2[i]).index_spec(width)
        < init.len() by {
        lemma_index_in_range(ps2[i].x as int, ps2[i].y as int, width, height);
    }
    lemma_apply_paints_len(init, ps1, width);
    lemma_apply_paints_len(init, ps2, width);
    assert(r1 =~= r2);
}

/// The length of the pixel store never changes while instructions are
/// folded in.
pub proof fn lemma_apply_paints_len(init: Seq<Color>, ps: Seq<Paint>, width: int)
    requires
        forall|i: int| 0 <= i < ps.len() ==> 0 <= (#[trigger] ps[i]).index_spec(width) < init.len(),
    ensures
        apply_paints(init, ps, width).len() == init.len(),
    decreases ps.len(),
{
    if ps.len() == 0 {
    } else {
        let prefix = ps.drop_last();
        assert(forall|i: int| 0 <= i < prefix.len() ==> prefix[i] == ps[i]);
        lemma_apply_paints_len(init, prefix, width);
    }
}

/// Progressive correctness: at any point before the channel is fully
/// drained, every canvas entry is either the initial value or the correct
/// final color for its coordinate, never an intermediate value — provided
/// every delivered instruction carries the correct color for its
/// coordinate.
pub proof fn lemma_progressive_correctness(
    init: Seq<Color>,
    ps: Seq<Paint>,
    width: int,
    height: int,
    correct: spec_fn(int, int) -> Color,
)
    requires
        init.len() == width * height,
        0 <= width,
        0 <= height,
        seq_all_in_bounds(ps, width, height),
        forall|i: int|
            0 <= i < ps.len() ==> (#[trigger] ps[i]).color_spec() == correct(
                ps[i].x as int,
                ps[i].y as int,
            ),
    ensures
        forall|j: int|
            0 <= j < init.len() ==> apply_paints(init, ps, width)[j] == init[j] || apply_paints(
                init,
                ps,
                width,
            )[j] == correct(j % width, j / width),
    decreases ps.len(),
{
    if ps.len() == 0 {
    } else {
        let prefix = ps.drop_last();
        let last = ps.last();
        assert(forall|i: int| 0 <= i < prefix.len() ==> prefix[i] == ps[i]);
        assert(ps[ps.len() - 1] == last);
        lemma_progressive_correctness(init, prefix, width, height, correct);
        lemma_index_in_range(last.x as int, last.y as int, width, height);
        let r = apply_paints(init, ps, width);
        let rp = apply_paints(init, prefix, width);
        assert(r == rp.update(last.index_spec(width), last.color_spec()));
        assert forall|j: int| 0 <= j < init.len() implies r[j] == init[j] || r[j] == correct(
            j % width,
            j / width,
        ) by {
            assert forall|i: int| 0 <= i < prefix.len() implies 0 <= (
            #[trigger] prefix[i]).index_spec(width) < init.len() by {
                lemma_index_in_range(prefix[i].x as int, prefix[i].y as int, width, height);
            }
            lemma_apply_paints_len(init, prefix, width);
            if j == last.index_spec(width) {
                vstd::arithmetic::div_mod::lemma_fundamental_div_mod_converse(
                    j,
                    width,
                    last.y as int,
                    last.x as int,
                );
                assert(r[j] == last.color_spec());
                assert(last.color_spec() == correct(j % width, j / width));
            } else {
                assert(r[j] == rp[j]);
            }
        }
    }
}

/// Idempotent redraw: the frame handed to the display backend is a
/// function of the canvas contents alone, so rendering the same contents
/// twice in a row produces byte-identical output.
pub proof fn lemma_redraw_idempotent(c1: Seq<Color>, c2: Seq<Color>)
    requires
        c1 == c2,
    ensures
        rgba_bytes(c1) == rgba_bytes(c2),
{
}

} // verus!
