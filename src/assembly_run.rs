//! A model of a whole assembly: the outcomes of the tile fetches arrive at
//! one [`crate::assembler::Assembler`] in any order, each taken by
//! [`crate::assembler::Assembler::accept`] as its contract describes it.

use vstd::prelude::*;
use crate::assembler::{AssemblyView, TileView, accepted, canvas_height, canvas_width, started};
use crate::canvas::{RipError, in_rect};

verus! {

/// The assembly after the outcomes of `events`, each a cell and what its
/// fetch gave, arrived in that order.
pub open spec fn accepted_all(a: AssemblyView, events: Seq<(int, int, Result<TileView, RipError>)>) -> AssemblyView
    decreases events.len(),
{
    if events.len() == 0 {
        a
    } else {
        accepted_all(accepted(a, events[0].0, events[0].1, events[0].2), events.drop_first())
    }
}

/// The outcomes of fetches that all succeeded, the cells in the order of
/// `order`, each giving the tile that `tiles` names for it.
pub open spec fn successes(order: Seq<(int, int)>, tiles: spec_fn(int, int) -> TileView) -> Seq<(int, int, Result<TileView, RipError>)> {
    Seq::new(order.len(), |i: int| (order[i].0, order[i].1, Ok(tiles(order[i].0, order[i].1))))
}

/// (`x`, `y`) is a cell of a `columns` by `rows` grid.
pub open spec fn in_grid(x: int, y: int, columns: int, rows: int) -> bool {
    0 <= x < columns && 0 <= y < rows
}

/// `order` lists cells of the grid only, and every cell but the origin.
pub open spec fn covers_grid(order: Seq<(int, int)>, columns: int, rows: int) -> bool {
    &&& forall|i: int| 0 <= i < order.len() ==> in_grid(#[trigger] order[i].0, order[i].1, columns, rows)
    &&& forall|x: int, y: int| in_grid(x, y, columns, rows) && (x, y) != (0int, 0int)
        ==> #[trigger] order.contains((x, y))
}

/// Every tile of the grid has the size of the head tile, and the head is the
/// tile of the origin.
pub open spec fn uniform_tiles(columns: int, rows: int, head: TileView, tiles: spec_fn(int, int) -> TileView) -> bool {
    &&& tiles(0, 0) == head
    &&& forall|x: int, y: int| in_grid(x, y, columns, rows)
        ==> (#[trigger] tiles(x, y)).width == head.width && tiles(x, y).height == head.height
}

/// The pixels of the block of cell (`x`, `y`) are those of `tile`.
pub open spec fn block_holds(a: AssemblyView, x: int, y: int, tile: TileView) -> bool {
    forall|i: int, j: int| 0 <= i < a.tile_width && 0 <= j < a.tile_height
        ==> #[trigger] a.pixels[(x * a.tile_width + i, y * a.tile_height + j)] == tile.pixels[(i, j)]
}

spec fn fill_inv(a: AssemblyView, columns: int, rows: int, head: TileView, tiles: spec_fn(int, int) -> TileView, placed: Set<(int, int)>) -> bool {
    &&& a.columns == columns
    &&& a.rows == rows
    &&& a.tile_width == head.width
    &&& a.tile_height == head.height
    &&& a.failure is None
    &&& forall|p: (int, int)| #[trigger] a.pixels.dom().contains(p) <==> in_rect(p, canvas_width(a), canvas_height(a))
    &&& forall|x: int, y: int| #[trigger] placed.contains((x, y)) ==> in_grid(x, y, columns, rows) && block_holds(a, x, y, tiles(x, y))
}

/// A point of the block of one cell lies in no other cell's block.
proof fn lemma_block_unique(x: int, i: int, x2: int, w: int)
    requires
        0 <= i < w,
        x2 * w <= x * w + i < x2 * w + w,
    ensures
        x2 == x,
{
    if x2 < x {
        assert(x2 * w + w <= x * w) by (nonlinear_arith)
            requires x2 < x, 0 < w;
    } else if x2 > x {
        assert(x * w + w <= x2 * w) by (nonlinear_arith)
            requires x < x2, 0 < w;
    }
}

proof fn lemma_fill_step(a: AssemblyView, columns: int, rows: int, head: TileView, tiles: spec_fn(int, int) -> TileView, placed: Set<(int, int)>, x: int, y: int)
    requires
        fill_inv(a, columns, rows, head, tiles, placed),
        uniform_tiles(columns, rows, head, tiles),
        in_grid(x, y, columns, rows),
        0 <= head.width,
        0 <= head.height,
    ensures
        fill_inv(accepted(a, x, y, Ok(tiles(x, y))), columns, rows, head, tiles, placed.insert((x, y))),
{
    let w = head.width;
    let h = head.height;
    let t = tiles(x, y);
    assert(x * w + w <= columns * w) by (nonlinear_arith)
        requires x < columns, 0 <= w;
    assert(y * h + h <= rows * h) by (nonlinear_arith)
        requires y < rows, 0 <= h;
    let b = accepted(a, x, y, Ok(t));
    assert(b.pixels == crate::canvas::pasted(a.pixels, t.pixels, x * w, y * h, w, h));
    assert forall|x2: int, y2: int| #[trigger] placed.insert((x, y)).contains((x2, y2))
        implies in_grid(x2, y2, columns, rows) && block_holds(b, x2, y2, tiles(x2, y2)) by {
        if (x2, y2) == (x, y) {
            assert forall|i: int, j: int| 0 <= i < w && 0 <= j < h
                implies #[trigger] b.pixels[(x2 * w + i, y2 * h + j)] == tiles(x2, y2).pixels[(i, j)] by {
                assert(0 <= x2 * w) by (nonlinear_arith) requires 0 <= x2, 0 <= w;
                assert(0 <= y2 * h) by (nonlinear_arith) requires 0 <= y2, 0 <= h;
                assert(a.pixels.dom().contains((x2 * w + i, y2 * h + j)));
            }
        } else {
            assert(placed.contains((x2, y2)));
            assert forall|i: int, j: int| 0 <= i < w && 0 <= j < h
                implies #[trigger] b.pixels[(x2 * w + i, y2 * h + j)] == tiles(x2, y2).pixels[(i, j)] by {
                let p = (x2 * w + i, y2 * h + j);
                assert(a.pixels[p] == tiles(x2, y2).pixels[(i, j)]);
                assert(x2 * w + i < columns * w) by (nonlinear_arith)
                    requires x2 < columns, 0 <= i < w;
                assert(y2 * h + j < rows * h) by (nonlinear_arith)
                    requires y2 < rows, 0 <= j < h;
                assert(0 <= x2 * w) by (nonlinear_arith) requires 0 <= x2, 0 <= w;
                assert(0 <= y2 * h) by (nonlinear_arith) requires 0 <= y2, 0 <= h;
                assert(a.pixels.dom().contains(p));
                if x * w <= p.0 < x * w + w && y * h <= p.1 < y * h + h {
                    lemma_block_unique(x2, i, x, w);
                    lemma_block_unique(y2, j, y, h);
                }
            }
        }
    }
}

proof fn lemma_fill(a: AssemblyView, columns: int, rows: int, head: TileView, tiles: spec_fn(int, int) -> TileView, placed: Set<(int, int)>, order: Seq<(int, int)>)
    requires
        fill_inv(a, columns, rows, head, tiles, placed),
        uniform_tiles(columns, rows, head, tiles),
        forall|i: int| 0 <= i < order.len() ==> in_grid(#[trigger] order[i].0, order[i].1, columns, rows),
        0 <= head.width,
        0 <= head.height,
    ensures
        fill_inv(accepted_all(a, successes(order, tiles)), columns, rows, head, tiles, placed + order.to_set()),
    decreases order.len(),
{
    if order.len() == 0 {
        assert(placed + order.to_set() =~= placed);
    } else {
        let (x, y) = order[0];
        assert(in_grid(order[0].0, order[0].1, columns, rows));
        lemma_fill_step(a, columns, rows, head, tiles, placed, x, y);
        let rest = order.drop_first();
        assert(successes(order, tiles).drop_first() =~= successes(rest, tiles));
        assert forall|i: int| 0 <= i < rest.len() implies in_grid(#[trigger] rest[i].0, rest[i].1, columns, rows) by {
            assert(rest[i] == order[i + 1]);
        }
        lemma_fill(accepted(a, x, y, Ok(tiles(x, y))), columns, rows, head, tiles, placed.insert((x, y)), rest);
        assert(placed.insert((x, y)) + rest.to_set() =~= placed + order.to_set()) by {
            assert forall|c: (int, int)| (placed + order.to_set()).contains(c) implies (placed.insert((x, y)) + rest.to_set()).contains(c) by {
                if order.to_set().contains(c) && c != (x, y) {
                    let k = choose|k: int| 0 <= k < order.len() && order[k] == c;
                    assert(rest[k - 1] == c);
                }
            }
            assert forall|c: (int, int)| (placed.insert((x, y)) + rest.to_set()).contains(c) implies (placed + order.to_set()).contains(c) by {
                if rest.to_set().contains(c) {
                    let k = choose|k: int| 0 <= k < rest.len() && rest[k] == c;
                    assert(order[k + 1] == c);
                }
                if c == (x, y) {
                    assert(order[0] == c);
                }
            }
        }
    }
}

/// Where every tile of a `columns` by `rows` grid has the head tile's size
/// `w` by `h`, and the fetches of every other cell succeed, arriving in any
/// order: the canvas is exactly `columns · w` by `rows · h`, no failure is
/// recorded, and the block of pixels of each cell (`x`, `y`), from
/// (`x · w`, `y · h`) on, is the tile fetched for that cell.
pub proof fn lemma_tiles_fill_their_blocks(columns: int, rows: int, head: TileView, tiles: spec_fn(int, int) -> TileView, order: Seq<(int, int)>)
    requires
        1 <= columns,
        1 <= rows,
        0 <= head.width,
        0 <= head.height,
        uniform_tiles(columns, rows, head, tiles),
        covers_grid(order, columns, rows),
    ensures
        ({
            let end = accepted_all(started(columns, rows, head), successes(order, tiles));
            &&& end.failure is None
            &&& end.columns == columns && end.rows == rows
            &&& end.tile_width == head.width && end.tile_height == head.height
            &&& canvas_width(end) == columns * head.width && canvas_height(end) == rows * head.height
            &&& forall|p: (int, int)| #[trigger] end.pixels.dom().contains(p)
                <==> in_rect(p, columns * head.width, rows * head.height)
            &&& forall|x: int, y: int| in_grid(x, y, columns, rows) ==> block_holds(end, x, y, #[trigger] tiles(x, y))
        }),
{
    let start = started(columns, rows, head);
    let w = head.width;
    let h = head.height;
    assert(0 * w == 0 && 0 * h == 0) by (nonlinear_arith);
    assert(w <= columns * w) by (nonlinear_arith) requires 1 <= columns, 0 <= w;
    assert(h <= rows * h) by (nonlinear_arith) requires 1 <= rows, 0 <= h;
    let placed = Set::empty().insert((0int, 0int));
    assert(fill_inv(start, columns, rows, head, tiles, placed)) by {
        assert forall|i: int, j: int| 0 <= i < w && 0 <= j < h
            implies #[trigger] start.pixels[(0 * w + i, 0 * h + j)] == tiles(0, 0).pixels[(i, j)] by {
            assert(start.pixels.dom().contains((i, j)));
        }
        assert(block_holds(start, 0, 0, tiles(0, 0)));
    }
    lemma_fill(start, columns, rows, head, tiles, placed, order);
    let end = accepted_all(start, successes(order, tiles));
    assert forall|x: int, y: int| in_grid(x, y, columns, rows) implies block_holds(end, x, y, #[trigger] tiles(x, y)) by {
        if (x, y) != (0int, 0int) {
            assert(order.contains((x, y)));
        }
        assert((placed + order.to_set()).contains((x, y)));
    }
}

/// Where every tile has the head tile's size and two runs fetch the same
/// tiles, the finished assembly is the same whatever order the tiles
/// arrived in.
pub proof fn lemma_arrival_order_is_irrelevant(columns: int, rows: int, head: TileView, tiles: spec_fn(int, int) -> TileView, first: Seq<(int, int)>, second: Seq<(int, int)>)
    requires
        1 <= columns,
        1 <= rows,
        0 <= head.width,
        0 <= head.height,
        uniform_tiles(columns, rows, head, tiles),
        covers_grid(first, columns, rows),
        covers_grid(second, columns, rows),
    ensures
        accepted_all(started(columns, rows, head), successes(first, tiles))
            == accepted_all(started(columns, rows, head), successes(second, tiles)),
{
    let start = started(columns, rows, head);
    let w = head.width;
    let h = head.height;
    lemma_tiles_fill_their_blocks(columns, rows, head, tiles, first);
    lemma_tiles_fill_their_blocks(columns, rows, head, tiles, second);
    let a = accepted_all(start, successes(first, tiles));
    let b = accepted_all(start, successes(second, tiles));
    assert forall|p: (int, int)| a.pixels.dom().contains(p) implies a.pixels[p] == b.pixels[p] by {
        assert(in_rect(p, columns * w, rows * h));
        assert(0 < w) by (nonlinear_arith) requires 0 <= p.0 < columns * w, 0 <= w;
        assert(0 < h) by (nonlinear_arith) requires 0 <= p.1 < rows * h, 0 <= h;
        let x = p.0 / w;
        let i = p.0 % w;
        let y = p.1 / h;
        let j = p.1 % h;
        assert(p.0 == x * w + i && 0 <= i < w) by (nonlinear_arith) requires 0 < w, x == p.0 / w, i == p.0 % w;
        assert(p.1 == y * h + j && 0 <= j < h) by (nonlinear_arith) requires 0 < h, y == p.1 / h, j == p.1 % h;
        assert(0 <= x < columns) by (nonlinear_arith) requires 0 < w, 0 <= p.0 < columns * w, p.0 == x * w + i, 0 <= i < w;
        assert(0 <= y < rows) by (nonlinear_arith) requires 0 < h, 0 <= p.1 < rows * h, p.1 == y * h + j, 0 <= j < h;
        assert(block_holds(a, x, y, tiles(x, y)));
        assert(block_holds(b, x, y, tiles(x, y)));
        assert(a.pixels[(x * w + i, y * h + j)] == tiles(x, y).pixels[(i, j)]);
        assert(b.pixels[(x * w + i, y * h + j)] == tiles(x, y).pixels[(i, j)]);
    }
    assert(a.pixels =~= b.pixels);
}

proof fn lemma_failure_is_kept(a: AssemblyView, events: Seq<(int, int, Result<TileView, RipError>)>)
    requires
        a.failure is Some,
    ensures
        accepted_all(a, events) == a,
    decreases events.len(),
{
    if events.len() > 0 {
        lemma_failure_is_kept(accepted(a, events[0].0, events[0].1, events[0].2), events.drop_first());
    }
}

/// Where the fetch of any one cell fails, the assembly ends with a failure
/// (and so [`crate::assembler::Assembler::finish`] returns no image),
/// whatever the other fetches gave and whatever the order of arrival.
pub proof fn lemma_failed_fetch_fails_assembly(a: AssemblyView, events: Seq<(int, int, Result<TileView, RipError>)>, k: int)
    requires
        0 <= k < events.len(),
        events[k].2 is Err,
    ensures
        accepted_all(a, events).failure is Some,
    decreases events.len(),
{
    let next = accepted(a, events[0].0, events[0].1, events[0].2);
    if k == 0 {
        lemma_failure_is_kept(next, events.drop_first());
    } else {
        lemma_failed_fetch_fails_assembly(next, events.drop_first(), k - 1);
    }
}

} // verus!
