//! Grid-cell and entity-list helpers shared by the owner transactions.

use vstd::prelude::*;

verus! {

/// The bits of an ECS entity.
pub type EntityId = u64;

/// A grid cell `(x, y)`.
pub type Grid = (i32, i32);

/// Smallest `x` among the cells.
pub open spec fn min_x(g: Seq<Grid>) -> int
    decreases g.len(),
{
    if g.len() <= 1 {
        if g.len() == 1 { g[0].0 as int } else { 0 }
    } else {
        let m = min_x(g.drop_last());
        if (g.last().0 as int) < m { g.last().0 as int } else { m }
    }
}

/// Smallest `y` among the cells.
pub open spec fn min_y(g: Seq<Grid>) -> int
    decreases g.len(),
{
    if g.len() <= 1 {
        if g.len() == 1 { g[0].1 as int } else { 0 }
    } else {
        let m = min_y(g.drop_last());
        if (g.last().1 as int) < m { g.last().1 as int } else { m }
    }
}

/// Whether the cells are exactly a `width` x `height` rectangle: as many
/// cells as the rectangle has, not none, and every cell of the rectangle
/// anchored at the smallest `x` and `y` among them present.
pub open spec fn spec_exact_rectangle(g: Seq<Grid>, width: int, height: int) -> bool {
    &&& width * height >= 0
    &&& g.len() == width * height
    &&& g.len() > 0
    &&& forall|x: int, y: int|
        min_x(g) <= x < min_x(g) + width && min_y(g) <= y < min_y(g) + height ==> #[trigger] g.contains(
            (x as i32, y as i32),
        )
}

proof fn lemma_min_x_bound(g: Seq<Grid>)
    requires
        g.len() > 0,
    ensures
        forall|i: int| 0 <= i < g.len() ==> min_x(g) <= g[i].0,
        exists|i: int| 0 <= i < g.len() && min_x(g) == g[i].0,
    decreases g.len(),
{
    if g.len() > 1 {
        lemma_min_x_bound(g.drop_last());
        let m = min_x(g.drop_last());
        let w = choose|i: int| 0 <= i < g.drop_last().len() && m == g.drop_last()[i].0;
        assert(g[w] == g.drop_last()[w]);
        assert forall|i: int| 0 <= i < g.len() implies min_x(g) <= g[i].0 by {
            if i < g.len() - 1 {
                assert(g[i] == g.drop_last()[i]);
            }
        }
        if (g.last().0 as int) < m {
            let k = g.len() - 1;
            assert(0 <= k < g.len() && min_x(g) == g[k].0);
        } else {
            assert(0 <= w < g.len() && min_x(g) == g[w].0);
        }
    } else {
        assert(0 <= 0 < g.len() && min_x(g) == g[0].0);
    }
}

proof fn lemma_min_y_bound(g: Seq<Grid>)
    requires
        g.len() > 0,
    ensures
        forall|i: int| 0 <= i < g.len() ==> min_y(g) <= g[i].1,
        exists|i: int| 0 <= i < g.len() && min_y(g) == g[i].1,
    decreases g.len(),
{
    if g.len() > 1 {
        lemma_min_y_bound(g.drop_last());
        let m = min_y(g.drop_last());
        let w = choose|i: int| 0 <= i < g.drop_last().len() && m == g.drop_last()[i].1;
        assert(g[w] == g.drop_last()[w]);
        assert forall|i: int| 0 <= i < g.len() implies min_y(g) <= g[i].1 by {
            if i < g.len() - 1 {
                assert(g[i] == g.drop_last()[i]);
            }
        }
        if (g.last().1 as int) < m {
            let k = g.len() - 1;
            assert(0 <= k < g.len() && min_y(g) == g[k].1);
        } else {
            assert(0 <= w < g.len() && min_y(g) == g[w].1);
        }
    } else {
        assert(0 <= 0 < g.len() && min_y(g) == g[0].1);
    }
}

/// Whether `grid` is one of `grids`.
pub fn grid_in(grids: &[Grid], grid: Grid) -> (r: bool)
    ensures
        r == grids@.contains(grid),
{
    let mut i: usize = 0;
    while i < grids.len()
        invariant
            i <= grids@.len(),
            forall|j: int| 0 <= j < i ==> grids@[j] != grid,
        decreases grids.len() - i,
    {
        if grids[i].0 == grid.0 && grids[i].1 == grid.1 {
            assert(grids@[i as int] == grid);
            return true;
        }
        i += 1;
    }
    false
}

/// Whether the cells form exactly a `width` x `height` rectangle.
pub fn exact_rectangle(grids: &[Grid], width: i32, height: i32) -> (r: bool)
    requires
        i32::MIN <= width * height <= i32::MAX,
        forall|i: int|
            0 <= i < grids@.len() ==> i32::MIN <= #[trigger] grids@[i].0 + width <= i32::MAX
                && i32::MIN <= grids@[i].1 + height <= i32::MAX,
    ensures
        r == spec_exact_rectangle(grids@, width as int, height as int),
{
    let area = width * height;
    if area < 0 || grids.len() != area as usize {
        return false;
    }
    if grids.len() == 0 {
        return false;
    }
    let ghost g = grids@;
    proof {
        lemma_min_x_bound(g);
        lemma_min_y_bound(g);
    }
    let mut mx = grids[0].0;
    let mut my = grids[0].1;
    let mut i: usize = 1;
    while i < grids.len()
        invariant
            1 <= i <= grids@.len(),
            g == grids@,
            mx == min_x(g.take(i as int)),
            my == min_y(g.take(i as int)),
        decreases grids.len() - i,
    {
        proof {
            assert(g.take(i + 1).drop_last() =~= g.take(i as int));
        }
        if grids[i].0 < mx {
            mx = grids[i].0;
        }
        if grids[i].1 < my {
            my = grids[i].1;
        }
        i += 1;
    }
    assert(g.take(g.len() as int) =~= g);
    let ghost wx = choose|i: int| 0 <= i < g.len() && min_x(g) == g[i].0;
    let ghost wy = choose|i: int| 0 <= i < g.len() && min_y(g) == g[i].1;
    assert(grids@[wx].0 + width <= i32::MAX);
    assert(grids@[wy].1 + height <= i32::MAX);
    let end_x = mx + width;
    let end_y = my + height;
    let mut y = my;
    while y < end_y
        invariant
            g == grids@,
            mx == min_x(g),
            my == min_y(g),
            end_x == mx + width,
            end_y == my + height,
            my <= y,
            forall|xx: int, yy: int|
                mx <= xx < end_x && my <= yy < y ==> #[trigger] g.contains((xx as i32, yy as i32)),
        decreases end_y - y,
    {
        let mut x = mx;
        while x < end_x
            invariant
                g == grids@,
                mx == min_x(g),
                my == min_y(g),
                end_x == mx + width,
                end_y == my + height,
                my <= y < end_y,
                mx <= x,
                forall|xx: int, yy: int|
                    mx <= xx < end_x && my <= yy < y ==> #[trigger] g.contains((xx as i32, yy as i32)),
                forall|xx: int| mx <= xx < x ==> #[trigger] g.contains((xx as i32, y)),
            decreases end_x - x,
        {
            if !grid_in(grids, (x, y)) {
                proof {
                    let xi = x as int;
                    let yi = y as int;
                    assert(!g.contains((xi as i32, yi as i32)));
                    assert(min_x(g) <= xi < min_x(g) + width && min_y(g) <= yi < min_y(g) + height);
                }
                return false;
            }
            x += 1;
        }
        proof {
            assert forall|xx: int, yy: int|
                mx <= xx < end_x && my <= yy < y + 1 implies #[trigger] g.contains(
                (xx as i32, yy as i32),
            ) by {
                if yy == y as int {
                    assert(g.contains((xx as i32, y)));
                }
            }
        }
        y += 1;
    }
    true
}

/// A copy of a list of cells.
pub fn copy_grids(g: &Vec<Grid>) -> (r: Vec<Grid>)
    ensures
        r@ == g@,
{
    let mut r: Vec<Grid> = Vec::new();
    let mut i: usize = 0;
    while i < g.len()
        invariant
            i <= g@.len(),
            r@ == g@.take(i as int),
        decreases g.len() - i,
    {
        r.push(g[i]);
        proof {
            assert(g@.take(i + 1) =~= g@.take(i as int).push(g@[i as int]));
        }
        i += 1;
    }
    assert(g@.take(g@.len() as int) =~= g@);
    r
}

/// A copy of a list of entities.
pub fn copy_entities(g: &Vec<EntityId>) -> (r: Vec<EntityId>)
    ensures
        r@ == g@,
{
    let mut r: Vec<EntityId> = Vec::new();
    let mut i: usize = 0;
    while i < g.len()
        invariant
            i <= g@.len(),
            r@ == g@.take(i as int),
        decreases g.len() - i,
    {
        r.push(g[i]);
        proof {
            assert(g@.take(i + 1) =~= g@.take(i as int).push(g@[i as int]));
        }
        i += 1;
    }
    assert(g@.take(g@.len() as int) =~= g@);
    r
}

/// Whether a list is strictly increasing (sorted and without repeats).
pub open spec fn strictly_increasing(s: Seq<EntityId>) -> bool {
    forall|i: int, j: int| 0 <= i < j < s.len() ==> s[i] < s[j]
}

/// Inserts `v` into a strictly increasing list, keeping it so.
fn insert_sorted_unique(out: &mut Vec<EntityId>, v: EntityId)
    requires
        strictly_increasing(old(out)@),
    ensures
        strictly_increasing(final(out)@),
        final(out)@.to_set() == old(out)@.to_set().insert(v),
{
    let ghost o = out@;
    let mut i: usize = 0;
    while i < out.len() && out[i] < v
        invariant
            out@ == o,
            i <= out@.len(),
            forall|j: int| 0 <= j < i ==> out@[j] < v,
        decreases out.len() - i,
    {
        i += 1;
    }
    if i < out.len() && out[i] == v {
        assert(o.to_set() =~= o.to_set().insert(v)) by {
            assert(o[i as int] == v);
            assert(o.contains(v));
        }
        return;
    }
    assert(i < o.len() ==> o[i as int] > v);
    out.insert(i, v);
    proof {
        let n = out@;
        assert(n =~= o.take(i as int).push(v) + o.skip(i as int));
        assert forall|a: int, b: int| 0 <= a < b < n.len() implies n[a] < n[b] by {
            if a < i && b < i {
            } else if a < i && b == i {
            } else if a < i {
                assert(n[b] == o[b - 1]);
            } else if a == i {
                assert(n[b] == o[b - 1]);
                assert(i < o.len() ==> o[i as int] > v);
                if b - 1 > i {
                    assert(o[i as int] < o[b - 1]);
                }
            } else {
                assert(n[a] == o[a - 1] && n[b] == o[b - 1]);
            }
        }
        assert forall|x: EntityId| n.to_set().contains(x) <==> o.to_set().insert(v).contains(x) by {
            if n.contains(x) {
                let k = choose|k: int| 0 <= k < n.len() && n[k] == x;
                if k < i {
                    assert(o[k] == x);
                } else if k > i {
                    assert(o[k - 1] == x);
                }
            }
            if o.contains(x) {
                let k = choose|k: int| 0 <= k < o.len() && o[k] == x;
                if k < i {
                    assert(n[k] == x);
                } else {
                    assert(n[k + 1] == x);
                }
            }
            if x == v {
                assert(n[i as int] == v);
            }
        }
        assert(n.to_set() =~= o.to_set().insert(v));
    }
}

/// The entities of `items`, sorted by their bits and without repeats
/// (`sort_unstable_by_key(to_bits)` followed by `dedup`).
pub fn sorted_unique(items: &[EntityId]) -> (out: Vec<EntityId>)
    ensures
        strictly_increasing(out@),
        out@.to_set() == items@.to_set(),
{
    let mut out: Vec<EntityId> = Vec::new();
    let mut i: usize = 0;
    while i < items.len()
        invariant
            i <= items@.len(),
            strictly_increasing(out@),
            out@.to_set() == items@.take(i as int).to_set(),
        decreases items.len() - i,
    {
        insert_sorted_unique(&mut out, items[i]);
        proof {
            assert(items@.take(i + 1) =~= items@.take(i as int).push(items@[i as int]));
            items@.take(i as int).lemma_push_to_set_commute(items@[i as int]);
        }
        i += 1;
    }
    assert(items@.take(items@.len() as int) =~= items@);
    out
}


/// `a` comes before `b` in `(y, x)` order.
pub open spec fn yx_lt(a: Grid, b: Grid) -> bool {
    a.1 < b.1 || (a.1 == b.1 && a.0 < b.0)
}

/// Strictly increasing in `(y, x)` order: sorted and without repeats.
pub open spec fn strictly_yx_increasing(g: Seq<Grid>) -> bool {
    forall|i: int, j: int| 0 <= i < j < g.len() ==> yx_lt(g[i], g[j])
}

/// Inserts `v` into a list strictly increasing in `(y, x)` order, keeping
/// it so.
fn insert_sorted_unique_grid(out: &mut Vec<Grid>, v: Grid)
    requires
        strictly_yx_increasing(old(out)@),
    ensures
        strictly_yx_increasing(final(out)@),
        final(out)@.to_set() == old(out)@.to_set().insert(v),
{
    let ghost o = out@;
    let mut i: usize = 0;
    while i < out.len() && (out[i].1 < v.1 || (out[i].1 == v.1 && out[i].0 < v.0))
        invariant
            out@ == o,
            i <= out@.len(),
            forall|j: int| 0 <= j < i ==> yx_lt(out@[j], v),
        decreases out.len() - i,
    {
        i += 1;
    }
    if i < out.len() && out[i].0 == v.0 && out[i].1 == v.1 {
        assert(o.to_set() =~= o.to_set().insert(v)) by {
            assert(o[i as int] == v);
            assert(o.contains(v));
        }
        return;
    }
    assert(i < o.len() ==> yx_lt(v, o[i as int]));
    out.insert(i, v);
    proof {
        let n = out@;
        assert(n =~= o.take(i as int).push(v) + o.skip(i as int));
        assert forall|a: int, b: int| 0 <= a < b < n.len() implies yx_lt(n[a], n[b]) by {
            if a < i && b < i {
            } else if a < i && b == i {
            } else if a < i {
                assert(n[b] == o[b - 1]);
                if i < o.len() {
                    assert(yx_lt(v, o[i as int]));
                    if b - 1 > i {
                        assert(yx_lt(o[i as int], o[b - 1]));
                    }
                }
            } else if a == i {
                assert(n[b] == o[b - 1]);
                if b - 1 > i {
                    assert(yx_lt(o[i as int], o[b - 1]));
                }
            } else {
                assert(n[a] == o[a - 1] && n[b] == o[b - 1]);
            }
        }
        assert forall|x: Grid| n.to_set().contains(x) <==> o.to_set().insert(v).contains(x) by {
            if n.contains(x) {
                let k = choose|k: int| 0 <= k < n.len() && n[k] == x;
                if k < i {
                    assert(o[k] == x);
                } else if k > i {
                    assert(o[k - 1] == x);
                }
            }
            if o.contains(x) {
                let k = choose|k: int| 0 <= k < o.len() && o[k] == x;
                if k < i {
                    assert(n[k] == x);
                } else {
                    assert(n[k + 1] == x);
                }
            }
            if x == v {
                assert(n[i as int] == v);
            }
        }
        assert(n.to_set() =~= o.to_set().insert(v));
    }
}

/// The cells of `items`, sorted by `(y, x)` and without repeats
/// (`sort_unstable_by_key(|(x, y)| (y, x))` followed by `dedup`).
pub fn sorted_unique_grids(items: &[Grid]) -> (out: Vec<Grid>)
    ensures
        strictly_yx_increasing(out@),
        out@.to_set() == items@.to_set(),
{
    let mut out: Vec<Grid> = Vec::new();
    let mut i: usize = 0;
    while i < items.len()
        invariant
            i <= items@.len(),
            strictly_yx_increasing(out@),
            out@.to_set() == items@.take(i as int).to_set(),
        decreases items.len() - i,
    {
        insert_sorted_unique_grid(&mut out, items[i]);
        proof {
            assert(items@.take(i + 1) =~= items@.take(i as int).push(items@[i as int]));
            items@.take(i as int).lemma_push_to_set_commute(items@[i as int]);
        }
        i += 1;
    }
    assert(items@.take(items@.len() as int) =~= items@);
    out
}

} // verus!
