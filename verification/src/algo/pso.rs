use vstd::arithmetic::power::pow;
use vstd::prelude::*;

verus! {

/// Where particle number `g` sits on the swarm's starting grid.
///
/// Dimensions are visited in order. A frozen dimension (one whose search range is a
/// single value) takes no grid coordinate (`None`). Every other dimension takes the
/// next base-`p` digit of `g`, least significant first.
pub open spec fn grid_cell_spec(g: usize, frozen: Seq<bool>, p: usize) -> Seq<Option<usize>>
    decreases frozen.len(),
{
    if frozen.len() == 0 {
        Seq::empty()
    } else if frozen[0] {
        seq![None].add(grid_cell_spec(g, frozen.drop_first(), p))
    } else {
        seq![Some(g % p)].add(grid_cell_spec(g / p, frozen.drop_first(), p))
    }
}

/// The number of dimensions that are not frozen.
pub open spec fn active_dims(frozen: Seq<bool>) -> nat
    decreases frozen.len(),
{
    if frozen.len() == 0 {
        0
    } else {
        (if frozen[0] { 0nat } else { 1nat }) + active_dims(frozen.drop_first())
    }
}

/// The number a grid cell stands for: its coordinates read, in dimension order, as
/// the digits of a base-`p` number, least significant first (frozen dimensions
/// contribute no digit).
pub open spec fn grid_value(cell: Seq<Option<usize>>, p: usize) -> int
    decreases cell.len(),
{
    if cell.len() == 0 {
        0
    } else {
        match cell[0] {
            None => grid_value(cell.drop_first(), p),
            Some(d) => d + p * grid_value(cell.drop_first(), p),
        }
    }
}

/// True when a grid of `p` points per dimension can be used: `p` is positive, or no
/// dimension needs a grid coordinate.
pub open spec fn grid_usable(frozen: Seq<bool>, p: usize) -> bool {
    p > 0 || (forall|j: int| 0 <= j < frozen.len() ==> #[trigger] frozen[j])
}

/// Grid coordinates of particle `particle` on a grid with `points_per_dim` points in
/// every dimension that is not frozen. `frozen[j]` says whether dimension `j` has an
/// empty search range; such dimensions get `None`.
pub fn grid_cell(particle: usize, frozen: &[bool], points_per_dim: usize) -> (cell: Vec<
    Option<usize>,
>)
    requires
        grid_usable(frozen@, points_per_dim),
    ensures
        cell@ == grid_cell_spec(particle, frozen@, points_per_dim),
        points_per_dim > 0 ==> grid_value(cell@, points_per_dim) == (particle as int) % pow(
            points_per_dim as int,
            active_dims(frozen@),
        ),
        points_per_dim > 0 ==> cell@.len() == frozen@.len(),
        points_per_dim > 0 ==> forall|j: int|
            0 <= j < frozen@.len() ==> (#[trigger] cell@[j] is None <==> frozen@[j]),
        points_per_dim > 0 ==> forall|j: int|
            0 <= j < cell@.len() && #[trigger] cell@[j] is Some ==> cell@[j]->0 < points_per_dim,
{
    proof {
        if points_per_dim > 0 {
            lemma_grid_cell_is_base_p(particle, frozen@, points_per_dim);
            lemma_grid_cell_shape(particle, frozen@, points_per_dim);
        }
    }
    let dims = frozen.len();
    let mut cell: Vec<Option<usize>> = Vec::new();
    let mut grid_coords = particle;
    let mut j: usize = 0;
    assert(frozen@.skip(0) =~= frozen@);
    while j < dims
        invariant
            dims == frozen@.len(),
            j <= dims,
            grid_usable(frozen@, points_per_dim),
            cell@ + grid_cell_spec(grid_coords, frozen@.skip(j as int), points_per_dim)
                == grid_cell_spec(particle, frozen@, points_per_dim),
        decreases dims - j,
    {
        let ghost rest = frozen@.skip(j as int);
        let ghost before = cell@;
        assert(rest[0] == frozen@[j as int]);
        assert(rest.drop_first() =~= frozen@.skip(j + 1));
        if frozen[j] {
            cell.push(None);
            assert(cell@ + grid_cell_spec(grid_coords, frozen@.skip(j + 1), points_per_dim)
                =~= before + grid_cell_spec(grid_coords, rest, points_per_dim));
        } else {
            let digit = grid_coords % points_per_dim;
            let ghost old_coords = grid_coords;
            cell.push(Some(digit));
            grid_coords = grid_coords / points_per_dim;
            assert(cell@ + grid_cell_spec(grid_coords, frozen@.skip(j + 1), points_per_dim)
                =~= before + grid_cell_spec(old_coords, rest, points_per_dim));
        }
        j = j + 1;
    }
    assert(frozen@.skip(dims as int) =~= Seq::<bool>::empty());
    assert(cell@ + grid_cell_spec(grid_coords, Seq::<bool>::empty(), points_per_dim) =~= cell@);
    cell
}

/// A grid cell has one entry per dimension; an entry is `None` exactly for a frozen
/// dimension, and every coordinate is below the number of points per dimension.
pub proof fn lemma_grid_cell_shape(g: usize, frozen: Seq<bool>, p: usize)
    requires
        p > 0,
    ensures
        grid_cell_spec(g, frozen, p).len() == frozen.len(),
        forall|j: int|
            0 <= j < frozen.len() ==> (#[trigger] grid_cell_spec(g, frozen, p)[j] is None
                <==> frozen[j]),
        forall|j: int|
            0 <= j < frozen.len() && #[trigger] grid_cell_spec(g, frozen, p)[j] is Some
                ==> grid_cell_spec(g, frozen, p)[j]->0 < p,
    decreases frozen.len(),
{
    if frozen.len() > 0 {
        let tail = frozen.drop_first();
        let next = if frozen[0] { g } else { g / p };
        lemma_grid_cell_shape(next, tail, p);
        let c = grid_cell_spec(g, frozen, p);
        assert forall|j: int| 0 < j < frozen.len() implies c[j] == grid_cell_spec(next, tail, p)[j
            - 1] && frozen[j] == tail[j - 1] by {}
    }
}

/// The cell of particle `g` is its base-`p` expansion over the active dimensions:
/// read back as a base-`p` number it gives `g` modulo the number of cells
/// (so exactly `g` when `g` is below that number), and with
/// `lemma_grid_cell_shape` every digit is below `p`, which makes the digits unique.
pub proof fn lemma_grid_cell_is_base_p(g: usize, frozen: Seq<bool>, p: usize)
    requires
        p > 0,
    ensures
        grid_value(grid_cell_spec(g, frozen, p), p) == (g as int) % pow(p as int, active_dims(frozen)),
    decreases frozen.len(),
{
    let c = grid_cell_spec(g, frozen, p);
    if frozen.len() == 0 {
        reveal(pow);
    } else {
        let tail = frozen.drop_first();
        let m = active_dims(tail);
        vstd::arithmetic::power::lemma_pow_positive(p as int, m);
        if frozen[0] {
            lemma_grid_cell_is_base_p(g, tail, p);
            assert(c.drop_first() =~= grid_cell_spec(g, tail, p));
        } else {
            lemma_grid_cell_is_base_p(g / p, tail, p);
            assert(c.drop_first() =~= grid_cell_spec(g / p, tail, p));
            assert(pow(p as int, m + 1) == p * pow(p as int, m)) by {
                reveal(pow);
            }
            vstd::arithmetic::div_mod::lemma_mod_breakdown(g as int, p as int, pow(p as int, m));
        }
    }
}

/// Distinct particles get distinct grid cells, as long as both indices are below the
/// number of cells, `p` to the power of the number of active dimensions.
pub proof fn lemma_grid_cells_distinct(a: usize, b: usize, frozen: Seq<bool>, p: usize)
    requires
        a != b,
        a < pow(p as int, active_dims(frozen)),
        b < pow(p as int, active_dims(frozen)),
    ensures
        grid_cell_spec(a, frozen, p) != grid_cell_spec(b, frozen, p),
    decreases frozen.len(),
{
    if frozen.len() == 0 {
        reveal(pow);
    } else {
        let tail = frozen.drop_first();
        let ca = grid_cell_spec(a, frozen, p);
        let cb = grid_cell_spec(b, frozen, p);
        if frozen[0] {
            lemma_grid_cells_distinct(a, b, tail, p);
            assert(ca.drop_first() =~= grid_cell_spec(a, tail, p));
            assert(cb.drop_first() =~= grid_cell_spec(b, tail, p));
        } else {
            let m = active_dims(tail);
            assert(active_dims(frozen) == m + 1);
            let x = pow(p as int, m);
            assert(pow(p as int, m + 1) == p * x) by {
                reveal(pow);
            }
            if p == 0 {
                assert(p * x == 0) by (nonlinear_arith)
                    requires
                        p == 0,
                ;
            } else if a % p != b % p {
                assert(ca[0] != cb[0]);
            } else {
                let qa = a / p;
                let qb = b / p;
                vstd::arithmetic::div_mod::lemma_fundamental_div_mod(a as int, p as int);
                vstd::arithmetic::div_mod::lemma_fundamental_div_mod(b as int, p as int);
                assert(qa != qb);
                assert(qa < x) by (nonlinear_arith)
                    requires
                        p > 0,
                        a == p * qa + a % p,
                        0 <= a % p,
                        a < p * x,
                ;
                assert(qb < x) by (nonlinear_arith)
                    requires
                        p > 0,
                        b == p * qb + b % p,
                        0 <= b % p,
                        b < p * x,
                ;
                lemma_grid_cells_distinct(qa, qb, tail, p);
                assert(ca.drop_first() =~= grid_cell_spec(qa, tail, p));
                assert(cb.drop_first() =~= grid_cell_spec(qb, tail, p));
            }
        }
    }
}

} // verus!
