//! The integer core of the cubic Bézier triangle: the grid of barycentric
//! sample points (in tenths) and the Bernstein weights of the ten control points.

use vstd::prelude::*;

verus! {

/// A barycentric sample point `(s, t, u)`, each coordinate in tenths.
pub type Tenths = (u8, u8, u8);

/// The sample points whose first coordinate is at least `i` and, for
/// first coordinate `i`, whose second coordinate is at least `j`; ordered by
/// first, then second coordinate, the third making the sum ten.
pub open spec fn grid_from(i: nat, j: nat) -> Seq<Tenths>
    decreases 11 - i, 11 - j,
{
    if i > 10 {
        seq![]
    } else if j > 10 - i {
        grid_from(i + 1, 0)
    } else {
        seq![(i as u8, j as u8, (10 - i - j) as u8)] + grid_from(i, j + 1)
    }
}

/// All sample points of the triangle at a step of one tenth.
pub open spec fn barycentric_grid() -> Seq<Tenths> {
    grid_from(0, 0)
}

/// Every sample point sums to ten tenths, and `grid_from(i, j)` holds
/// `(11 - i) * (12 - i) / 2 - j` points.
pub proof fn lemma_grid_from(i: nat, j: nat)
    requires
        i <= 11,
        i <= 10 ==> j <= 11 - i,
    ensures
        forall|k: int|
            0 <= k < grid_from(i, j).len() ==> {
                let p = #[trigger] grid_from(i, j)[k];
                p.0 + p.1 + p.2 == 10
            },
        i <= 10 ==> grid_from(i, j).len() == (11 - i) * (12 - i) / 2 - j,
        i == 11 ==> grid_from(i, j).len() == 0,
    decreases 11 - i, 11 - j,
{
    if i > 10 {
    } else if j > 10 - i {
        lemma_grid_from(i + 1, 0);
        assert((11 - i) * (12 - i) / 2 - j == (10 - i) * (11 - i) / 2) by (nonlinear_arith)
            requires
                i <= 10,
                j == 11 - i,
        ;
    } else {
        lemma_grid_from(i, j + 1);
        let head = seq![(i as u8, j as u8, (10 - i - j) as u8)];
        assert forall|k: int| 0 <= k < grid_from(i, j).len() implies {
            let p = #[trigger] grid_from(i, j)[k];
            p.0 + p.1 + p.2 == 10
        } by {
            if k > 0 {
                assert(grid_from(i, j)[k] == grid_from(i, j + 1)[k - 1]);
            }
        }
    }
}

/// The grid has 66 points, each summing to ten tenths.
pub proof fn lemma_barycentric_grid()
    ensures
        barycentric_grid().len() == 66,
        forall|k: int|
            0 <= k < 66 ==> {
                let p = #[trigger] barycentric_grid()[k];
                p.0 + p.1 + p.2 == 10
            },
{
    lemma_grid_from(0, 0);
}

/// Point `p` comes before point `q`: by first coordinate, then by second.
pub open spec fn comes_before(p: Tenths, q: Tenths) -> bool {
    p.0 < q.0 || (p.0 == q.0 && p.1 < q.1)
}

/// The points of `grid_from(i, j)` come after `(i, j)` or are it, and stay
/// strictly ordered.
pub proof fn lemma_grid_from_ordered(i: nat, j: nat)
    requires
        i <= 11,
        i <= 10 ==> j <= 11 - i,
    ensures
        forall|k: int|
            0 <= k < grid_from(i, j).len() ==> {
                let p = #[trigger] grid_from(i, j)[k];
                &&& p.0 >= i
                &&& p.0 == i ==> p.1 >= j
            },
        forall|a: int, b: int|
            0 <= a < b < grid_from(i, j).len() ==> comes_before(
                #[trigger] grid_from(i, j)[a],
                #[trigger] grid_from(i, j)[b],
            ),
    decreases 11 - i, 11 - j,
{
    if i > 10 {
    } else if j > 10 - i {
        lemma_grid_from_ordered(i + 1, 0);
        assert(grid_from(i, j) == grid_from(i + 1, 0));
    } else {
        lemma_grid_from_ordered(i, j + 1);
        let g = grid_from(i, j);
        let rest = grid_from(i, j + 1);
        assert((i as u8) as nat == i && (j as u8) as nat == j);
        assert(g == seq![(i as u8, j as u8, (10 - i - j) as u8)] + rest);
        assert forall|k: int| 0 <= k < g.len() implies {
            let p = #[trigger] g[k];
            &&& p.0 >= i
            &&& p.0 == i ==> p.1 >= j
        } by {
            if k > 0 {
                assert(g[k] == rest[k - 1]);
            }
        }
        assert forall|a: int, b: int| 0 <= a < b < g.len() implies comes_before(
            #[trigger] g[a],
            #[trigger] g[b],
        ) by {
            assert(g[b] == rest[b - 1]);
            if a > 0 {
                assert(g[a] == rest[a - 1]);
            }
        }
    }
}

/// The sample points are in order, so no point occurs twice.
pub proof fn lemma_barycentric_grid_ordered()
    ensures
        forall|a: int, b: int|
            0 <= a < b < barycentric_grid().len() ==> comes_before(
                #[trigger] barycentric_grid()[a],
                #[trigger] barycentric_grid()[b],
            ),
        barycentric_grid().no_duplicates(),
{
    lemma_grid_from_ordered(0, 0);
    let g = barycentric_grid();
    assert forall|a: int, b: int| 0 <= a < g.len() && 0 <= b < g.len() && a != b implies g[a]
        != g[b] by {
        if a < b {
            assert(comes_before(g[a], g[b]));
        } else {
            assert(comes_before(g[b], g[a]));
        }
    }
}

/// The barycentric sample points of the triangle.
pub struct Const {
    barycentric: Vec<Tenths>,
}

impl View for Const {
    type V = Seq<Tenths>;

    closed spec fn view(&self) -> Seq<Tenths> {
        self.barycentric@
    }
}

impl Const {
    /// The 66 sample points, ordered by first, then second coordinate.
    pub fn new() -> (c: Const)
        ensures
            c@ == barycentric_grid(),
    {
        let mut rows: Vec<Tenths> = Vec::new();
        let mut i: u8 = 0;
        while i <= 10
            invariant
                i <= 11,
                rows@ + grid_from(i as nat, 0) == barycentric_grid(),
            decreases 11 - i,
        {
            let mut j: u8 = 0;
            while j <= 10 - i
                invariant
                    i <= 10,
                    j <= 11 - i,
                    rows@ + grid_from(i as nat, j as nat) == barycentric_grid(),
                decreases 11 - i - j,
            {
                let ghost before = rows@;
                rows.push((i, j, 10 - i - j));
                assert(before + grid_from(i as nat, j as nat) =~= rows@ + grid_from(
                    i as nat,
                    (j + 1) as nat,
                ));
                j = j + 1;
            }
            assert(grid_from(i as nat, j as nat) == grid_from((i + 1) as nat, 0));
            i = i + 1;
        }
        assert(rows@ =~= barycentric_grid());
        Const { barycentric: rows }
    }

    /// The sample points.
    pub fn get_barycentric(&self) -> (rows: &Vec<Tenths>)
        ensures
            rows@ == self@,
    {
        &self.barycentric
    }
}

/// A lazily built `Const`: built on first use, then kept.
pub struct SingConst {
    pub singleton: Option<Const>,
}

impl SingConst {
    /// A holder with nothing built yet.
    pub fn new() -> (s: Self)
        ensures
            s.singleton is None,
    {
        SingConst { singleton: None }
    }

    /// The sample points, built on the first call and kept for the next ones.
    pub fn get_instance(&mut self) -> (c: &Const)
        ensures
            old(self).singleton matches Some(k) ==> final(self).singleton == Some(k),
            old(self).singleton is None ==> (final(self).singleton matches Some(k) && k@
                == barycentric_grid()),
            final(self).singleton == Some(*c),
    {
        if self.singleton.is_none() {
            self.singleton = Some(Const::new());
        }
        self.singleton.as_ref().unwrap()
    }
}

/// The Bernstein weight of control point `k` at the barycentric point
/// `(s, t, u)`, the ten points numbered as the triangle lists them.
pub open spec fn bernstein_weight(k: int, s: int, t: int, u: int) -> int {
    if k == 0 {
        s * s * s
    } else if k == 1 {
        3 * (s * s * t)
    } else if k == 2 {
        3 * (s * t * t)
    } else if k == 3 {
        t * t * t
    } else if k == 4 {
        3 * (s * s * u)
    } else if k == 5 {
        6 * (s * t * u)
    } else if k == 6 {
        3 * (t * t * u)
    } else if k == 7 {
        3 * (s * u * u)
    } else if k == 8 {
        3 * (t * u * u)
    } else {
        u * u * u
    }
}

/// The weight of each control point is its cubic Bernstein monomial in
/// `(s, t, u)`: the corners get `s^3`, `t^3`, `u^3`; the edge points `3 s^2 t`,
/// `3 s t^2`, `3 s^2 u`, `3 t^2 u`, `3 s u^2`, `3 t u^2`; the centre `6 s t u`.
pub proof fn lemma_bernstein_monomials(s: int, t: int, u: int)
    ensures
        bernstein_weight(0, s, t, u) == s * s * s,
        bernstein_weight(1, s, t, u) == 3 * s * s * t,
        bernstein_weight(2, s, t, u) == 3 * s * t * t,
        bernstein_weight(3, s, t, u) == t * t * t,
        bernstein_weight(4, s, t, u) == 3 * s * s * u,
        bernstein_weight(5, s, t, u) == 6 * s * t * u,
        bernstein_weight(6, s, t, u) == 3 * t * t * u,
        bernstein_weight(7, s, t, u) == 3 * s * u * u,
        bernstein_weight(8, s, t, u) == 3 * t * u * u,
        bernstein_weight(9, s, t, u) == u * u * u,
{
    assert(3 * (s * s * t) == 3 * s * s * t) by (nonlinear_arith);
    assert(3 * (s * t * t) == 3 * s * t * t) by (nonlinear_arith);
    assert(3 * (s * s * u) == 3 * s * s * u) by (nonlinear_arith);
    assert(6 * (s * t * u) == 6 * s * t * u) by (nonlinear_arith);
    assert(3 * (t * t * u) == 3 * t * t * u) by (nonlinear_arith);
    assert(3 * (s * u * u) == 3 * s * u * u) by (nonlinear_arith);
    assert(3 * (t * u * u) == 3 * t * u * u) by (nonlinear_arith);
}

/// The sum of the weights of control points `0..n`.
pub open spec fn weight_sum(n: int, s: int, t: int, u: int) -> int
    decreases n,
{
    if n <= 0 {
        0
    } else {
        weight_sum(n - 1, s, t, u) + bernstein_weight(n - 1, s, t, u)
    }
}

/// The ten weights sum to `(s + t + u)^3`: at a point in tenths they share
/// out 1000, so the curve point is an average of the control points.
pub proof fn lemma_weights_partition(s: int, t: int, u: int)
    ensures
        weight_sum(10, s, t, u) == (s + t + u) * (s + t + u) * (s + t + u),
{
    reveal_with_fuel(weight_sum, 11);
    let a = s + t;
    lemma_cube_of_sum(a, u);
    lemma_cube_of_sum(s, t);
    lemma_square_of_sum(s, t);
    assert(3 * (a * a * u) == 3 * ((s * s + 2 * (s * t) + t * t) * u));
    assert((s * s + 2 * (s * t) + t * t) * u == s * s * u + 2 * (s * t * u) + t * t * u)
        by (nonlinear_arith);
    assert(a * u * u == s * u * u + t * u * u) by (nonlinear_arith)
        requires
            a == s + t,
    ;
}

/// `(a + b)^3 = a^3 + 3 a^2 b + 3 a b^2 + b^3`.
proof fn lemma_cube_of_sum(a: int, b: int)
    ensures
        (a + b) * (a + b) * (a + b) == a * a * a + 3 * (a * a * b) + 3 * (a * b * b) + b * b * b,
{
    assert((a + b) * (a + b) == a * a + 2 * (a * b) + b * b) by (nonlinear_arith);
    assert((a * a + 2 * (a * b) + b * b) * (a + b) == a * a * a + 3 * (a * a * b) + 3 * (a * b
        * b) + b * b * b) by (nonlinear_arith);
}

/// `(a + b)^2 = a^2 + 2 a b + b^2`.
proof fn lemma_square_of_sum(a: int, b: int)
    ensures
        (a + b) * (a + b) == a * a + 2 * (a * b) + b * b,
{
    assert((a + b) * (a + b) == a * a + 2 * (a * b) + b * b) by (nonlinear_arith);
}

/// The Bernstein weights of the ten control points at `(s, t, u)`, in units
/// of a thousandth when the coordinates are in tenths.
pub fn bezier_weights(s: u8, t: u8, u: u8) -> (w: [u32; 10])
    ensures
        forall|k: int| 0 <= k < 10 ==> w@[k] == bernstein_weight(k, s as int, t as int, u as int),
        w@[0] == s * s * s,
        w@[1] == 3 * s * s * t,
        w@[2] == 3 * s * t * t,
        w@[3] == t * t * t,
        w@[4] == 3 * s * s * u,
        w@[5] == 6 * s * t * u,
        w@[6] == 3 * t * t * u,
        w@[7] == 3 * s * u * u,
        w@[8] == 3 * t * u * u,
        w@[9] == u * u * u,
{
    let s: u32 = s as u32;
    let t: u32 = t as u32;
    let u: u32 = u as u32;
    assert(s * s <= 255 * 255 && t * t <= 255 * 255 && u * u <= 255 * 255 && s * t <= 255 * 255
        && s * u <= 255 * 255 && t * u <= 255 * 255) by (nonlinear_arith)
        requires
            s <= 255,
            t <= 255,
            u <= 255,
    ;
    assert(s * s * s <= 255 * 255 * 255 && s * s * t <= 255 * 255 * 255 && s * t * t <= 255 * 255
        * 255 && t * t * t <= 255 * 255 * 255 && s * s * u <= 255 * 255 * 255 && s * t * u <= 255
        * 255 * 255 && t * t * u <= 255 * 255 * 255 && s * u * u <= 255 * 255 * 255 && t * u * u
        <= 255 * 255 * 255 && u * u * u <= 255 * 255 * 255) by (nonlinear_arith)
        requires
            s <= 255,
            t <= 255,
            u <= 255,
    ;
    let w = [
        s * s * s,
        3 * (s * s * t),
        3 * (s * t * t),
        t * t * t,
        3 * (s * s * u),
        6 * (s * t * u),
        3 * (t * t * u),
        3 * (s * u * u),
        3 * (t * u * u),
        u * u * u,
    ];
    proof {
        lemma_bernstein_monomials(s as int, t as int, u as int);
    }
    w
}

/// At every sample point of the grid the ten weights share out exactly 1000.
pub proof fn lemma_grid_weights_sum_to_thousand(k: int)
    requires
        0 <= k < 66,
    ensures
        ({
            let p = barycentric_grid()[k];
            weight_sum(10, p.0 as int, p.1 as int, p.2 as int) == 1000
        }),
{
    lemma_barycentric_grid();
    let p = barycentric_grid()[k];
    lemma_weights_partition(p.0 as int, p.1 as int, p.2 as int);
}

} // verus!
