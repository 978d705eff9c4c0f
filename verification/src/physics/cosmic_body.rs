use rand::rngs::ThreadRng;
use rand::RngExt;
use vstd::prelude::*;

verus! {

/// A vertex of the latitude/longitude grid of a sphere.
#[derive(Clone, Copy, Debug, PartialEq, Eq, Structural)]
pub struct GridPoint {
    /// latitude row, from 0 (one pole) to `latitudes` (the other pole)
    pub row: usize,
    /// longitude column, from 0 to `longitudes` (which repeats column 0)
    pub col: usize,
}

/// The grid point at row `i`, column `j`.
pub open spec fn point(i: int, j: int) -> GridPoint {
    GridPoint { row: i as usize, col: j as usize }
}

/// A triangle of the sphere mesh, given by the grid points of its corners
/// in drawing order.
#[derive(Clone, Copy, Debug, PartialEq, Eq, Structural)]
pub struct GridTriangle {
    pub a: GridPoint,
    pub b: GridPoint,
    pub c: GridPoint,
}

/// The first triangle of the quad whose upper-left corner is `(i, j)`:
/// `(i, j + 1), (i, j), (i + 1, j + 1)`.
pub open spec fn upper_triangle(i: int, j: int) -> GridTriangle {
    GridTriangle { a: point(i, j + 1), b: point(i, j), c: point(i + 1, j + 1) }
}

/// The second triangle of the quad at `(i, j)`:
/// `(i, j), (i, j + 1), (i - 1, j)`.
pub open spec fn lower_triangle(i: int, j: int) -> GridTriangle {
    GridTriangle { a: point(i, j), b: point(i, j + 1), c: point(i - 1, j) }
}

/// Number of latitude rows that carry triangles: rows `1 .. latitudes`.
pub open spec fn inner_rows(latitudes: nat) -> nat {
    if latitudes == 0 { 0 } else { (latitudes - 1) as nat }
}

/// The `k`-th triangle of the mesh, where longitude `j` is the outer loop,
/// latitude row `i` (from 1) the inner loop, and each step emits the upper
/// triangle and then the lower one.
pub open spec fn grid_triangle_at(rows: nat, k: int) -> GridTriangle {
    let step: int = k / 2;
    let i: int = step % (rows as int) + 1;
    let j: int = step / (rows as int);
    if k % 2 == 0 { upper_triangle(i, j) } else { lower_triangle(i, j) }
}

/// The whole mesh of a sphere cut into `latitudes` bands and
/// `longitudes` sectors.
pub open spec fn sphere_grid(latitudes: nat, longitudes: nat) -> Seq<GridTriangle> {
    let rows: nat = inner_rows(latitudes);
    Seq::new(2 * longitudes * rows, |k: int| grid_triangle_at(rows, k))
}

/// Every corner of `t` lies on the `(latitudes + 1) x (longitudes + 1)` grid.
pub open spec fn on_grid(t: GridTriangle, latitudes: nat, longitudes: nat) -> bool {
    &&& t.a.row <= latitudes && t.a.col <= longitudes
    &&& t.b.row <= latitudes && t.b.col <= longitudes
    &&& t.c.row <= latitudes && t.c.col <= longitudes
}

proof fn lemma_grid_step(rows: nat, j: int, i: int)
    requires
        rows > 0,
        0 <= j,
        1 <= i <= rows,
    ensures
        grid_triangle_at(rows, 2 * (j * rows + i - 1)) == upper_triangle(i, j),
        grid_triangle_at(rows, 2 * (j * rows + i - 1) + 1) == lower_triangle(i, j),
{
    let q: int = j * rows + i - 1;
    assert(0 <= q) by (nonlinear_arith)
        requires 0 <= j, 1 <= i, rows > 0, q == j * rows + i - 1;
    vstd::arithmetic::div_mod::lemma_fundamental_div_mod_converse(2 * q, 2, q, 0);
    vstd::arithmetic::div_mod::lemma_fundamental_div_mod_converse(2 * q + 1, 2, q, 1);
    vstd::arithmetic::div_mod::lemma_fundamental_div_mod_converse(q, rows as int, j, i - 1);
}

/// The triangles of a sphere drawn on a grid of `latitudes + 1` rows
/// (pole to pole) and `longitudes + 1` columns (the last column repeats
/// the first meridian): for each sector `j` and each inner row `i`, the
/// two triangles of the quad at `(i, j)`.
pub fn sphere_grid_triangles(latitudes: usize, longitudes: usize) -> (triangles: Vec<GridTriangle>)
    requires
        latitudes < usize::MAX,
        2 * longitudes * latitudes <= usize::MAX,
    ensures
        triangles@ == sphere_grid(latitudes as nat, longitudes as nat),
        triangles@.len() == 2 * longitudes * inner_rows(latitudes as nat),
        forall|k: int|
            0 <= k < triangles@.len() ==> on_grid(
                #[trigger] triangles@[k],
                latitudes as nat,
                longitudes as nat,
            ),
{
    let mut triangles: Vec<GridTriangle> = Vec::new();
    let rows_end: usize = if latitudes == 0 { 0 } else { latitudes - 1 };
    let ghost rows: nat = inner_rows(latitudes as nat);
    let mut j: usize = 0;
    assert(2 * j * rows == 0) by (nonlinear_arith) requires j == 0;
    while j < longitudes
        invariant
            rows == inner_rows(latitudes as nat),
            rows_end == rows,
            0 <= j <= longitudes,
            latitudes < usize::MAX,
            2 * longitudes * latitudes <= usize::MAX,
            triangles@ =~= Seq::new((2 * j * rows) as nat, |k: int| grid_triangle_at(rows, k)),
        decreases longitudes - j,
    {
        let mut i: usize = 1;
        assert(2 * (j * rows + i - 1) == 2 * j * rows) by (nonlinear_arith) requires i == 1;
        while i <= rows_end
            invariant
                rows == inner_rows(latitudes as nat),
                rows_end == rows,
                0 <= j < longitudes,
                1 <= i <= rows_end + 1,
                latitudes < usize::MAX,
                2 * longitudes * latitudes <= usize::MAX,
                triangles@ =~= Seq::new(
                    (2 * (j * rows + i - 1)) as nat,
                    |k: int| grid_triangle_at(rows, k),
                ),
            decreases rows_end + 1 - i,
        {
            proof {
                lemma_grid_step(rows, j as int, i as int);
                assert(2 * (j * rows + i - 1) + 2 <= 2 * longitudes * latitudes) by (nonlinear_arith)
                    requires
                        j < longitudes,
                        i <= rows,
                        rows < latitudes;
            }
            triangles.push(
                GridTriangle {
                    a: GridPoint { row: i, col: j + 1 },
                    b: GridPoint { row: i, col: j },
                    c: GridPoint { row: i + 1, col: j + 1 },
                },
            );
            triangles.push(
                GridTriangle {
                    a: GridPoint { row: i, col: j },
                    b: GridPoint { row: i, col: j + 1 },
                    c: GridPoint { row: i - 1, col: j },
                },
            );
            i = i + 1;
        }
        proof {
            assert(2 * (j * rows + rows) == 2 * (j + 1) * rows) by (nonlinear_arith);
            if rows == 0 {
                assert(2 * j * rows == 0) by (nonlinear_arith) requires rows == 0;
                assert(2 * (j + 1) * rows == 0) by (nonlinear_arith) requires rows == 0;
            }
        }
        j = j + 1;
    }
    proof {
        assert forall|k: int| 0 <= k < triangles@.len() implies on_grid(
            #[trigger] triangles@[k],
            latitudes as nat,
            longitudes as nat,
        ) by {
            lemma_grid_triangle_on_grid(latitudes as nat, longitudes as nat, k);
        }
    }
    triangles
}

/// The `k`-th triangle of a mesh with `rows` inner rows and `longitudes`
/// sectors comes from a sector `j < longitudes` and a row `i <= rows`.
proof fn lemma_grid_index(rows: nat, longitudes: nat, k: int)
    requires
        0 <= k < 2 * longitudes * rows,
    ensures
        rows > 0,
        0 <= (k / 2) / (rows as int) < longitudes,
        0 <= (k / 2) % (rows as int) < rows,
{
    assert(rows > 0) by (nonlinear_arith)
        requires 0 <= k < 2 * longitudes * rows;
    let q: int = k / 2;
    let j: int = q / (rows as int);
    vstd::arithmetic::div_mod::lemma_fundamental_div_mod(q, rows as int);
    vstd::arithmetic::div_mod::lemma_fundamental_div_mod(k, 2);
    assert(j < longitudes) by (nonlinear_arith)
        requires
            k < 2 * longitudes * rows,
            k == 2 * q + k % 2,
            0 <= k % 2 < 2,
            q == rows * j + q % (rows as int),
            0 <= q % (rows as int),
            rows > 0;
    assert(0 <= j) by (nonlinear_arith)
        requires q == rows * j + q % (rows as int), q % (rows as int) < rows, 0 <= q, rows > 0;
}

/// Every triangle of the sphere mesh has its corners on the grid of
/// `latitudes + 1` rows and `longitudes + 1` columns, so the mesh never
/// refers to a vertex that was not generated.
pub proof fn lemma_grid_triangle_on_grid(latitudes: nat, longitudes: nat, k: int)
    requires
        0 <= k < sphere_grid(latitudes, longitudes).len(),
    ensures
        on_grid(sphere_grid(latitudes, longitudes)[k], latitudes, longitudes),
{
    lemma_grid_index(inner_rows(latitudes), longitudes, k);
}

/// Two corners of a mesh triangle are never the same grid point.
pub proof fn lemma_grid_triangle_distinct_corners(latitudes: usize, longitudes: usize, k: int)
    requires
        0 <= k < sphere_grid(latitudes as nat, longitudes as nat).len(),
    ensures
        ({
            let t = sphere_grid(latitudes as nat, longitudes as nat)[k];
            t.a != t.b && t.b != t.c && t.a != t.c
        }),
{
    lemma_grid_index(inner_rows(latitudes as nat), longitudes as nat, k);
}

/// The thread-local random generator of `rand`.
#[verifier::external_type_specification]
#[verifier::external_body]
pub struct ExThreadRng(ThreadRng);

/// Calls `rand::rng`, which hands out the thread-local generator (seeding
/// it from the system on first use, and panicking if that seeding fails).
/// Nothing is stated of the generator's state.
#[verifier::external_body]
fn thread_rng() -> ThreadRng {
    rand::rng()
}

/// Calls `RngExt::random_range` with the range `0..upper`. The rand source
/// asserts that the range is not empty (so `upper > 0` is required) and
/// returns a value in `low ..= high - 1`. Which value comes out depends on
/// the generator and is not stated.
#[verifier::external_body]
fn random_below(rng: &mut ThreadRng, upper: u32) -> (value: u32)
    requires
        0 < upper,
    ensures
        value < upper,
{
    rng.random_range(0..upper)
}

/// Orbital periods of the eight planets, Mercury to Neptune, in days.
pub open spec fn planet_periods() -> Seq<u32> {
    seq![88u32, 225, 365, 687, 4331, 10747, 30589, 59800]
}

/// Every counter of `days` moved on by `day`.
pub open spec fn advanced(days: Seq<u32>, day: int) -> Seq<int> {
    Seq::new(days.len(), |i: int| days[i] + day)
}

/// The day bookkeeping of the solar-system simulation: the orbital period
/// of each planet and the number of days each planet has travelled along
/// its orbit.
pub struct CosmicSimulator {
    /// days per orbit, one entry per planet
    pub days_per_orbit: Vec<u32>,
    /// days travelled so far, one entry per planet
    pub days_passed: Vec<u32>,
}

impl CosmicSimulator {
    /// The eight planets, each started at a random day of its first orbit.
    pub fn new() -> (sim: Self)
        ensures
            sim.days_per_orbit@ == planet_periods(),
            sim.days_passed@.len() == 8,
            forall|i: int| 0 <= i < 8 ==> #[trigger] sim.days_passed@[i] < planet_periods()[i],
    {
        let days_per_orbit: Vec<u32> = vec![88, 225, 365, 687, 4331, 10747, 30589, 59800];
        let mut days_passed: Vec<u32> = vec![0; 8];
        assert(days_per_orbit@ =~= planet_periods());
        let mut rng = thread_rng();
        let mut i: usize = 0;
        while i < 8
            invariant
                0 <= i <= 8,
                days_per_orbit@ == planet_periods(),
                days_passed@.len() == 8,
                forall|k: int| 0 <= k < i ==> #[trigger] days_passed@[k] < planet_periods()[k],
            decreases 8 - i,
        {
            let days_passed_curr: u32 = random_below(&mut rng, days_per_orbit[i]);
            days_passed.set(i, days_passed_curr);
            i = i + 1;
        }
        Self { days_per_orbit, days_passed }
    }

    /// Moves every planet on by `day` days.
    pub fn orbit(&mut self, day: u32)
        requires
            forall|i: int| 0 <= i < old(self).days_passed@.len() ==>
                #[trigger] old(self).days_passed@[i] + day <= u32::MAX,
        ensures
            final(self).days_per_orbit@ == old(self).days_per_orbit@,
            final(self).days_passed@.len() == old(self).days_passed@.len(),
            forall|i: int| 0 <= i < final(self).days_passed@.len() ==>
                #[trigger] final(self).days_passed@[i] == advanced(old(self).days_passed@, day as int)[i],
            forall|i: int| 0 <= i < final(self).days_passed@.len() ==>
                #[trigger] final(self).days_passed@[i] == old(self).days_passed@[i] + day,
    {
        let n: usize = self.days_passed.len();
        let mut i: usize = 0;
        while i < n
            invariant
                0 <= i <= n,
                n == old(self).days_passed@.len(),
                self.days_per_orbit@ == old(self).days_per_orbit@,
                self.days_passed@.len() == n,
                forall|k: int| 0 <= k < n ==> #[trigger] old(self).days_passed@[k] + day <= u32::MAX,
                forall|k: int| 0 <= k < i ==> #[trigger] self.days_passed@[k] == old(self).days_passed@[k] + day,
                forall|k: int| i <= k < n ==> #[trigger] self.days_passed@[k] == old(self).days_passed@[k],
            decreases n - i,
        {
            let updated: u32 = self.days_passed[i] + day;
            self.days_passed.set(i, updated);
            i = i + 1;
        }
    }
}

/// Moving the planets on by `a` days and then by `b` days puts them where a
/// single move by `a + b` days does.
pub proof fn lemma_orbit_composes(days: Seq<u32>, a: int, b: int)
    ensures
        Seq::new(days.len(), |i: int| advanced(days, a)[i] + b) == advanced(days, a + b),
{
    assert(Seq::new(days.len(), |i: int| advanced(days, a)[i] + b) =~= advanced(days, a + b));
}

/// Moving on by `day` days adds `day` to every counter and to nothing
/// else: each entry is its old value plus `day`, and there are as many
/// entries as before.
pub proof fn lemma_advanced_adds_day(days: Seq<u32>, day: int)
    ensures
        advanced(days, day).len() == days.len(),
        forall|i: int| 0 <= i < days.len() ==> #[trigger] advanced(days, day)[i] == days[i] + day,
{
}

/// Moving on by no days leaves every counter where it was.
pub proof fn lemma_advanced_zero(days: Seq<u32>)
    ensures
        forall|i: int| 0 <= i < days.len() ==> #[trigger] advanced(days, 0)[i] == days[i] as int,
{
}

/// The two triangles of the quad at inner row `i` (1 <= i < latitudes)
/// and sector `j` (j < longitudes) stand at positions
/// `2 * (j * (latitudes - 1) + i - 1)` and the one after it: first
/// `(i, j+1), (i, j), (i+1, j+1)`, then `(i, j), (i, j+1), (i-1, j)`.
/// They share the edge `(i, j)`-`(i, j+1)` and lie on opposite sides of it,
/// the first reaching row `i + 1`, the second row `i - 1`.
pub proof fn lemma_sphere_grid_quad(latitudes: usize, longitudes: usize, i: usize, j: usize)
    requires
        1 <= i < latitudes,
        j < longitudes,
    ensures
        ({
            let mesh = sphere_grid(latitudes as nat, longitudes as nat);
            let k: int = 2 * (j * (latitudes - 1) + i - 1);
            &&& 0 <= k && k + 1 < mesh.len()
            &&& mesh[k] == GridTriangle {
                a: GridPoint { row: i, col: (j + 1) as usize },
                b: GridPoint { row: i, col: j },
                c: GridPoint { row: (i + 1) as usize, col: (j + 1) as usize },
            }
            &&& mesh[k + 1] == GridTriangle {
                a: GridPoint { row: i, col: j },
                b: GridPoint { row: i, col: (j + 1) as usize },
                c: GridPoint { row: (i - 1) as usize, col: j },
            }
            &&& mesh[k].c.row == i + 1 && mesh[k + 1].c.row == i - 1
        }),
{
    let rows: nat = inner_rows(latitudes as nat);
    assert(rows == latitudes - 1);
    lemma_grid_step(rows, j as int, i as int);
    assert(2 * (j * rows + i - 1) + 1 < 2 * longitudes * rows) by (nonlinear_arith)
        requires j < longitudes, 1 <= i <= rows;
    assert(0 <= j * rows) by (nonlinear_arith);
}

} // verus!
