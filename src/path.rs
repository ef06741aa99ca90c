//! Sectors of the intersection grid and the twelve precomputed paths through it.
use vstd::prelude::*;

verus! {

/// The side of the intersection an agent enters from.
#[derive(Clone, Copy, Debug, PartialEq, Eq, Structural)]
pub enum Direction {
    North,
    East,
    South,
    West,
}

/// What an agent does at the intersection.
#[derive(Clone, Copy, Debug, PartialEq, Eq, Structural)]
pub enum Turning {
    Left,
    Straight,
    Right,
}

/// Heading of an agent on the screen (`Up` is towards smaller `y`).
#[derive(Clone, Copy, Debug, PartialEq, Eq, Structural)]
pub enum Moving {
    Up,
    Right,
    Down,
    Left,
}

/// A cell of the grid, with the heading an agent entering it should take.
/// Two sectors are equal when their coordinates are.
#[derive(Clone, Copy, Debug, Eq)]
pub struct Sector {
    pub x: usize,
    pub y: usize,
    pub moving: Moving,
}

impl PartialEq for Sector {
    fn eq(&self, other: &Sector) -> (r: bool)
        ensures
            r == self.same_cell(*other),
    {
        self.y == other.y && self.x == other.x
    }
}

impl vstd::std_specs::cmp::PartialEqSpecImpl for Sector {
    open spec fn obeys_eq_spec() -> bool {
        true
    }

    open spec fn eq_spec(&self, other: &Sector) -> bool {
        self.same_cell(*other)
    }
}

impl Sector {
    pub open spec fn same_cell(self, other: Sector) -> bool {
        self.x == other.x && self.y == other.y
    }

    pub open spec fn sx(self) -> int {
        self.x as int
    }

    pub open spec fn sy(self) -> int {
        self.y as int
    }

    pub fn new(x: usize, y: usize, moving: Moving) -> (r: Sector)
        ensures
            r.sx() == x,
            r.sy() == y,
            r.moving == moving,
    {
        Sector { x, y, moving }
    }

    pub fn get_x(&self) -> (r: usize)
        ensures
            r == self.sx(),
    {
        self.x
    }

    pub fn get_y(&self) -> (r: usize)
        ensures
            r == self.sy(),
    {
        self.y
    }
}

/// A route of sectors from an entry sector, through a turning point, to an exit sector.
#[derive(Clone, Debug)]
pub struct Path {
    pub sectors: Vec<Sector>,
}

/// The sector with the given coordinates and heading.
pub open spec fn cell(x: int, y: int, moving: Moving) -> Sector {
    Sector { x: x as usize, y: y as usize, moving }
}

/// One grid step from `a` towards `b` along one axis.
pub open spec fn step_toward(a: int, b: int) -> int {
    if a < b {
        a + 1
    } else if a > b {
        a - 1
    } else {
        a
    }
}

pub open spec fn gap(a: int, b: int) -> int {
    if a < b {
        b - a
    } else {
        a - b
    }
}

/// Manhattan distance between two grid points.
pub open spec fn manhattan(x: int, y: int, tx: int, ty: int) -> int {
    gap(x, tx) + gap(y, ty)
}

/// The sectors visited when walking from `(x, y)` to `(tx, ty)`, moving at most one
/// cell along each axis per step; the start is excluded and the target included.
pub open spec fn walk(x: int, y: int, tx: int, ty: int, moving: Moving) -> Seq<Sector>
    decreases manhattan(x, y, tx, ty),
{
    if x == tx && y == ty {
        seq![]
    } else {
        let nx = step_toward(x, tx);
        let ny = step_toward(y, ty);
        seq![cell(nx, ny, moving)] + walk(nx, ny, tx, ty, moving)
    }
}

/// The sectors of the path through three waypoints: the entry, then the walk to the
/// turning point with the entry's heading, then the walk to the exit with the turning
/// point's heading.
pub open spec fn route_through(a: Sector, b: Sector, c: Sector) -> Seq<Sector> {
    seq![a] + walk(a.sx(), a.sy(), b.sx(), b.sy(), a.moving) + walk(
        b.sx(),
        b.sy(),
        c.sx(),
        c.sy(),
        b.moving,
    )
}

/// The entry sector, turning point and exit sector of each path.
pub open spec fn waypoints(d: Direction, t: Turning) -> (Sector, Sector, Sector) {
    match t {
        Turning::Left => match d {
            Direction::North => (cell(5, 0, Moving::Down), cell(5, 6, Moving::Right), cell(11, 6, Moving::Right)),
            Direction::East => (cell(11, 5, Moving::Left), cell(5, 5, Moving::Down), cell(5, 11, Moving::Down)),
            Direction::South => (cell(6, 11, Moving::Up), cell(6, 5, Moving::Left), cell(0, 5, Moving::Left)),
            Direction::West => (cell(0, 6, Moving::Right), cell(6, 6, Moving::Up), cell(6, 0, Moving::Up)),
        },
        Turning::Straight => match d {
            Direction::North => (cell(4, 0, Moving::Down), cell(4, 5, Moving::Down), cell(4, 11, Moving::Down)),
            Direction::East => (cell(11, 4, Moving::Left), cell(5, 4, Moving::Left), cell(0, 4, Moving::Left)),
            Direction::South => (cell(7, 11, Moving::Up), cell(7, 5, Moving::Up), cell(7, 0, Moving::Up)),
            Direction::West => (cell(0, 7, Moving::Right), cell(5, 7, Moving::Right), cell(11, 7, Moving::Right)),
        },
        Turning::Right => match d {
            Direction::North => (cell(3, 0, Moving::Down), cell(3, 3, Moving::Left), cell(0, 3, Moving::Left)),
            Direction::East => (cell(11, 3, Moving::Left), cell(8, 3, Moving::Up), cell(8, 0, Moving::Up)),
            Direction::South => (cell(8, 11, Moving::Up), cell(8, 8, Moving::Right), cell(11, 8, Moving::Right)),
            Direction::West => (cell(0, 8, Moving::Right), cell(3, 8, Moving::Down), cell(3, 11, Moving::Down)),
        },
    }
}

/// The sectors of the path taken by an agent entering from `d` and turning `t`.
pub open spec fn path_sectors(d: Direction, t: Turning) -> Seq<Sector> {
    let (a, b, c) = waypoints(d, t);
    route_through(a, b, c)
}


pub open spec fn in_grid(x: int, y: int) -> bool {
    0 <= x < 12 && 0 <= y < 12
}

/// A walk between two cells of the grid stays on the grid, keeps its heading, and ends
/// on the target; it is empty exactly when it starts on the target.
pub proof fn lemma_walk_ends(x: int, y: int, tx: int, ty: int, moving: Moving)
    requires
        in_grid(x, y),
        in_grid(tx, ty),
    ensures
        (walk(x, y, tx, ty, moving).len() == 0 <==> (x == tx && y == ty)),
        walk(x, y, tx, ty, moving).len() > 0 ==> walk(x, y, tx, ty, moving).last().sx() == tx
            && walk(x, y, tx, ty, moving).last().sy() == ty,
        forall|i: int|
            0 <= i < walk(x, y, tx, ty, moving).len() ==> #[trigger] in_grid(
                walk(x, y, tx, ty, moving)[i].sx(),
                walk(x, y, tx, ty, moving)[i].sy(),
            ),
    decreases manhattan(x, y, tx, ty),
{
    if x != tx || y != ty {
        let nx = step_toward(x, tx);
        let ny = step_toward(y, ty);
        lemma_walk_ends(nx, ny, tx, ty, moving);
        let rest = walk(nx, ny, tx, ty, moving);
        let w = walk(x, y, tx, ty, moving);
        assert(w == seq![cell(nx, ny, moving)] + rest);
        assert(w[0].sx() == nx && w[0].sy() == ny);
        assert forall|i: int| 0 <= i < w.len() implies #[trigger] in_grid(w[i].sx(), w[i].sy()) by {
            if i > 0 {
                assert(w[i] == rest[i - 1]);
            }
        }
        if rest.len() > 0 {
            assert(w.last() == rest.last());
        }
    }
}

/// Each step of a walk strictly shortens the Manhattan distance to its target.
pub proof fn lemma_walk_shortens(x: int, y: int, tx: int, ty: int, moving: Moving)
    requires
        in_grid(x, y),
        in_grid(tx, ty),
    ensures
        walk(x, y, tx, ty, moving).len() > 0 ==> manhattan(
            walk(x, y, tx, ty, moving)[0].sx(),
            walk(x, y, tx, ty, moving)[0].sy(),
            tx,
            ty,
        ) < manhattan(x, y, tx, ty),
        forall|i: int|
            0 < i < walk(x, y, tx, ty, moving).len() ==> manhattan(
                #[trigger] walk(x, y, tx, ty, moving)[i].sx(),
                walk(x, y, tx, ty, moving)[i].sy(),
                tx,
                ty,
            ) < manhattan(
                walk(x, y, tx, ty, moving)[i - 1].sx(),
                walk(x, y, tx, ty, moving)[i - 1].sy(),
                tx,
                ty,
            ),
    decreases manhattan(x, y, tx, ty),
{
    if x != tx || y != ty {
        let nx = step_toward(x, tx);
        let ny = step_toward(y, ty);
        lemma_walk_shortens(nx, ny, tx, ty, moving);
        let rest = walk(nx, ny, tx, ty, moving);
        let w = walk(x, y, tx, ty, moving);
        assert(w == seq![cell(nx, ny, moving)] + rest);
        assert(w[0].sx() == nx && w[0].sy() == ny);
        assert forall|i: int| 0 < i < w.len() implies manhattan(
            #[trigger] w[i].sx(),
            w[i].sy(),
            tx,
            ty,
        ) < manhattan(w[i - 1].sx(), w[i - 1].sy(), tx, ty) by {
            assert(w[i] == rest[i - 1]);
            if i > 1 {
                assert(w[i - 1] == rest[i - 2]);
            }
        }
    }
}

/// Every one of the twelve paths starts at its entry sector, passes its turning point,
/// ends at its exit sector, stays on the grid, and strictly shortens the Manhattan
/// distance to the waypoint it heads for at every step.
pub proof fn lemma_path_shape(d: Direction, t: Turning)
    ensures
        ({
            let p = path_sectors(d, t);
            let (a, b, c) = waypoints(d, t);
            let k = walk(a.sx(), a.sy(), b.sx(), b.sy(), a.moving).len() as int;
            &&& p.len() >= 2
            &&& p[0] == a
            &&& p[k].same_cell(b)
            &&& p.last().same_cell(c)
            &&& forall|i: int| 0 <= i < p.len() ==> #[trigger] in_grid(p[i].sx(), p[i].sy())
            &&& forall|i: int|
                0 < i <= k ==> manhattan(#[trigger] p[i].sx(), p[i].sy(), b.sx(), b.sy())
                    < manhattan(p[i - 1].sx(), p[i - 1].sy(), b.sx(), b.sy())
            &&& forall|i: int|
                k < i < p.len() ==> manhattan(#[trigger] p[i].sx(), p[i].sy(), c.sx(), c.sy())
                    < manhattan(p[i - 1].sx(), p[i - 1].sy(), c.sx(), c.sy())
        }),
{
    let (a, b, c) = waypoints(d, t);
    assert(in_grid(a.sx(), a.sy()) && in_grid(b.sx(), b.sy()) && in_grid(c.sx(), c.sy()));
    assert(a.sx() != b.sx() || a.sy() != b.sy());
    lemma_route_shape(a, b, c);
}

#[verifier::spinoff_prover]
#[verifier::rlimit(100)]
proof fn lemma_route_shape(a: Sector, b: Sector, c: Sector)
    requires
        in_grid(a.sx(), a.sy()),
        in_grid(b.sx(), b.sy()),
        in_grid(c.sx(), c.sy()),
        a.sx() != b.sx() || a.sy() != b.sy(),
    ensures
        ({
            let p = route_through(a, b, c);
            let k = walk(a.sx(), a.sy(), b.sx(), b.sy(), a.moving).len() as int;
            &&& p.len() >= 2
            &&& p[0] == a
            &&& p[k].same_cell(b)
            &&& p.last().same_cell(c)
            &&& forall|i: int| 0 <= i < p.len() ==> #[trigger] in_grid(p[i].sx(), p[i].sy())
            &&& forall|i: int|
                0 < i <= k ==> manhattan(#[trigger] p[i].sx(), p[i].sy(), b.sx(), b.sy())
                    < manhattan(p[i - 1].sx(), p[i - 1].sy(), b.sx(), b.sy())
            &&& forall|i: int|
                k < i < p.len() ==> manhattan(#[trigger] p[i].sx(), p[i].sy(), c.sx(), c.sy())
                    < manhattan(p[i - 1].sx(), p[i - 1].sy(), c.sx(), c.sy())
        }),
{
    let p = route_through(a, b, c);
    let w1 = walk(a.sx(), a.sy(), b.sx(), b.sy(), a.moving);
    let w2 = walk(b.sx(), b.sy(), c.sx(), c.sy(), b.moving);
    lemma_walk_ends(a.sx(), a.sy(), b.sx(), b.sy(), a.moving);
    lemma_walk_ends(b.sx(), b.sy(), c.sx(), c.sy(), b.moving);
    lemma_walk_shortens(a.sx(), a.sy(), b.sx(), b.sy(), a.moving);
    lemma_walk_shortens(b.sx(), b.sy(), c.sx(), c.sy(), b.moving);
    let k = w1.len() as int;
    let h = seq![a] + w1;
    assert(p == h + w2);
    assert(h.len() == k + 1);
    assert forall|i: int| 0 < i <= k implies #[trigger] p[i] == w1[i - 1] by {
        assert(p[i] == h[i]);
    }
    assert forall|i: int| k < i < p.len() implies #[trigger] p[i] == w2[i - k - 1] by {}
    assert(p[k] == w1.last());
    assert(p.last().same_cell(c)) by {
        if w2.len() > 0 {
            assert(p.last() == w2.last());
        } else {
            assert(p.last() == p[k]);
        }
    }
    assert forall|i: int| 0 <= i < p.len() implies #[trigger] in_grid(p[i].sx(), p[i].sy()) by {
        if 0 < i <= k {
            assert(p[i] == w1[i - 1]);
        } else if k < i {
            assert(p[i] == w2[i - k - 1]);
        }
    }
    assert forall|i: int| 0 < i <= k implies manhattan(#[trigger] p[i].sx(), p[i].sy(), b.sx(), b.sy())
        < manhattan(p[i - 1].sx(), p[i - 1].sy(), b.sx(), b.sy()) by {
        assert(p[i] == w1[i - 1]);
        if i > 1 {
            assert(p[i - 1] == w1[i - 2]);
        }
    }
    assert forall|i: int| k < i < p.len() implies manhattan(#[trigger] p[i].sx(), p[i].sy(), c.sx(), c.sy())
        < manhattan(p[i - 1].sx(), p[i - 1].sy(), c.sx(), c.sy()) by {
        assert(p[i] == w2[i - k - 1]);
        if i > k + 1 {
            assert(p[i - 1] == w2[i - k - 2]);
        }
    }
}

impl Path {
    pub fn new(direction: &Direction, turning: &Turning) -> (r: Path)
        ensures
            r.sectors@ == path_sectors(*direction, *turning),
    {
        Path {
            sectors: match turning {
                Turning::Left => left_turn(direction),
                Turning::Straight => go_straight(direction),
                Turning::Right => right_turn(direction),
            },
        }
    }
}

fn left_turn(direction: &Direction) -> (r: Vec<Sector>)
    ensures
        r@ == path_sectors(*direction, Turning::Left),
{
    match direction {
        Direction::North => get_path(
            vec![Sector::new(5, 0, Moving::Down), Sector::new(5, 6, Moving::Right), Sector::new(11, 6, Moving::Right)],
        ),
        Direction::East => get_path(
            vec![Sector::new(11, 5, Moving::Left), Sector::new(5, 5, Moving::Down), Sector::new(5, 11, Moving::Down)],
        ),
        Direction::South => get_path(
            vec![Sector::new(6, 11, Moving::Up), Sector::new(6, 5, Moving::Left), Sector::new(0, 5, Moving::Left)],
        ),
        Direction::West => get_path(
            vec![Sector::new(0, 6, Moving::Right), Sector::new(6, 6, Moving::Up), Sector::new(6, 0, Moving::Up)],
        ),
    }
}

fn go_straight(direction: &Direction) -> (r: Vec<Sector>)
    ensures
        r@ == path_sectors(*direction, Turning::Straight),
{
    match direction {
        Direction::North => get_path(
            vec![Sector::new(4, 0, Moving::Down), Sector::new(4, 5, Moving::Down), Sector::new(4, 11, Moving::Down)],
        ),
        Direction::East => get_path(
            vec![Sector::new(11, 4, Moving::Left), Sector::new(5, 4, Moving::Left), Sector::new(0, 4, Moving::Left)],
        ),
        Direction::South => get_path(
            vec![Sector::new(7, 11, Moving::Up), Sector::new(7, 5, Moving::Up), Sector::new(7, 0, Moving::Up)],
        ),
        Direction::West => get_path(
            vec![Sector::new(0, 7, Moving::Right), Sector::new(5, 7, Moving::Right), Sector::new(11, 7, Moving::Right)],
        ),
    }
}

fn right_turn(direction: &Direction) -> (r: Vec<Sector>)
    ensures
        r@ == path_sectors(*direction, Turning::Right),
{
    match direction {
        Direction::North => get_path(
            vec![Sector::new(3, 0, Moving::Down), Sector::new(3, 3, Moving::Left), Sector::new(0, 3, Moving::Left)],
        ),
        Direction::East => get_path(
            vec![Sector::new(11, 3, Moving::Left), Sector::new(8, 3, Moving::Up), Sector::new(8, 0, Moving::Up)],
        ),
        Direction::South => get_path(
            vec![Sector::new(8, 11, Moving::Up), Sector::new(8, 8, Moving::Right), Sector::new(11, 8, Moving::Right)],
        ),
        Direction::West => get_path(
            vec![Sector::new(0, 8, Moving::Right), Sector::new(3, 8, Moving::Down), Sector::new(3, 11, Moving::Down)],
        ),
    }
}

/// Walks from the current point to the target, one step per iteration, appending each
/// visited sector with the given heading.
fn walk_to(path: &mut Vec<Sector>, x: &mut usize, y: &mut usize, tx: usize, ty: usize, moving: Moving)
    ensures
        *final(x) == tx,
        *final(y) == ty,
        final(path)@ == old(path)@ + walk(*old(x) as int, *old(y) as int, tx as int, ty as int, moving),
{
    let ghost start = path@;
    let ghost x0 = *x as int;
    let ghost y0 = *y as int;
    while *x != tx || *y != ty
        invariant
            path@ + walk(*x as int, *y as int, tx as int, ty as int, moving) == start + walk(
                x0,
                y0,
                tx as int,
                ty as int,
                moving,
            ),
        decreases manhattan(*x as int, *y as int, tx as int, ty as int),
    {
        let ghost before = path@;
        let ghost rest = walk(step_toward(*x as int, tx as int), step_toward(*y as int, ty as int), tx as int, ty as int, moving);
        if *x < tx {
            *x = *x + 1;
        }
        if *x > tx {
            *x = *x - 1;
        }
        if *y < ty {
            *y = *y + 1;
        }
        if *y > ty {
            *y = *y - 1;
        }
        path.push(Sector::new(*x, *y, moving));
        assert(path@ + rest =~= before + (seq![cell(*x as int, *y as int, moving)] + rest));
    }
    assert(walk(*x as int, *y as int, tx as int, ty as int, moving) =~= seq![]);
    assert(path@ + seq![] =~= path@);
}

/// All the sectors of the path through the three given waypoints.
fn get_path(sectors: Vec<Sector>) -> (r: Vec<Sector>)
    requires
        sectors@.len() >= 3,
    ensures
        r@ == route_through(sectors@[0], sectors@[1], sectors@[2]),
{
    let mut path = vec![sectors[0]];
    let mut x: usize = sectors[0].x;
    let mut y: usize = sectors[0].y;
    walk_to(&mut path, &mut x, &mut y, sectors[1].x, sectors[1].y, sectors[0].moving);
    walk_to(&mut path, &mut x, &mut y, sectors[2].x, sectors[2].y, sectors[1].moving);
    assert(path@ =~= route_through(sectors@[0], sectors@[1], sectors@[2]));
    path
}

} // verus!
