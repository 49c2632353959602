//! Triangulation of a thick polyline ("chain"): which corner of which
//! point each vertex of the triangle list is. The positions of the corners
//! are floating-point geometry and are computed by the caller; here is the
//! order in which they form triangles, with a rounded joint wherever the
//! line turns.
use vstd::prelude::*;

verus! {

/// How the outline is built at an inner point, as the caller's geometry
/// decided: `Straight` joins the two segments at a shared edge with no
/// rounding (the geometry picks it where the line turns straight back on
/// itself, so that no rounding can be computed); otherwise the line turns
/// left or right and the joint is rounded.
#[derive(Debug, Clone, Copy, PartialEq, Eq, Structural)]
pub enum Joint {
    Straight,
    TurnLeft,
    TurnRight,
}

/// A corner of the outline at a point of the line. `Left` and `Right` are
/// the two sides of a straight point (and of the two ends); at a turning
/// point `Inner` is on the inside of the turn, `Middle` opposite it, and
/// `Back` and `Forward` are the outer corners of the incoming and outgoing
/// segments.
#[derive(Debug, Clone, Copy, PartialEq, Eq, Structural)]
pub enum Corner {
    Left,
    Right,
    Inner,
    Middle,
    Back,
    Forward,
}

/// A vertex of the triangle list: a corner at the point of that index.
#[derive(Debug, Clone, Copy, PartialEq, Eq, Structural)]
pub struct ChainVertex {
    pub point: usize,
    pub corner: Corner,
}

pub open spec fn corner_at(point: int, corner: Corner) -> ChainVertex {
    ChainVertex { point: point as usize, corner }
}

/// The joint at `point`: `joints` holds those of the inner points, the
/// first for point 1; the two ends count as straight.
pub open spec fn joint_at(joints: Seq<Joint>, point: int) -> Joint {
    if 1 <= point <= joints.len() {
        joints[point - 1]
    } else {
        Joint::Straight
    }
}

/// The (left, right) edge on which the segment that ends at `point` ends.
pub open spec fn incoming_edge(joints: Seq<Joint>, point: int) -> (ChainVertex, ChainVertex) {
    match joint_at(joints, point) {
        Joint::Straight => (corner_at(point, Corner::Left), corner_at(point, Corner::Right)),
        Joint::TurnLeft => (corner_at(point, Corner::Inner), corner_at(point, Corner::Back)),
        Joint::TurnRight => (corner_at(point, Corner::Back), corner_at(point, Corner::Inner)),
    }
}

/// The (left, right) edge from which the segment that starts at `point`
/// starts.
pub open spec fn outgoing_edge(joints: Seq<Joint>, point: int) -> (ChainVertex, ChainVertex) {
    match joint_at(joints, point) {
        Joint::Straight => (corner_at(point, Corner::Left), corner_at(point, Corner::Right)),
        Joint::TurnLeft => (corner_at(point, Corner::Inner), corner_at(point, Corner::Forward)),
        Joint::TurnRight => (corner_at(point, Corner::Forward), corner_at(point, Corner::Inner)),
    }
}

/// The two triangles of the segment from point `k` to point `k + 1`.
pub open spec fn segment_vertices(joints: Seq<Joint>, k: int) -> Seq<ChainVertex> {
    let s = outgoing_edge(joints, k);
    let e = incoming_edge(joints, k + 1);
    seq![s.0, s.1, e.0, s.1, e.0, e.1]
}

/// The two triangles that round the joint at `point`; none where the line
/// goes straight on.
pub open spec fn round_vertices(joints: Seq<Joint>, point: int) -> Seq<ChainVertex> {
    if joint_at(joints, point) == Joint::Straight {
        Seq::empty()
    } else {
        seq![
            corner_at(point, Corner::Back),
            corner_at(point, Corner::Inner),
            corner_at(point, Corner::Middle),
            corner_at(point, Corner::Forward),
            corner_at(point, Corner::Inner),
            corner_at(point, Corner::Middle),
        ]
    }
}

/// The triangles of the first `k` segments, each followed by the rounding
/// of the joint at its end.
pub open spec fn chain_strip(joints: Seq<Joint>, k: nat) -> Seq<ChainVertex>
    decreases k,
{
    if k == 0 {
        Seq::empty()
    } else {
        chain_strip(joints, (k - 1) as nat) + segment_vertices(joints, k - 1) + round_vertices(
            joints,
            k as int,
        )
    }
}

/// The triangle list of a chain through `point_count` points: nothing for
/// fewer than two points.
pub open spec fn chain_triangles(point_count: nat, joints: Seq<Joint>) -> Seq<ChainVertex> {
    if point_count < 2 {
        Seq::empty()
    } else {
        chain_strip(joints, (point_count - 1) as nat)
    }
}

/// How many of the joints are rounded.
pub open spec fn turn_count(joints: Seq<Joint>) -> nat
    decreases joints.len(),
{
    if joints.len() == 0 {
        0
    } else {
        turn_count(joints.drop_last()) + if joints.last() == Joint::Straight {
            0nat
        } else {
            1nat
        }
    }
}

fn joint_of(joints: &Vec<Joint>, point: usize) -> (r: Joint)
    ensures
        r == joint_at(joints@, point as int),
{
    if 1 <= point && point <= joints.len() {
        joints[point - 1]
    } else {
        Joint::Straight
    }
}

fn incoming_edge_of(joints: &Vec<Joint>, point: usize) -> (r: (ChainVertex, ChainVertex))
    ensures
        r == incoming_edge(joints@, point as int),
{
    let v = |corner: Corner| -> (c: ChainVertex)
        ensures
            c == corner_at(point as int, corner),
        { ChainVertex { point, corner } };
    match joint_of(joints, point) {
        Joint::Straight => (v(Corner::Left), v(Corner::Right)),
        Joint::TurnLeft => (v(Corner::Inner), v(Corner::Back)),
        Joint::TurnRight => (v(Corner::Back), v(Corner::Inner)),
    }
}

fn outgoing_edge_of(joints: &Vec<Joint>, point: usize) -> (r: (ChainVertex, ChainVertex))
    ensures
        r == outgoing_edge(joints@, point as int),
{
    let v = |corner: Corner| -> (c: ChainVertex)
        ensures
            c == corner_at(point as int, corner),
        { ChainVertex { point, corner } };
    match joint_of(joints, point) {
        Joint::Straight => (v(Corner::Left), v(Corner::Right)),
        Joint::TurnLeft => (v(Corner::Inner), v(Corner::Forward)),
        Joint::TurnRight => (v(Corner::Forward), v(Corner::Inner)),
    }
}

/// The triangle list of a chain through `point_count` points whose inner
/// points turn as `joints` says (one joint per inner point). Each segment
/// is started with a placeholder for the left corner of its far end, which
/// is filled in when that end is reached.
pub fn chain_layout(point_count: usize, joints: &Vec<Joint>) -> (r: Vec<ChainVertex>)
    requires
        point_count >= 2 ==> joints.len() + 2 == point_count,
    ensures
        r@ == chain_triangles(point_count as nat, joints@),
{
    let mut polygon: Vec<ChainVertex> = Vec::new();
    if point_count < 2 {
        return polygon;
    }
    // The first segment starts at the left and right of the first point.
    let (l, r) = outgoing_edge_of(joints, 0);
    polygon.push(l);
    polygon.push(r);
    polygon.push(r);
    polygon.push(r);
    let mut p: usize = 1;
    while p < point_count - 1
        invariant
            1 <= p <= point_count - 1,
            joints.len() + 2 == point_count,
            polygon@ == chain_strip(joints@, (p - 1) as nat) + {
                let o = outgoing_edge(joints@, p - 1);
                seq![o.0, o.1, o.1, o.1]
            },
        decreases point_count - p,
    {
        let ghost before = chain_strip(joints@, (p - 1) as nat);
        // Finish the incoming segment.
        let (il, ir) = incoming_edge_of(joints, p);
        let t = polygon.len() - 2;
        polygon.set(t, il);
        polygon.push(il);
        polygon.push(ir);
        assert(polygon@ =~= before + segment_vertices(joints@, p - 1));
        // Round the joint where the line turns.
        let joint = joint_of(joints, p);
        if joint != Joint::Straight {
            polygon.push(ChainVertex { point: p, corner: Corner::Back });
            polygon.push(ChainVertex { point: p, corner: Corner::Inner });
            polygon.push(ChainVertex { point: p, corner: Corner::Middle });
            polygon.push(ChainVertex { point: p, corner: Corner::Forward });
            polygon.push(ChainVertex { point: p, corner: Corner::Inner });
            polygon.push(ChainVertex { point: p, corner: Corner::Middle });
        }
        assert(polygon@ =~= chain_strip(joints@, p as nat));
        // Start the outgoing segment.
        let (ol, or) = outgoing_edge_of(joints, p);
        polygon.push(ol);
        polygon.push(or);
        polygon.push(or);
        polygon.push(or);
        p = p + 1;
    }
    // The last segment ends at the left and right of the last point.
    let ghost before = chain_strip(joints@, (p - 1) as nat);
    let (el, er) = incoming_edge_of(joints, p);
    let t = polygon.len() - 2;
    polygon.set(t, el);
    polygon.push(el);
    polygon.push(er);
    assert(polygon@ =~= before + segment_vertices(joints@, p - 1));
    assert(round_vertices(joints@, p as int) =~= Seq::empty());
    assert(polygon@ =~= chain_strip(joints@, p as nat));
    polygon
}

proof fn lemma_strip_len(joints: Seq<Joint>, k: nat)
    requires
        k <= joints.len() + 1,
    ensures
        chain_strip(joints, k).len() == 6 * k + 6 * turn_count(
            joints.take(if k <= joints.len() { k as int } else { joints.len() as int }),
        ),
    decreases k,
{
    if k > 0 {
        lemma_strip_len(joints, (k - 1) as nat);
        if k <= joints.len() {
            assert(joints.take(k as int).drop_last() =~= joints.take(k - 1));
        }
    } else {
        assert(joints.take(0) =~= Seq::<Joint>::empty());
    }
}

/// A chain through `n >= 2` points is `n - 1` segments of two triangles
/// each, and two more triangles at each point where the line turns.
pub proof fn law_chain_size(point_count: nat, joints: Seq<Joint>)
    requires
        point_count >= 2,
        joints.len() + 2 == point_count,
    ensures
        chain_triangles(point_count, joints).len() == 6 * (point_count - 1) + 6 * turn_count(
            joints,
        ),
        chain_triangles(point_count, joints).len() % 3 == 0,
{
    lemma_strip_len(joints, (point_count - 1) as nat);
    assert(joints.take(joints.len() as int) =~= joints);
}

proof fn lemma_strip_points(joints: Seq<Joint>, k: nat)
    ensures
        forall|i: int|
            0 <= i < chain_strip(joints, k).len() ==> #[trigger] chain_strip(joints, k)[i].point
                <= k,
    decreases k,
{
    if k > 0 {
        lemma_strip_points(joints, (k - 1) as nat);
        let a = chain_strip(joints, (k - 1) as nat);
        let b = segment_vertices(joints, k - 1);
        let c = round_vertices(joints, k as int);
        assert forall|i: int| 0 <= i < chain_strip(joints, k).len() implies #[trigger] chain_strip(
            joints,
            k,
        )[i].point <= k by {
            if i < a.len() {
                assert(chain_strip(joints, k)[i] == a[i]);
            } else if i < a.len() + b.len() {
                assert(chain_strip(joints, k)[i] == b[i - a.len()]);
            } else {
                assert(chain_strip(joints, k)[i] == c[i - a.len() - b.len()]);
            }
        }
    }
}

/// Every vertex of the triangle list is a corner of one of the chain's
/// points.
pub proof fn law_chain_points_in_range(point_count: nat, joints: Seq<Joint>)
    requires
        point_count <= usize::MAX,
    ensures
        forall|i: int|
            0 <= i < chain_triangles(point_count, joints).len() ==> #[trigger] chain_triangles(
                point_count,
                joints,
            )[i].point < point_count,
{
    if point_count >= 2 {
        lemma_strip_points(joints, (point_count - 1) as nat);
    }
}

/// The two segments that meet at an inner point are joined without a gap:
/// where the line goes straight on they share their whole edge there; where
/// it turns they share the corner on the inside of the turn, on the same
/// side, and the rounding fills the outside.
pub proof fn law_segments_joined(joints: Seq<Joint>, point: int)
    requires
        1 <= point <= joints.len(),
    ensures
        joints[point - 1] == Joint::Straight ==> incoming_edge(joints, point) == outgoing_edge(
            joints,
            point,
        ),
        joints[point - 1] == Joint::TurnLeft ==> {
            &&& incoming_edge(joints, point).0 == corner_at(point, Corner::Inner)
            &&& outgoing_edge(joints, point).0 == corner_at(point, Corner::Inner)
        },
        joints[point - 1] == Joint::TurnRight ==> {
            &&& incoming_edge(joints, point).1 == corner_at(point, Corner::Inner)
            &&& outgoing_edge(joints, point).1 == corner_at(point, Corner::Inner)
        },
        joints[point - 1] != Joint::Straight ==> round_vertices(joints, point).len() == 6,
{
}

proof fn lemma_strip_prefix(joints: Seq<Joint>, j: nat, k: nat)
    requires
        j <= k,
    ensures
        chain_strip(joints, j).len() <= chain_strip(joints, k).len(),
        chain_strip(joints, k).take(chain_strip(joints, j).len() as int) == chain_strip(joints, j),
    decreases k,
{
    if j < k {
        lemma_strip_prefix(joints, j, (k - 1) as nat);
        let a = chain_strip(joints, j);
        let b = chain_strip(joints, (k - 1) as nat);
        let c = chain_strip(joints, k);
        assert(c.take(b.len() as int) =~= b);
        assert(c.take(a.len() as int) =~= b.take(a.len() as int));
    } else {
        assert(chain_strip(joints, k).take(chain_strip(joints, j).len() as int) =~= chain_strip(
            joints,
            j,
        ));
    }
}

/// Wherever the line turns, in either direction, the triangle list holds
/// the two rounding triangles of that point, (Back, Inner, Middle) and
/// (Forward, Inner, Middle), as two whole triangles one after the other:
/// both outer corners of the turn are filled.
pub proof fn law_turn_is_rounded(point_count: nat, joints: Seq<Joint>, point: int)
    requires
        joints.len() + 2 == point_count,
        1 <= point <= joints.len(),
        joints[point - 1] != Joint::Straight,
    ensures
        exists|k: int|
            #![trigger chain_triangles(point_count, joints).subrange(k, k + 6)]
            0 <= k && k + 6 <= chain_triangles(point_count, joints).len() && k % 3 == 0
                && chain_triangles(point_count, joints).subrange(k, k + 6) == seq![
                ChainVertex { point: point as usize, corner: Corner::Back },
                ChainVertex { point: point as usize, corner: Corner::Inner },
                ChainVertex { point: point as usize, corner: Corner::Middle },
                ChainVertex { point: point as usize, corner: Corner::Forward },
                ChainVertex { point: point as usize, corner: Corner::Inner },
                ChainVertex { point: point as usize, corner: Corner::Middle },
            ],
{
    let p = point as nat;
    let before = chain_strip(joints, (p - 1) as nat);
    let upto = chain_strip(joints, p);
    let all = chain_triangles(point_count, joints);
    lemma_strip_len(joints, (p - 1) as nat);
    lemma_strip_prefix(joints, p, (point_count - 1) as nat);
    let k: int = before.len() as int + 6;
    assert(upto == before + segment_vertices(joints, p - 1) + round_vertices(joints, point));
    assert(upto.len() == k + 6);
    assert(all.take(upto.len() as int) == upto);
    assert(all.subrange(k, k + 6) =~= upto.subrange(k, k + 6));
    assert(upto.subrange(k, k + 6) =~= round_vertices(joints, point));
    assert(k % 3 == 0);
    assert(all.subrange(k, k + 6) == seq![
        ChainVertex { point: point as usize, corner: Corner::Back },
        ChainVertex { point: point as usize, corner: Corner::Inner },
        ChainVertex { point: point as usize, corner: Corner::Middle },
        ChainVertex { point: point as usize, corner: Corner::Forward },
        ChainVertex { point: point as usize, corner: Corner::Inner },
        ChainVertex { point: point as usize, corner: Corner::Middle },
    ]);
}

} // verus!
