//! Shapes: the physical path of trips, as points that the table gives
//! one per row and that are gathered into one polyline per shape id.
use crate::fields::{FieldError, optional_text, read_optional_text, read_required_number, read_required_text, required_number, required_text};
use crate::group::{
    add_to_group_indexed, add_to_groups, groups_view, has_group, ids_distinct, ids_of,
    lemma_add_to_groups, Group, GroupView, Slot,
};
use crate::lookup::KeyIndex;
use crate::table::Record;
use vstd::prelude::*;

verus! {

/// One point of a shape as a row gives it; coordinates and distance are kept as their decimal text.
#[derive(Debug, Clone)]
pub struct ShapePoint {
    pub shape_id: String,
    pub shape_pt_sequence: u32,
    pub shape_pt_lat: String,
    pub shape_pt_lon: String,
    pub shape_dist_traveled: Option<String>,
}

impl Record for ShapePoint {
    open spec fn spec_decode(header: Seq<String>, row: Seq<String>) -> Result<ShapePoint, FieldError> {
        let shape_id = required_text(header, row, "shape_id");
        let shape_pt_sequence = required_number(header, row, "shape_pt_sequence");
        let shape_pt_lat = required_text(header, row, "shape_pt_lat");
        let shape_pt_lon = required_text(header, row, "shape_pt_lon");
        if shape_id is Err {
            Err(shape_id->Err_0)
        } else if shape_pt_sequence is Err {
            Err(shape_pt_sequence->Err_0)
        } else if shape_pt_lat is Err {
            Err(shape_pt_lat->Err_0)
        } else if shape_pt_lon is Err {
            Err(shape_pt_lon->Err_0)
        } else {
            Ok(ShapePoint {
                shape_id: shape_id->Ok_0,
                shape_pt_sequence: shape_pt_sequence->Ok_0,
                shape_pt_lat: shape_pt_lat->Ok_0,
                shape_pt_lon: shape_pt_lon->Ok_0,
                shape_dist_traveled: optional_text(header, row, "shape_dist_traveled"),
            })
        }
    }

    fn decode(header: &Vec<String>, row: &Vec<String>) -> (r: Result<ShapePoint, FieldError>) {
        let shape_id = match read_required_text(header, row, "shape_id") {
            Ok(v) => v,
            Err(e) => return Err(e),
        };
        let shape_pt_sequence = match read_required_number(header, row, "shape_pt_sequence") {
            Ok(v) => v,
            Err(e) => return Err(e),
        };
        let shape_pt_lat = match read_required_text(header, row, "shape_pt_lat") {
            Ok(v) => v,
            Err(e) => return Err(e),
        };
        let shape_pt_lon = match read_required_text(header, row, "shape_pt_lon") {
            Ok(v) => v,
            Err(e) => return Err(e),
        };
        Ok(ShapePoint {
            shape_id,
            shape_pt_sequence,
            shape_pt_lat,
            shape_pt_lon,
            shape_dist_traveled: read_optional_text(header, row, "shape_dist_traveled"),
        })
    }
}

/// One point of a polyline, without the id of its shape.
#[derive(Debug, Clone)]
pub struct ShapePointData {
    pub shape_pt_lat: String,
    pub shape_pt_lon: String,
    pub shape_dist_traveled: Option<String>,
}

impl ShapePointData {
    pub open spec fn spec_of(p: ShapePoint) -> ShapePointData {
        ShapePointData {
            shape_pt_lat: p.shape_pt_lat,
            shape_pt_lon: p.shape_pt_lon,
            shape_dist_traveled: p.shape_dist_traveled,
        }
    }

    pub fn from_point(p: &ShapePoint) -> (r: ShapePointData)
        ensures
            r == Self::spec_of(*p),
    {
        ShapePointData {
            shape_pt_lat: p.shape_pt_lat.clone(),
            shape_pt_lon: p.shape_pt_lon.clone(),
            shape_dist_traveled: match &p.shape_dist_traveled {
                Some(d) => Some(d.clone()),
                None => None,
            },
        }
    }
}

/// The points of a shape are kept in the order in which they arrive.
impl Slot for ShapePointData {
    open spec fn spec_put(items: Seq<ShapePointData>, t: ShapePointData) -> Seq<ShapePointData> {
        items.push(t)
    }

    fn put(items: &mut Vec<ShapePointData>, t: ShapePointData) {
        items.push(t);
    }

    proof fn lemma_put_contains(items: Seq<ShapePointData>, t: ShapePointData) {
        assert forall|x: ShapePointData| #[trigger] items.push(t).contains(x) implies items.contains(x) || x == t by {
            let j = choose|j: int| 0 <= j < items.len() + 1 && items.push(t)[j] == x;
            if j < items.len() {
                assert(items[j] == x);
            }
        }
    }
}

/// A shape: its id and its points, in the order of the rows.
pub type Shape = Group<ShapePointData>;

/// The shapes that the points make up, in the order in which their ids first appear.
pub open spec fn aggregate(points: Seq<ShapePoint>) -> Seq<GroupView<ShapePointData>>
    decreases points.len(),
{
    if points.len() == 0 {
        Seq::empty()
    } else {
        let p = points.last();
        add_to_groups(aggregate(points.drop_last()), p.shape_id@, ShapePointData::spec_of(p))
    }
}

/// How many of the points belong to the shape with id `k`.
pub open spec fn count_points(points: Seq<ShapePoint>, k: Seq<char>) -> nat
    decreases points.len(),
{
    if points.len() == 0 {
        0
    } else {
        count_points(points.drop_last(), k) + if points.last().shape_id@ == k {
            1nat
        } else {
            0nat
        }
    }
}

/// The distinct shape ids of the points.
pub open spec fn shape_ids(points: Seq<ShapePoint>) -> Set<Seq<char>> {
    points.map_values(|p: ShapePoint| p.shape_id@).to_set()
}

impl Group<ShapePointData> {
    /// Gathers shape points into shapes: one per distinct shape id, holding
    /// the points of that id in the order of the input.
    pub fn process_points(points: &Vec<ShapePoint>) -> (r: Vec<Shape>)
        ensures
            groups_view(r@) == aggregate(points@),
    {
        let mut shapes: Vec<Shape> = Vec::new();
        let mut idx = KeyIndex::new();
        let mut i: usize = 0;
        assert(ids_of(groups_view(shapes@)) =~= Seq::<Seq<char>>::empty());
        while i < points.len()
            invariant
                i <= points.len(),
                groups_view(shapes@) == aggregate(points@.subrange(0, i as int)),
                idx.indexes(ids_of(groups_view(shapes@))),
                ids_distinct(groups_view(shapes@)),
            decreases points.len() - i,
        {
            let p = &points[i];
            assert(points@.subrange(0, i + 1).drop_last() =~= points@.subrange(0, i as int));
            add_to_group_indexed(&mut shapes, &mut idx, p.shape_id.as_str(), ShapePointData::from_point(p));
            i = i + 1;
        }
        assert(points@.subrange(0, points.len() as int) =~= points@);
        shapes
    }
}

/// Gathering N points that carry K distinct shape ids gives exactly K
/// shapes, one per id, and each shape holds as many points as carry its id.
pub proof fn lemma_aggregate_counts(points: Seq<ShapePoint>)
    ensures
        ids_distinct(aggregate(points)),
        forall|k: Seq<char>| has_group(aggregate(points), k) <==> shape_ids(points).contains(k),
        aggregate(points).len() == shape_ids(points).len(),
        forall|i: int|
            0 <= i < aggregate(points).len() ==> (#[trigger] aggregate(points)[i]).1.len()
                == count_points(points, aggregate(points)[i].0),
    decreases points.len(),
{
    let a = aggregate(points);
    if points.len() == 0 {
        assert(shape_ids(points) =~= Set::empty());
    } else {
        let q = points.drop_last();
        let p = points.last();
        lemma_aggregate_counts(q);
        let b = aggregate(q);
        lemma_add_to_groups(b, p.shape_id@, ShapePointData::spec_of(p));
        let ids = points.map_values(|x: ShapePoint| x.shape_id@);
        let qids = q.map_values(|x: ShapePoint| x.shape_id@);
        assert(ids =~= qids.push(p.shape_id@));
        assert forall|k: Seq<char>| has_group(a, k) <==> shape_ids(points).contains(k) by {
            assert(has_group(a, k) <==> (has_group(b, k) || k == p.shape_id@));
            if shape_ids(points).contains(k) {
                let j = choose|j: int| 0 <= j < ids.len() && ids[j] == k;
                if j < qids.len() {
                    assert(qids[j] == k);
                    assert(shape_ids(q).contains(k));
                }
            }
            if shape_ids(q).contains(k) {
                let j = choose|j: int| 0 <= j < qids.len() && qids[j] == k;
                assert(ids[j] == k);
            }
            if k == p.shape_id@ {
                assert(ids[ids.len() - 1] == k);
            }
        }
        assert forall|i: int| 0 <= i < a.len() implies (#[trigger] a[i]).1.len() == count_points(
            points,
            a[i].0,
        ) by {
            if a[i].0 != p.shape_id@ {
                assert(b[i] == a[i]);
            } else if i < b.len() {
                assert(b[i].0 == a[i].0);
            } else {
                if has_group(b, p.shape_id@) {
                    let j = choose|j: int| 0 <= j < b.len() && (#[trigger] b[j]).0 == p.shape_id@;
                    assert(a[j] == b[j] || a[j].0 == p.shape_id@);
                }
                assert(!shape_ids(q).contains(p.shape_id@));
                lemma_count_absent(q, p.shape_id@);
            }
        }
    }
    let gids = a.map_values(|g: GroupView<ShapePointData>| g.0);
    assert(gids.no_duplicates()) by {
        assert forall|i: int, j: int| 0 <= i < gids.len() && 0 <= j < gids.len() && i != j implies gids[i] != gids[j] by {
            assert(a[i].0 != a[j].0);
        }
    }
    gids.unique_seq_to_set();
    assert(gids.to_set() =~= shape_ids(points)) by {
        assert forall|k: Seq<char>| gids.to_set().contains(k) <==> shape_ids(points).contains(k) by {
            if gids.to_set().contains(k) {
                let j = choose|j: int| 0 <= j < gids.len() && gids[j] == k;
                assert(a[j].0 == k);
            }
            if has_group(a, k) {
                let j = choose|j: int| 0 <= j < a.len() && (#[trigger] a[j]).0 == k;
                assert(gids[j] == k);
            }
        }
    }
}

proof fn lemma_count_absent(points: Seq<ShapePoint>, k: Seq<char>)
    requires
        !shape_ids(points).contains(k),
    ensures
        count_points(points, k) == 0,
    decreases points.len(),
{
    if points.len() > 0 {
        let q = points.drop_last();
        let ids = points.map_values(|x: ShapePoint| x.shape_id@);
        let qids = q.map_values(|x: ShapePoint| x.shape_id@);
        assert(ids =~= qids.push(points.last().shape_id@));
        assert(ids[ids.len() - 1] == points.last().shape_id@);
        assert forall|j: int| 0 <= j < qids.len() implies qids[j] != k by {
            assert(ids[j] == qids[j]);
        }
        lemma_count_absent(q, k);
    }
}

} // verus!
