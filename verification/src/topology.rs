//! The fleet's physical topology: containers holding racks, racks holding a
//! grid of devices, each device a (row, column) slot with a network address.
//!
//! The store that serves these records is an external collaborator; this
//! module holds the records themselves, the grid invariants, and the
//! deterministic device enumeration every job builds on: rack index
//! ascending, then row ascending, then column ascending.

use vstd::prelude::*;

verus! {

/// One device: a network address at a (row, column) slot of a rack.
pub struct DbMiner {
    pub id: i64,
    pub rack_id: i64,
    pub ip: Vec<u8>,
    pub row: i64,
    pub index: i64,
}

/// One rack: a width-by-height grid of device slots, indexed within its
/// container. `miners` holds one list per row, columns ascending.
pub struct DbRack {
    pub id: i64,
    pub can_id: i64,
    pub name: Vec<u8>,
    pub index: i64,
    pub width: i64,
    pub height: i64,
    pub miners: Vec<Vec<DbMiner>>,
}

/// One container: a named, numbered group of racks, rack index ascending.
pub struct DbCan {
    pub id: i64,
    pub name: Vec<u8>,
    pub num: i64,
    pub racks: Vec<DbRack>,
}

/// A container as handed to the presentation layer: no racks.
pub struct Can {
    pub id: i64,
    pub num: i64,
    pub name: Vec<u8>,
}

impl From<DbCan> for Can {
    fn from(c: DbCan) -> (r: Can) {
        Can { id: c.id, num: c.num, name: c.name }
    }
}

impl vstd::std_specs::convert::FromSpecImpl<DbCan> for Can {
    open spec fn obeys_from_spec() -> bool {
        true
    }

    open spec fn from_spec(c: DbCan) -> Can {
        Can { id: c.id, num: c.num, name: c.name }
    }
}

impl DbRack {
    /// The grid invariant: one row list per grid row; every device sits in
    /// the row list matching its row field, its column within the rack's
    /// width, columns strictly ascending within a row (so each (row, column)
    /// slot is used at most once).
    pub open spec fn wf(self) -> bool {
        &&& 0 <= self.height
        &&& 0 <= self.width
        &&& self.miners@.len() == self.height
        &&& forall|r: int, c: int|
            0 <= r < self.miners@.len() && 0 <= c < self.miners@[r]@.len() ==> {
                let m = #[trigger] self.miners@[r]@[c];
                &&& m.row == r
                &&& 0 <= m.index < self.width
            }
        &&& forall|r: int, c1: int, c2: int|
            0 <= r < self.miners@.len() && 0 <= c1 < c2 < self.miners@[r]@.len()
                ==> (#[trigger] self.miners@[r]@[c1]).index < (#[trigger] self.miners@[r]@[c2]).index
    }

    /// Fill the grid from a flat device list, bucketing each device into its
    /// row and keeping the list order within each row.
    pub fn place_miners(&mut self, miners: Vec<DbMiner>)
        requires
            0 <= old(self).height <= usize::MAX,
            forall|i: int|
                0 <= i < miners@.len() ==> 0 <= (#[trigger] miners@[i]).row < old(self).height,
        ensures
            final(self).miners@.len() == old(self).height,
            forall|r: int|
                0 <= r < old(self).height ==> (#[trigger] final(self).miners@[r])@ == miners@.filter(
                    |m: DbMiner| m.row == r,
                ),
            final(self).id == old(self).id,
            final(self).can_id == old(self).can_id,
            final(self).name == old(self).name,
            final(self).index == old(self).index,
            final(self).width == old(self).width,
            final(self).height == old(self).height,
    {
        let rows = place_in_rows(self.height, miners);
        self.miners = rows;
    }
}

/// A flat device list bucketed into rows: `rows[r]` holds, in list order,
/// exactly the devices whose row is `r`.
pub fn place_in_rows(height: i64, miners: Vec<DbMiner>) -> (rows: Vec<Vec<DbMiner>>)
    requires
        0 <= height <= usize::MAX,
        forall|i: int| 0 <= i < miners@.len() ==> 0 <= (#[trigger] miners@[i]).row < height,
    ensures
        rows@.len() == height,
        forall|r: int|
            0 <= r < height ==> (#[trigger] rows@[r])@ == miners@.filter(|m: DbMiner| m.row == r),
{
    let ghost orig = miners@;
    let mut miners = miners;
    let h = height as usize;
    let mut rows: Vec<Vec<DbMiner>> = Vec::new();
    while rows.len() < h
        invariant
            rows@.len() <= h,
            forall|r: int| 0 <= r < rows@.len() ==> (#[trigger] rows@[r])@.len() == 0,
        decreases h - rows@.len(),
    {
        rows.push(Vec::new());
    }
    proof {
        assert forall|r: int| 0 <= r < h implies (#[trigger] rows@[r])@ == orig.subrange(
            0,
            0,
        ).filter(|m: DbMiner| m.row == r) by {
            assert(orig.subrange(0, 0).len() == 0);
            assert(orig.subrange(0, 0).filter(|m: DbMiner| m.row == r) =~= Seq::<
                DbMiner,
            >::empty());
            assert(rows@[r]@ =~= Seq::<DbMiner>::empty());
        }
    }
    let ghost mut k: int = 0;
    while miners.len() > 0
        invariant
            0 <= k <= orig.len(),
            miners@ == orig.skip(k),
            rows@.len() == h,
            h == height,
            forall|i: int| 0 <= i < orig.len() ==> 0 <= (#[trigger] orig[i]).row < height,
            forall|r: int|
                0 <= r < h ==> (#[trigger] rows@[r])@ == orig.subrange(0, k).filter(
                    |m: DbMiner| m.row == r,
                ),
        decreases miners@.len(),
    {
        let m = miners.remove(0);
        proof {
            assert(m == orig[k]);
            assert(miners@ =~= orig.skip(k + 1));
        }
        let ghost pre = rows@;
        let r = m.row as usize;
        let ghost mr = m.row as int;
        let bucket = &mut rows[r];
        bucket.push(m);
        proof {
            let prefix = orig.subrange(0, k);
            let next = orig.subrange(0, k + 1);
            assert(next.drop_last() =~= prefix);
            assert(next.last() == orig[k]);
            assert forall|rr: int| 0 <= rr < h implies (#[trigger] rows@[rr])@ == next.filter(
                |mm: DbMiner| mm.row == rr,
            ) by {
                reveal(Seq::filter);
                if rr == mr {
                    assert(rows@[rr]@ == pre[rr]@.push(orig[k]));
                    assert(next.filter(|mm: DbMiner| mm.row == rr) == prefix.filter(
                        |mm: DbMiner| mm.row == rr,
                    ).push(orig[k]));
                } else {
                    assert(rows@[rr]@ == pre[rr]@);
                    assert(next.filter(|mm: DbMiner| mm.row == rr) == prefix.filter(
                        |mm: DbMiner| mm.row == rr,
                    ));
                }
            }
            k = k + 1;
        }
    }
    proof {
        assert(orig.skip(k) =~= miners@);
        assert(k == orig.len());
        assert(orig.subrange(0, orig.len() as int) =~= orig);
    }
    rows
}

/// A flat device list in the order the store serves it: row ascending, then
/// column ascending, no (row, column) slot repeated.
pub open spec fn store_ordered(s: Seq<DbMiner>) -> bool {
    forall|i: int, j: int|
        0 <= i < j < s.len() ==> ((#[trigger] s[i]).row < (#[trigger] s[j]).row || (s[i].row
            == s[j].row && s[i].index < s[j].index))
}

/// Every element of a filtered list stands somewhere in the list.
proof fn lemma_filter_member(s: Seq<DbMiner>, pred: spec_fn(DbMiner) -> bool, i: int)
    requires
        0 <= i < s.filter(pred).len(),
    ensures
        exists|p: int| 0 <= p < s.len() && s[p] == s.filter(pred)[i],
    decreases s.len(),
{
    reveal(Seq::filter);
    let out = s.filter(pred);
    let sub = s.drop_last().filter(pred);
    if pred(s.last()) && i == out.len() - 1 {
        assert(out[i] == s.last());
        assert(s[s.len() - 1] == out[i]);
    } else {
        assert(out[i] == sub[i]);
        lemma_filter_member(s.drop_last(), pred, i);
        let p = choose|p: int| 0 <= p < s.drop_last().len() && s.drop_last()[p] == sub[i];
        assert(s[p] == out[i]);
    }
}

/// Filtering a store-ordered list by one row keeps its columns strictly
/// ascending.
proof fn lemma_filter_row_sorted(s: Seq<DbMiner>, r: int, c1: int, c2: int)
    requires
        store_ordered(s),
        0 <= c1 < c2 < s.filter(|m: DbMiner| m.row == r).len(),
    ensures
        s.filter(|m: DbMiner| m.row == r)[c1].index < s.filter(|m: DbMiner| m.row == r)[c2].index,
    decreases s.len(),
{
    reveal(Seq::filter);
    let pred = |m: DbMiner| m.row == r;
    let out = s.filter(pred);
    let sub = s.drop_last().filter(pred);
    if pred(s.last()) && c2 == out.len() - 1 {
        assert(out[c1] == sub[c1]);
        assert(out[c2] == s.last());
        lemma_filter_member(s.drop_last(), pred, c1);
        let p = choose|p: int| 0 <= p < s.drop_last().len() && s.drop_last()[p] == sub[c1];
        assert(s[p] == sub[c1]);
        s.drop_last().lemma_filter_pred(pred, c1);
        assert(sub[c1].row == r && s.last().row == r);
    } else {
        assert(out[c1] == sub[c1] && out[c2] == sub[c2]);
        lemma_filter_row_sorted(s.drop_last(), r, c1, c2);
    }
}

/// A rack whose grid was filled by `place_miners` from the store's ordered
/// device list is well formed, provided every device sat inside the rack's
/// bounds.
pub proof fn lemma_placed_rack_wf(rack: DbRack, flat: Seq<DbMiner>)
    requires
        0 <= rack.height,
        0 <= rack.width,
        rack.miners@.len() == rack.height,
        forall|i: int|
            0 <= i < flat.len() ==> 0 <= (#[trigger] flat[i]).row && 0 <= flat[i].index
                < rack.width,
        store_ordered(flat),
        forall|r: int|
            0 <= r < rack.height ==> (#[trigger] rack.miners@[r])@ == flat.filter(
                |m: DbMiner| m.row == r,
            ),
    ensures
        rack.wf(),
{
    assert forall|r: int, c: int|
        0 <= r < rack.miners@.len() && 0 <= c < rack.miners@[r]@.len() implies {
        let m = #[trigger] rack.miners@[r]@[c];
        m.row == r && 0 <= m.index < rack.width
    } by {
        let pred = |m: DbMiner| m.row == r;
        flat.lemma_filter_pred(pred, c);
        assert(pred(flat.filter(pred)[c]));
        lemma_filter_member(flat, pred, c);
        let p = choose|p: int| 0 <= p < flat.len() && flat[p] == flat.filter(pred)[c];
        assert(0 <= flat[p].index < rack.width);
    }
    assert forall|r: int, c1: int, c2: int|
        0 <= r < rack.miners@.len() && 0 <= c1 < c2 < rack.miners@[r]@.len() implies (
    #[trigger] rack.miners@[r]@[c1]).index < (#[trigger] rack.miners@[r]@[c2]).index by {
        lemma_filter_row_sorted(flat, r, c1, c2);
    }
}

/// One resolved job target: a device address with its position in the
/// topology (container number, rack index, row, column).
pub struct Placement {
    pub ip: Vec<u8>,
    pub can: i64,
    pub rack: i64,
    pub row: i64,
    pub index: i64,
}

/// The ghost image of a `Placement`.
pub ghost struct PlacementV {
    pub ip: Seq<u8>,
    pub can: int,
    pub rack: int,
    pub row: int,
    pub index: int,
}

impl Placement {
    /// The ghost image of this placement.
    pub open spec fn pv(self) -> PlacementV {
        PlacementV {
            ip: self.ip@,
            can: self.can as int,
            rack: self.rack as int,
            row: self.row as int,
            index: self.index as int,
        }
    }
}

/// The ghost placement of one device of a rack.
pub open spec fn place_of(can: int, rack: int, m: DbMiner) -> PlacementV {
    PlacementV { ip: m.ip@, can: can, rack: rack, row: m.row as int, index: m.index as int }
}

/// The placements of one row of a rack, column order kept.
pub open spec fn row_places(can: int, rack: int, row: Seq<DbMiner>) -> Seq<PlacementV> {
    Seq::new(row.len(), |i: int| place_of(can, rack, row[i]))
}

/// The placements of a rack's rows, row ascending, columns ascending within
/// each row.
pub open spec fn rows_places(can: int, rack: int, rows: Seq<Vec<DbMiner>>) -> Seq<PlacementV>
    decreases rows.len(),
{
    if rows.len() == 0 {
        Seq::empty()
    } else {
        row_places(can, rack, rows[0]@) + rows_places(can, rack, rows.skip(1))
    }
}

/// The placements of one rack.
pub open spec fn rack_places(can: int, rack: DbRack) -> Seq<PlacementV> {
    rows_places(can, rack.index as int, rack.miners@)
}

/// The placements of a container's racks, rack order kept.
pub open spec fn racks_places(can: int, racks: Seq<DbRack>) -> Seq<PlacementV>
    decreases racks.len(),
{
    if racks.len() == 0 {
        Seq::empty()
    } else {
        rack_places(can, racks[0]) + racks_places(can, racks.skip(1))
    }
}

/// Every device of a container, in enumeration order: rack list order (rack
/// index ascending), then row ascending, then column ascending.
pub open spec fn can_places(can: DbCan) -> Seq<PlacementV> {
    racks_places(can.num as int, can.racks@)
}

/// Appending a row extends the row placements at the end.
proof fn lemma_rows_places_snoc(can: int, rack: int, rows: Seq<Vec<DbMiner>>, row: Vec<DbMiner>)
    ensures
        rows_places(can, rack, rows.push(row)) == rows_places(can, rack, rows) + row_places(
            can,
            rack,
            row@,
        ),
    decreases rows.len(),
{
    let pushed = rows.push(row);
    if rows.len() == 0 {
        assert(pushed[0] == row);
        assert(pushed.skip(1) =~= Seq::<Vec<DbMiner>>::empty());
        assert(rows_places(can, rack, pushed) == row_places(can, rack, row@) + rows_places(
            can,
            rack,
            pushed.skip(1),
        ));
        assert(rows_places(can, rack, Seq::<Vec<DbMiner>>::empty()) == Seq::<PlacementV>::empty());
        assert(rows_places(can, rack, rows) == Seq::<PlacementV>::empty());
        assert(rows_places(can, rack, pushed) =~= rows_places(can, rack, rows) + row_places(
            can,
            rack,
            row@,
        ));
    } else {
        assert(pushed[0] == rows[0]);
        assert(pushed.skip(1) =~= rows.skip(1).push(row));
        lemma_rows_places_snoc(can, rack, rows.skip(1), row);
        assert(rows_places(can, rack, pushed) == row_places(can, rack, rows[0]@) + rows_places(
            can,
            rack,
            pushed.skip(1),
        ));
        assert(rows_places(can, rack, rows) == row_places(can, rack, rows[0]@) + rows_places(
            can,
            rack,
            rows.skip(1),
        ));
        assert(rows_places(can, rack, pushed) =~= rows_places(can, rack, rows) + row_places(
            can,
            rack,
            row@,
        ));
    }
}

/// Appending a rack extends the container placements at the end.
proof fn lemma_racks_places_snoc(can: int, racks: Seq<DbRack>, rack: DbRack)
    ensures
        racks_places(can, racks.push(rack)) == racks_places(can, racks) + rack_places(can, rack),
    decreases racks.len(),
{
    let pushed = racks.push(rack);
    if racks.len() == 0 {
        assert(pushed[0] == rack);
        assert(pushed.skip(1) =~= Seq::<DbRack>::empty());
        assert(racks_places(can, pushed) == rack_places(can, rack) + racks_places(
            can,
            pushed.skip(1),
        ));
        assert(racks_places(can, Seq::<DbRack>::empty()) == Seq::<PlacementV>::empty());
        assert(racks_places(can, racks) == Seq::<PlacementV>::empty());
        assert(racks_places(can, pushed) =~= racks_places(can, racks) + rack_places(can, rack));
    } else {
        assert(pushed[0] == racks[0]);
        assert(pushed.skip(1) =~= racks.skip(1).push(rack));
        lemma_racks_places_snoc(can, racks.skip(1), rack);
        assert(racks_places(can, pushed) == rack_places(can, racks[0]) + racks_places(
            can,
            pushed.skip(1),
        ));
        assert(racks_places(can, racks) == rack_places(can, racks[0]) + racks_places(
            can,
            racks.skip(1),
        ));
        assert(racks_places(can, pushed) =~= racks_places(can, racks) + rack_places(can, rack));
    }
}

/// The ghost images of a placement list.
pub open spec fn pvs(ps: Seq<Placement>) -> Seq<PlacementV> {
    ps.map_values(|p: Placement| p.pv())
}

/// The ghost image of a push is a push of the ghost images.
proof fn lemma_pvs_push(s: Seq<Placement>, p: Placement)
    ensures
        pvs(s.push(p)) == pvs(s).push(p.pv()),
{
    assert(pvs(s.push(p)) =~= pvs(s).push(p.pv()));
}

/// The ghost image of a concatenation, concatenated.
proof fn lemma_pvs_add(a: Seq<Placement>, b: Seq<Placement>)
    ensures
        pvs(a + b) == pvs(a) + pvs(b),
{
    assert(pvs(a + b) =~= pvs(a) + pvs(b));
}

/// One rack's devices as placements, row then column ascending.
fn enumerate_rack(can_num: i64, rack: &DbRack) -> (out: Vec<Placement>)
    ensures
        pvs(out@) == rack_places(can_num as int, *rack),
{
    let mut out: Vec<Placement> = Vec::new();
    let ghost rk: int = rack.index as int;
    let ghost cn: int = can_num as int;
    let nrows = rack.miners.len();
    let mut r: usize = 0;
    proof {
        assert(pvs(out@) =~= rows_places(cn, rk, rack.miners@.subrange(0, 0)));
    }
    while r < nrows
        invariant
            r <= nrows,
            nrows == rack.miners@.len(),
            rk == rack.index as int,
            cn == can_num as int,
            pvs(out@) == rows_places(cn, rk, rack.miners@.subrange(0, r as int)),
        decreases nrows - r,
    {
        let rowlen = rack.miners[r].len();
        let mut c: usize = 0;
        let ghost rowv = rack.miners@[r as int]@;
        let ghost pre = pvs(out@);
        while c < rowlen
            invariant
                c <= rowlen,
                r < rack.miners@.len(),
                rowv == rack.miners@[r as int]@,
                rowlen == rowv.len(),
                rk == rack.index as int,
                cn == can_num as int,
                pvs(out@) == pre + row_places(cn, rk, rowv.subrange(0, c as int)),
            decreases rowlen - c,
        {
            let m = &rack.miners[r][c];
            let p = Placement {
                ip: crate::text::clone_bytes(&m.ip),
                can: can_num,
                rack: rack.index,
                row: m.row,
                index: m.index,
            };
            let ghost before = out@;
            let ghost pv = p.pv();
            out.push(p);
            proof {
                lemma_pvs_push(before, out@.last());
                assert(pv == place_of(cn, rk, rowv[c as int]));
                assert(row_places(cn, rk, rowv.subrange(0, c + 1)) =~= row_places(
                    cn,
                    rk,
                    rowv.subrange(0, c as int),
                ).push(place_of(cn, rk, rowv[c as int])));
                assert(pvs(out@) =~= pre + row_places(cn, rk, rowv.subrange(0, c + 1)));
            }
            c = c + 1;
        }
        proof {
            assert(rowv.subrange(0, rowv.len() as int) =~= rowv);
            let prefix = rack.miners@.subrange(0, r as int);
            let next = rack.miners@.subrange(0, r + 1);
            assert(next =~= prefix.push(rack.miners@[r as int]));
            lemma_rows_places_snoc(cn, rk, prefix, rack.miners@[r as int]);
            assert(pvs(out@) =~= rows_places(cn, rk, next));
        }
        r = r + 1;
    }
    proof {
        assert(rack.miners@.subrange(0, rack.miners@.len() as int) =~= rack.miners@);
    }
    out
}

/// Every device of a container, in enumeration order: rack index ascending
/// (the rack list's order), then row ascending, then column ascending.
pub fn enumerate_can(can: &DbCan) -> (out: Vec<Placement>)
    ensures
        pvs(out@) == can_places(*can),
{
    let mut out: Vec<Placement> = Vec::new();
    let ghost cn: int = can.num as int;
    let nracks = can.racks.len();
    let mut i: usize = 0;
    proof {
        assert(pvs(out@) =~= racks_places(cn, can.racks@.subrange(0, 0)));
    }
    while i < nracks
        invariant
            i <= nracks,
            nracks == can.racks@.len(),
            cn == can.num as int,
            pvs(out@) == racks_places(cn, can.racks@.subrange(0, i as int)),
        decreases nracks - i,
    {
        let mut more = enumerate_rack(can.num, &can.racks[i]);
        let ghost pre = out@;
        let ghost morev = more@;
        out.append(&mut more);
        proof {
            lemma_pvs_add(pre, morev);
            let prefix = can.racks@.subrange(0, i as int);
            let next = can.racks@.subrange(0, i + 1);
            assert(next =~= prefix.push(can.racks@[i as int]));
            lemma_racks_places_snoc(cn, prefix, can.racks@[i as int]);
            assert(pvs(out@) =~= racks_places(cn, next));
        }
        i = i + 1;
    }
    proof {
        assert(can.racks@.subrange(0, can.racks@.len() as int) =~= can.racks@);
    }
    out
}

/// One placement strictly before another in enumeration order: rack index
/// first, then row, then column.
pub open spec fn place_lt(a: PlacementV, b: PlacementV) -> bool {
    ||| a.rack < b.rack
    ||| (a.rack == b.rack && a.row < b.row)
    ||| (a.rack == b.rack && a.row == b.row && a.index < b.index)
}

/// A placement list in strictly ascending enumeration order.
pub open spec fn sorted_places(ps: Seq<PlacementV>) -> bool {
    forall|i: int, j: int| 0 <= i < j < ps.len() ==> place_lt(#[trigger] ps[i], #[trigger] ps[j])
}

impl DbCan {
    /// The container invariant: every rack well formed, rack indexes
    /// strictly ascending in list order.
    pub open spec fn wf(self) -> bool {
        &&& forall|k: int| 0 <= k < self.racks@.len() ==> (#[trigger] self.racks@[k]).wf()
        &&& forall|k1: int, k2: int|
            0 <= k1 < k2 < self.racks@.len() ==> (#[trigger] self.racks@[k1]).index < (
            #[trigger] self.racks@[k2]).index
    }
}

/// Two sorted placement lists concatenate to a sorted list when everything
/// in the first comes before everything in the second.
proof fn lemma_sorted_concat(a: Seq<PlacementV>, b: Seq<PlacementV>)
    requires
        sorted_places(a),
        sorted_places(b),
        forall|i: int, j: int|
            0 <= i < a.len() && 0 <= j < b.len() ==> place_lt(#[trigger] a[i], #[trigger] b[j]),
    ensures
        sorted_places(a + b),
{
    assert forall|i: int, j: int| 0 <= i < j < (a + b).len() implies place_lt(
        #[trigger] (a + b)[i],
        #[trigger] (a + b)[j],
    ) by {
        if j < a.len() {
            assert((a + b)[i] == a[i] && (a + b)[j] == a[j]);
        } else if i >= a.len() {
            assert((a + b)[i] == b[i - a.len()] && (a + b)[j] == b[j - a.len()]);
        } else {
            assert((a + b)[i] == a[i] && (a + b)[j] == b[j - a.len()]);
        }
    }
}

/// A well-formed grid's placements are strictly ascending by (row, column),
/// all in the given rack, rows starting at `lo`.
proof fn lemma_rows_places_sorted(can: int, rk: int, rows: Seq<Vec<DbMiner>>, lo: int)
    requires
        forall|r: int, c: int|
            0 <= r < rows.len() && 0 <= c < (#[trigger] rows[r])@.len() ==> (#[trigger] rows[r]@[c]).row
                == lo + r,
        forall|r: int, c1: int, c2: int|
            0 <= r < rows.len() && 0 <= c1 < c2 < (#[trigger] rows[r])@.len() ==> (
            #[trigger] rows[r]@[c1]).index < (#[trigger] rows[r]@[c2]).index,
    ensures
        sorted_places(rows_places(can, rk, rows)),
        forall|i: int|
            0 <= i < rows_places(can, rk, rows).len() ==> (#[trigger] rows_places(
                can,
                rk,
                rows,
            )[i]).rack == rk && rows_places(can, rk, rows)[i].row >= lo,
    decreases rows.len(),
{
    if rows.len() == 0 {
    } else {
        let head = row_places(can, rk, rows[0]@);
        let tail = rows_places(can, rk, rows.skip(1));
        assert forall|r: int, c: int|
            0 <= r < rows.skip(1).len() && 0 <= c < (#[trigger] rows.skip(1)[r])@.len() implies (
        #[trigger] rows.skip(1)[r]@[c]).row == (lo + 1) + r by {
            assert(rows.skip(1)[r] == rows[r + 1]);
        }
        assert forall|r: int, c1: int, c2: int|
            0 <= r < rows.skip(1).len() && 0 <= c1 < c2 < (#[trigger] rows.skip(1)[r])@.len() implies (
        #[trigger] rows.skip(1)[r]@[c1]).index < (#[trigger] rows.skip(1)[r]@[c2]).index by {
            assert(rows.skip(1)[r] == rows[r + 1]);
        }
        lemma_rows_places_sorted(can, rk, rows.skip(1), lo + 1);
        assert(sorted_places(head)) by {
            assert forall|i: int, j: int| 0 <= i < j < head.len() implies place_lt(
                #[trigger] head[i],
                #[trigger] head[j],
            ) by {
                assert(rows[0]@[i].row == lo && rows[0]@[j].row == lo);
                assert(rows[0]@[i].index < rows[0]@[j].index);
            }
        }
        assert forall|i: int, j: int|
            0 <= i < head.len() && 0 <= j < tail.len() implies place_lt(
            #[trigger] head[i],
            #[trigger] tail[j],
        ) by {
            assert(head[i].row == lo && head[i].rack == rk);
            assert(tail[j].row >= lo + 1 && tail[j].rack == rk);
        }
        lemma_sorted_concat(head, tail);
        assert(rows_places(can, rk, rows) == head + tail);
    }
}

/// A well-formed rack's placements are strictly ascending by (row, column)
/// and all carry the rack's index.
proof fn lemma_rack_places_sorted(can: int, rack: DbRack)
    requires
        rack.wf(),
    ensures
        sorted_places(rack_places(can, rack)),
        forall|i: int|
            0 <= i < rack_places(can, rack).len() ==> (#[trigger] rack_places(can, rack)[i]).rack
                == rack.index as int,
{
    lemma_rows_places_sorted(can, rack.index as int, rack.miners@, 0);
}

/// Deterministic enumeration: a well-formed container's devices come out in
/// strictly ascending order — rack index first, then row, then column — so
/// progress numbering is reproducible run over run.
pub proof fn lemma_enumeration_deterministic(can: DbCan)
    requires
        can.wf(),
    ensures
        sorted_places(can_places(can)),
{
    lemma_racks_places_sorted(can.num as int, can.racks@);
}

/// The placements of strictly index-ascending, well-formed racks are
/// strictly ascending, and none sits before the first rack's index.
proof fn lemma_racks_places_sorted(can: int, racks: Seq<DbRack>)
    requires
        forall|k: int| 0 <= k < racks.len() ==> (#[trigger] racks[k]).wf(),
        forall|k1: int, k2: int|
            0 <= k1 < k2 < racks.len() ==> (#[trigger] racks[k1]).index < (
            #[trigger] racks[k2]).index,
    ensures
        sorted_places(racks_places(can, racks)),
        forall|i: int|
            racks.len() > 0 && 0 <= i < racks_places(can, racks).len() ==> (
            #[trigger] racks_places(can, racks)[i]).rack >= racks[0].index,
    decreases racks.len(),
{
    if racks.len() == 0 {
    } else {
        let head = rack_places(can, racks[0]);
        let tail = racks_places(can, racks.skip(1));
        lemma_rack_places_sorted(can, racks[0]);
        assert forall|k1: int, k2: int|
            0 <= k1 < k2 < racks.skip(1).len() implies (#[trigger] racks.skip(1)[k1]).index < (
        #[trigger] racks.skip(1)[k2]).index by {
            assert(racks.skip(1)[k1] == racks[k1 + 1] && racks.skip(1)[k2] == racks[k2 + 1]);
        }
        assert forall|k: int| 0 <= k < racks.skip(1).len() implies (#[trigger] racks.skip(
            1,
        )[k]).wf() by {
            assert(racks.skip(1)[k] == racks[k + 1]);
        }
        lemma_racks_places_sorted(can, racks.skip(1));
        if racks.len() > 1 {
            assert(racks.skip(1)[0] == racks[1]);
            assert(racks[0].index < racks[1].index);
        }
        assert forall|i: int, j: int|
            0 <= i < head.len() && 0 <= j < tail.len() implies place_lt(
            #[trigger] head[i],
            #[trigger] tail[j],
        ) by {
            assert(head[i].rack == racks[0].index as int);
            assert(tail[j].rack >= racks.skip(1)[0].index);
        }
        lemma_sorted_concat(head, tail);
        assert(racks_places(can, racks) == head + tail);
    }
}

/// The first placement in `ps` whose address is `ip`.
pub open spec fn first_match(ps: Seq<PlacementV>, ip: Seq<u8>) -> Option<PlacementV>
    decreases ps.len(),
{
    if ps.len() == 0 {
        None
    } else if ps[0].ip == ip {
        Some(ps[0])
    } else {
        first_match(ps.skip(1), ip)
    }
}

/// The placement of the device at address `ip`, searching the containers in
/// list order and each container in enumeration order.
pub open spec fn lookup_device(cans: Seq<DbCan>, ip: Seq<u8>) -> Option<PlacementV>
    decreases cans.len(),
{
    if cans.len() == 0 {
        None
    } else {
        match first_match(can_places(cans[0]), ip) {
            Some(p) => Some(p),
            None => lookup_device(cans.skip(1), ip),
        }
    }
}

/// The device at address `ip`, with its position, or `None` when no
/// container holds that address.
pub fn find_device(cans: &Vec<DbCan>, ip: &Vec<u8>) -> (out: Option<Placement>)
    ensures
        match out {
            Some(p) => lookup_device(cans@, ip@) == Some(p.pv()),
            None => lookup_device(cans@, ip@) is None,
        },
{
    let ncans = cans.len();
    let mut i: usize = 0;
    proof {
        assert(cans@.skip(0) =~= cans@);
    }
    while i < ncans
        invariant
            i <= ncans,
            ncans == cans@.len(),
            lookup_device(cans@, ip@) == lookup_device(cans@.skip(i as int), ip@),
        decreases ncans - i,
    {
        let places = enumerate_can(&cans[i]);
        let ghost pl = pvs(places@);
        let nplaces = places.len();
        let mut j: usize = 0;
        proof {
            assert(pl.skip(0) =~= pl);
        }
        while j < nplaces
            invariant
                j <= nplaces,
                nplaces == places@.len(),
                pl == pvs(places@),
                i < cans@.len(),
                pl == can_places(cans@[i as int]),
                first_match(pl, ip@) == first_match(pl.skip(j as int), ip@),
                lookup_device(cans@, ip@) == lookup_device(cans@.skip(i as int), ip@),
            decreases nplaces - j,
        {
            if crate::text::bytes_eq(&places[j].ip, ip) {
                proof {
                    assert(pl.skip(j as int)[0] == places@[j as int].pv());
                    assert(first_match(pl.skip(j as int), ip@) == Some(places@[j as int].pv()));
                    assert(cans@.skip(i as int)[0] == cans@[i as int]);
                    assert(lookup_device(cans@.skip(i as int), ip@) == Some(
                        places@[j as int].pv(),
                    ));
                }
                let p = Placement {
                    ip: crate::text::clone_bytes(&places[j].ip),
                    can: places[j].can,
                    rack: places[j].rack,
                    row: places[j].row,
                    index: places[j].index,
                };
                proof {
                    assert(p.pv() == places@[j as int].pv());
                    assert(lookup_device(cans@, ip@) == Some(p.pv()));
                }
                return Some(p);
            }
            proof {
                assert(pl.skip(j as int)[0] == places@[j as int].pv());
                assert(pl.skip(j as int).skip(1) =~= pl.skip(j + 1));
            }
            j = j + 1;
        }
        proof {
            assert(pl.skip(pl.len() as int) =~= Seq::<PlacementV>::empty());
            assert(first_match(pl, ip@) is None);
            assert(cans@.skip(i as int)[0] == cans@[i as int]);
            assert(cans@.skip(i as int).skip(1) =~= cans@.skip(i + 1));
        }
        i = i + 1;
    }
    proof {
        assert(cans@.skip(ncans as int) =~= Seq::<DbCan>::empty());
    }
    None
}

} // verus!
