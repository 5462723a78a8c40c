//! Planning a bulk topology import from site-layout records.
//!
//! The layout export lists groups (containers) and racks, the sitemap lists
//! devices. Reading the files and writing the store are the import
//! collaborator's; this module turns the parsed records into a write plan,
//! resolving each rack to its group and each device to its rack by name, in
//! record order, and rejecting a record whose reference or dimensions are
//! missing.

use vstd::prelude::*;

verus! {

/// What one layout record describes.
pub enum RecordKind {
    Group,
    Rack,
}

/// One layout record: a group, or a rack inside a named group.
pub struct RackRecord {
    pub group_name: Option<Vec<u8>>,
    pub kind: RecordKind,
    pub name: Vec<u8>,
    pub row: i64,
    pub column: i64,
    pub rack_width: Option<i64>,
    pub rack_height: Option<i64>,
}

/// One sitemap record: a device at a slot of a named rack.
pub struct SitemapRecord {
    pub pickaxe_id: Vec<u8>,
    pub miner_ip: Vec<u8>,
    pub miner_port: u16,
    pub rack: Vec<u8>,
    pub row: i64,
    pub index: i64,
}

/// A container to create: a group record's name and display number.
pub struct PlanCan {
    pub name: Vec<u8>,
    pub num: i64,
}

/// A rack to create, under the container of the given name.
pub struct PlanRack {
    pub can_name: Vec<u8>,
    pub name: Vec<u8>,
    pub index: i64,
    pub width: i64,
    pub height: i64,
}

/// A device to create, in the rack of the given name.
pub struct PlanMiner {
    pub ip: Vec<u8>,
    pub rack_name: Vec<u8>,
    pub row: i64,
    pub index: i64,
}

/// The resolved write plan: everything the store is to be filled with.
pub struct ImportPlan {
    pub cans: Vec<PlanCan>,
    pub racks: Vec<PlanRack>,
    pub miners: Vec<PlanMiner>,
}

/// Why an import was rejected.
#[derive(Debug, PartialEq, Eq, Structural)]
pub enum ImportError {
    MissingGroupName,
    MissingDimensions,
    UnknownGroup,
    UnknownRack,
}

/// Whether a container of this name is already planned.
pub open spec fn can_named(cans: Seq<PlanCan>, name: Seq<u8>) -> bool {
    exists|i: int| 0 <= i < cans.len() && cans[i].name@ == name
}

/// Whether a rack of this name is already planned.
pub open spec fn rack_named(racks: Seq<PlanRack>, name: Seq<u8>) -> bool {
    exists|i: int| 0 <= i < racks.len() && racks[i].name@ == name
}

/// What one layout record adds to the plan, or why it is rejected.
pub open spec fn layout_step(
    cans: Seq<PlanCan>,
    racks: Seq<PlanRack>,
    rec: RackRecord,
) -> Result<(Seq<PlanCan>, Seq<PlanRack>), ImportError> {
    match rec.kind {
        RecordKind::Group => Ok((cans.push(PlanCan { name: rec.name, num: rec.row }), racks)),
        RecordKind::Rack => match rec.group_name {
            None => Err(ImportError::MissingGroupName),
            Some(g) => if !can_named(cans, g@) {
                Err(ImportError::UnknownGroup)
            } else {
                match (rec.rack_width, rec.rack_height) {
                    (Some(w), Some(h)) => Ok(
                        (
                            cans,
                            racks.push(
                                PlanRack {
                                    can_name: g,
                                    name: rec.name,
                                    index: rec.column,
                                    width: w,
                                    height: h,
                                },
                            ),
                        ),
                    ),
                    _ => Err(ImportError::MissingDimensions),
                }
            },
        },
    }
}

/// The layout records folded into the plan, in record order.
pub open spec fn run_layout(
    cans: Seq<PlanCan>,
    racks: Seq<PlanRack>,
    recs: Seq<RackRecord>,
) -> Result<(Seq<PlanCan>, Seq<PlanRack>), ImportError>
    decreases recs.len(),
{
    if recs.len() == 0 {
        Ok((cans, racks))
    } else {
        match layout_step(cans, racks, recs[0]) {
            Ok((c2, r2)) => run_layout(c2, r2, recs.skip(1)),
            Err(e) => Err(e),
        }
    }
}

/// What one sitemap record adds to the plan, or why it is rejected.
pub open spec fn sitemap_step(
    racks: Seq<PlanRack>,
    miners: Seq<PlanMiner>,
    rec: SitemapRecord,
) -> Result<Seq<PlanMiner>, ImportError> {
    if !rack_named(racks, rec.rack@) {
        Err(ImportError::UnknownRack)
    } else {
        Ok(
            miners.push(
                PlanMiner { ip: rec.miner_ip, rack_name: rec.rack, row: rec.row, index: rec.index },
            ),
        )
    }
}

/// The sitemap records folded into the plan, in record order.
pub open spec fn run_sitemap(
    racks: Seq<PlanRack>,
    miners: Seq<PlanMiner>,
    recs: Seq<SitemapRecord>,
) -> Result<Seq<PlanMiner>, ImportError>
    decreases recs.len(),
{
    if recs.len() == 0 {
        Ok(miners)
    } else {
        match sitemap_step(racks, miners, recs[0]) {
            Ok(m2) => run_sitemap(racks, m2, recs.skip(1)),
            Err(e) => Err(e),
        }
    }
}

/// Whether a container of this name is in the plan so far.
fn find_can_name(cans: &Vec<PlanCan>, name: &Vec<u8>) -> (b: bool)
    ensures
        b == can_named(cans@, name@),
{
    let n = cans.len();
    let mut i: usize = 0;
    while i < n
        invariant
            i <= n,
            n == cans@.len(),
            forall|j: int| 0 <= j < i ==> (#[trigger] cans@[j]).name@ != name@,
        decreases n - i,
    {
        if crate::text::bytes_eq(&cans[i].name, name) {
            assert(can_named(cans@, name@));
            return true;
        }
        i = i + 1;
    }
    false
}

/// Whether a rack of this name is in the plan so far.
fn find_rack_name(racks: &Vec<PlanRack>, name: &Vec<u8>) -> (b: bool)
    ensures
        b == rack_named(racks@, name@),
{
    let n = racks.len();
    let mut i: usize = 0;
    while i < n
        invariant
            i <= n,
            n == racks@.len(),
            forall|j: int| 0 <= j < i ==> (#[trigger] racks@[j]).name@ != name@,
        decreases n - i,
    {
        if crate::text::bytes_eq(&racks[i].name, name) {
            assert(rack_named(racks@, name@));
            return true;
        }
        i = i + 1;
    }
    false
}

/// Turn the parsed layout and sitemap records into the write plan, or the
/// first record's reason for rejection, folding the records in order.
#[verifier::loop_isolation(false)]
pub fn plan_import(layout: Vec<RackRecord>, sitemap: Vec<SitemapRecord>) -> (out: Result<
    ImportPlan,
    ImportError,
>)
    ensures
        match out {
            Ok(plan) => run_layout(Seq::empty(), Seq::empty(), layout@) == Ok::<
                _,
                ImportError,
            >((plan.cans@, plan.racks@)) && run_sitemap(plan.racks@, Seq::empty(), sitemap@)
                == Ok::<_, ImportError>(plan.miners@),
            Err(e) => match run_layout(Seq::empty(), Seq::empty(), layout@) {
                Ok((cs, rs)) => run_sitemap(rs, Seq::empty(), sitemap@) == Err::<
                    Seq<PlanMiner>,
                    _,
                >(e),
                Err(e2) => e == e2,
            },
        },
{
    let ghost layout0 = layout@;
    let mut layout = layout;
    let mut cans: Vec<PlanCan> = Vec::new();
    let mut racks: Vec<PlanRack> = Vec::new();
    proof {
        assert(layout0.skip(0) =~= layout0);
    }
    while layout.len() > 0
        invariant
            run_layout(Seq::empty(), Seq::empty(), layout0) == run_layout(
                cans@,
                racks@,
                layout@,
            ),
        decreases layout@.len(),
    {
        let ghost rem = layout@;
        let ghost cans0 = cans@;
        let ghost racks0 = racks@;
        let rec = layout.remove(0);
        proof {
            assert(rec == rem[0]);
            assert(layout@ =~= rem.skip(1));
        }
        match rec.kind {
            RecordKind::Group => {
                cans.push(PlanCan { name: rec.name, num: rec.row });
                proof {
                    assert(layout_step(cans0, racks0, rem[0]) == Ok::<_, ImportError>(
                        (cans@, racks@),
                    ));
                }
            },
            RecordKind::Rack => {
                match rec.group_name {
                    None => {
                        return Err(ImportError::MissingGroupName);
                    },
                    Some(g) => {
                        if !find_can_name(&cans, &g) {
                            return Err(ImportError::UnknownGroup);
                        }
                        match (rec.rack_width, rec.rack_height) {
                            (Some(w), Some(h)) => {
                                racks.push(
                                    PlanRack {
                                        can_name: g,
                                        name: rec.name,
                                        index: rec.column,
                                        width: w,
                                        height: h,
                                    },
                                );
                                proof {
                                    assert(layout_step(cans0, racks0, rem[0]) == Ok::<
                                        _,
                                        ImportError,
                                    >((cans@, racks@)));
                                }
                            },
                            _ => {
                                return Err(ImportError::MissingDimensions);
                            },
                        }
                    },
                }
            },
        }
    }
    proof {
        assert(layout@.len() == 0);
        assert(run_layout(cans@, racks@, layout@) == Ok::<_, ImportError>((cans@, racks@)));
    }
    let ghost sitemap0 = sitemap@;
    let mut sitemap = sitemap;
    let mut miners: Vec<PlanMiner> = Vec::new();
    proof {
        assert(sitemap0.skip(0) =~= sitemap0);
    }
    while sitemap.len() > 0
        invariant
            run_layout(Seq::empty(), Seq::empty(), layout0) == Ok::<_, ImportError>(
                (cans@, racks@),
            ),
            run_sitemap(racks@, Seq::empty(), sitemap0) == run_sitemap(racks@, miners@, sitemap@),
        decreases sitemap@.len(),
    {
        let ghost rem = sitemap@;
        let ghost miners0 = miners@;
        let rec = sitemap.remove(0);
        proof {
            assert(rec == rem[0]);
            assert(sitemap@ =~= rem.skip(1));
        }
        if !find_rack_name(&racks, &rec.rack) {
            return Err(ImportError::UnknownRack);
        }
        miners.push(
            PlanMiner { ip: rec.miner_ip, rack_name: rec.rack, row: rec.row, index: rec.index },
        );
        proof {
            assert(sitemap_step(racks@, miners0, rem[0]) == Ok::<_, ImportError>(miners@));
        }
    }
    proof {
        assert(sitemap@.len() == 0);
        assert(run_sitemap(racks@, miners@, sitemap@) == Ok::<_, ImportError>(miners@));
    }
    Ok(ImportPlan { cans, racks, miners })
}

} // verus!
