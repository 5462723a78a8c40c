//! The per-device workflow context and the scan workflow's decisions.
//!
//! Each task owns one of these for its device. The network reads themselves
//! are the device protocol's; this module decides what each read's outcome
//! means: unknown placeholders for failed accessors, when the health of a
//! device warrants an error-code query, how often to retry that query, and
//! the pool placeholder rules the consumers expect.

use vstd::prelude::*;

use crate::pools::PoolEndpoint;
use crate::models::{Miner as Observation, MinerEvent};

verus! {

/// The error marker recorded when every credential fails:
/// `Failed to auth miner`.
pub open spec fn auth_failure_marker() -> Seq<u8> {
    seq![
        70u8, 97u8, 105u8, 108u8, 101u8, 100u8, 32u8, 116u8, 111u8, 32u8, 97u8, 117u8, 116u8,
        104u8, 32u8, 109u8, 105u8, 110u8, 101u8, 114u8,
    ]
}

/// The placeholder for an accessor that failed: `Unknown`.
pub open spec fn unknown_marker() -> Seq<u8> {
    seq![85u8, 110u8, 107u8, 110u8, 111u8, 119u8, 110u8]
}

/// The synthetic error recorded when the primary pool's URL is empty:
/// `No pool set`.
pub open spec fn no_pool_marker() -> Seq<u8> {
    seq![78u8, 111u8, 32u8, 112u8, 111u8, 111u8, 108u8, 32u8, 115u8, 101u8, 116u8]
}

fn auth_failure_marker_vec() -> (v: Vec<u8>)
    ensures
        v@ == auth_failure_marker(),
{
    let mut v: Vec<u8> = Vec::new();
    v.push(70);
    v.push(97);
    v.push(105);
    v.push(108);
    v.push(101);
    v.push(100);
    v.push(32);
    v.push(116);
    v.push(111);
    v.push(32);
    v.push(97);
    v.push(117);
    v.push(116);
    v.push(104);
    v.push(32);
    v.push(109);
    v.push(105);
    v.push(110);
    v.push(101);
    v.push(114);
    assert(v@ =~= auth_failure_marker());
    v
}

fn unknown_marker_vec() -> (v: Vec<u8>)
    ensures
        v@ == unknown_marker(),
{
    let mut v: Vec<u8> = Vec::new();
    v.push(85);
    v.push(110);
    v.push(107);
    v.push(110);
    v.push(111);
    v.push(119);
    v.push(110);
    assert(v@ =~= unknown_marker());
    v
}

fn no_pool_marker_vec() -> (v: Vec<u8>)
    ensures
        v@ == no_pool_marker(),
{
    let mut v: Vec<u8> = Vec::new();
    v.push(78);
    v.push(111);
    v.push(32);
    v.push(112);
    v.push(111);
    v.push(111);
    v.push(108);
    v.push(32);
    v.push(115);
    v.push(101);
    v.push(116);
    assert(v@ =~= no_pool_marker());
    v
}

/// Whether a device's health warrants querying its error codes: it reports
/// no hashrate at all, or its hashrate is below the threshold fraction (in
/// percent) of its nameplate rating. With no nameplate known, only a zero
/// hashrate triggers the query.
pub fn needs_error_query(hashrate: u64, nameplate: Option<u64>, threshold_pct: u64) -> (q: bool)
    ensures
        q == (hashrate == 0 || match nameplate {
            Some(np) => 100 * hashrate < threshold_pct * np,
            None => false,
        }),
{
    if hashrate == 0 {
        return true;
    }
    match nameplate {
        Some(np) => {
            let lhs: u128 = 100u128 * (hashrate as u128);
            let t = threshold_pct as u128;
            let n = np as u128;
            proof {
                assert(t * n <= u128::MAX) by (nonlinear_arith)
                    requires
                        t <= u64::MAX,
                        n <= u64::MAX,
                ;
            }
            let rhs: u128 = t * n;
            lhs < rhs
        },
        None => false,
    }
}

/// A bounded-retry rule: how many attempts an unreliable read is allowed.
pub struct RetryPolicy {
    pub max_attempts: u64,
}

impl RetryPolicy {
    /// The policy for error-code reads: up to three attempts.
    pub fn error_reads() -> (p: RetryPolicy)
        ensures
            p.max_attempts == 3,
    {
        RetryPolicy { max_attempts: 3 }
    }

    /// Whether to try again after `attempts_made` attempts, the last of
    /// which succeeded or not: only while no attempt has succeeded and
    /// attempts remain.
    pub fn should_retry(&self, attempts_made: u64, succeeded: bool) -> (r: bool)
        ensures
            r == (!succeeded && attempts_made < self.max_attempts),
    {
        !succeeded && attempts_made < self.max_attempts
    }
}

/// The outcomes of one scan's accessor reads, each independently fallible:
/// `None` where the read failed. `errors` holds the error-code query's
/// result when one was made and succeeded within its retry budget.
pub struct ScanReads {
    pub model: Option<Vec<u8>>,
    pub hashrate: Option<u64>,
    pub temp: Option<i64>,
    pub fan: Option<Vec<u32>>,
    pub mac: Option<Vec<u8>>,
    pub locate: Option<bool>,
    pub pools: Option<Vec<PoolEndpoint>>,
    pub power: Option<u64>,
    pub nameplate: Option<u64>,
    pub sleep: Option<bool>,
    pub errors: Option<Vec<Vec<u8>>>,
}

/// One task's device context: the address and grid position it was resolved
/// to, and the observation being assembled. Units as in the observation.
pub struct Miner {
    pub ip: Vec<u8>,
    pub can: i64,
    pub rack: i64,
    pub row: i64,
    pub index: i64,
    pub make: Option<Vec<u8>>,
    pub model: Option<Vec<u8>>,
    pub mac: Option<Vec<u8>>,
    pub hashrate: Option<u64>,
    pub temp: Option<i64>,
    pub fan: Option<Vec<u32>>,
    pub uptime: Option<u64>,
    pub errors: Vec<Vec<u8>>,
    pub pools: Vec<PoolEndpoint>,
    pub nameplate: Option<u64>,
    pub power: Option<u64>,
    pub sleep: bool,
    pub locate: bool,
}

impl Miner {
    /// A fresh context for one device: nothing observed yet.
    pub fn default(ip: Vec<u8>, rack: i64, row: i64, index: i64, can: i64) -> (m: Miner)
        ensures
            m.ip == ip,
            m.can == can,
            m.rack == rack,
            m.row == row,
            m.index == index,
            m.make is None,
            m.model is None,
            m.mac is None,
            m.hashrate is None,
            m.temp is None,
            m.fan is None,
            m.uptime is None,
            m.errors@.len() == 0,
            m.pools@.len() == 0,
            m.nameplate is None,
            m.power is None,
            !m.sleep,
            !m.locate,
    {
        Miner {
            ip,
            can,
            rack,
            row,
            index,
            make: None,
            model: None,
            mac: None,
            hashrate: None,
            temp: None,
            fan: None,
            uptime: None,
            errors: Vec::new(),
            pools: Vec::new(),
            nameplate: None,
            power: None,
            sleep: false,
            locate: false,
        }
    }

    /// Record the vendor the protocol identified.
    pub fn set_make(&mut self, make: Vec<u8>)
        ensures
            *final(self) == (Miner { make: Some(make), ..*old(self) }),
    {
        self.make = Some(make);
    }

    /// Record that every credential failed: the observation carries the
    /// auth-failure marker and the workflow goes on.
    pub fn record_auth_failure(&mut self)
        ensures
            *final(self) == (Miner { errors: final(self).errors, ..*old(self) }),
            final(self).errors@.len() == old(self).errors@.len() + 1,
            final(self).errors@.subrange(0, old(self).errors@.len() as int) == old(self).errors@,
            final(self).errors@.last()@ == auth_failure_marker(),
    {
        let marker = auth_failure_marker_vec();
        let ghost before = self.errors@;
        self.errors.push(marker);
        proof {
            assert(self.errors@.subrange(0, before.len() as int) =~= before);
        }
    }

    /// Fold one scan's reads into the observation. A failed model or MAC
    /// read becomes the `Unknown` placeholder; a failed hashrate read
    /// counts as zero; a failed locate read as off. A successful error-code
    /// query replaces the recorded errors. When pools were read and the
    /// primary pool's URL is empty, the `No pool set` error is appended;
    /// when no pools are configured at all, exactly three empty placeholder
    /// entries stand in, as the consumers expect.
    pub fn apply_reads(&mut self, reads: ScanReads)
        ensures
            final(self).ip == old(self).ip,
            final(self).can == old(self).can,
            final(self).rack == old(self).rack,
            final(self).row == old(self).row,
            final(self).index == old(self).index,
            final(self).make == old(self).make,
            final(self).uptime == old(self).uptime,
            match reads.model {
                Some(m) => final(self).model == Some(m),
                None => match final(self).model {
                    Some(u) => u@ == unknown_marker(),
                    None => false,
                },
            },
            match reads.hashrate {
                Some(h) => final(self).hashrate == Some(h),
                None => final(self).hashrate == Some(0u64),
            },
            final(self).temp == reads.temp,
            final(self).fan == reads.fan,
            match reads.mac {
                Some(m) => final(self).mac == Some(m),
                None => match final(self).mac {
                    Some(u) => u@ == unknown_marker(),
                    None => false,
                },
            },
            final(self).locate == match reads.locate {
                Some(b) => b,
                None => false,
            },
            final(self).power == reads.power,
            final(self).nameplate == reads.nameplate,
            final(self).sleep == match reads.sleep {
                Some(b) => b,
                None => old(self).sleep,
            },
            ({
                let base = match reads.errors {
                    Some(e) => e@,
                    None => old(self).errors@,
                };
                let ps = match reads.pools {
                    Some(ps) => ps@,
                    None => Seq::<PoolEndpoint>::empty(),
                };
                if ps.len() > 0 && ps[0].url@.len() == 0 {
                    &&& final(self).pools@ == ps
                    &&& final(self).errors@.len() == base.len() + 1
                    &&& final(self).errors@.subrange(0, base.len() as int) == base
                    &&& final(self).errors@.last()@ == no_pool_marker()
                } else if ps.len() == 0 {
                    &&& final(self).pools@.len() == 3
                    &&& forall|i: int|
                        0 <= i < 3 ==> (#[trigger] final(self).pools@[i]).url@.len() == 0
                            && final(self).pools@[i].worker@.len() == 0
                            && final(self).pools@[i].password is None
                    &&& final(self).errors@ == base
                } else {
                    &&& final(self).pools@ == ps
                    &&& final(self).errors@ == base
                }
            }),
    {
        match reads.model {
            Some(m) => self.model = Some(m),
            None => self.model = Some(unknown_marker_vec()),
        }
        match reads.hashrate {
            Some(h) => self.hashrate = Some(h),
            None => self.hashrate = Some(0),
        }
        self.temp = reads.temp;
        self.fan = reads.fan;
        match reads.mac {
            Some(m) => self.mac = Some(m),
            None => self.mac = Some(unknown_marker_vec()),
        }
        match reads.locate {
            Some(b) => self.locate = b,
            None => self.locate = false,
        }
        self.power = reads.power;
        self.nameplate = reads.nameplate;
        match reads.sleep {
            Some(b) => self.sleep = b,
            None => (),
        }
        match reads.errors {
            Some(e) => self.errors = e,
            None => (),
        }
        let ghost base = self.errors@;
        match reads.pools {
            Some(ps) => {
                if ps.len() > 0 && ps[0].url.len() == 0 {
                    self.pools = ps;
                    let marker = no_pool_marker_vec();
                    self.errors.push(marker);
                    proof {
                        assert(self.errors@.subrange(0, base.len() as int) =~= base);
                    }
                } else if ps.len() == 0 {
                    self.pools = placeholder_pools();
                } else {
                    self.pools = ps;
                }
            },
            None => {
                self.pools = placeholder_pools();
            },
        }
    }

    /// The observation to emit, enveloped with the device's grid position.
    pub fn into_event(self) -> (ev: MinerEvent)
        ensures
            ev.rack == self.rack,
            ev.row == self.row,
            ev.index == self.index,
            ev.miner.ip == self.ip,
            ev.miner.make == self.make,
            ev.miner.model == self.model,
            ev.miner.mac == self.mac,
            ev.miner.hashrate == self.hashrate,
            ev.miner.temp == self.temp,
            ev.miner.fan == self.fan,
            ev.miner.uptime == self.uptime,
            ev.miner.errors == self.errors,
            ev.miner.pools == self.pools,
            ev.miner.power == self.power,
            ev.miner.sleep == self.sleep,
            ev.miner.locate == self.locate,
            ev.miner.nameplate == self.nameplate,
    {
        MinerEvent {
            rack: self.rack,
            row: self.row,
            index: self.index,
            miner: Observation {
                ip: self.ip,
                make: self.make,
                model: self.model,
                mac: self.mac,
                hashrate: self.hashrate,
                temp: self.temp,
                fan: self.fan,
                uptime: self.uptime,
                errors: self.errors,
                pools: self.pools,
                power: self.power,
                sleep: self.sleep,
                locate: self.locate,
                nameplate: self.nameplate,
            },
        }
    }
}

/// The three empty placeholder pool entries consumers expect when a device
/// has no pools configured.
pub fn placeholder_pools() -> (ps: Vec<PoolEndpoint>)
    ensures
        ps@.len() == 3,
        forall|i: int|
            0 <= i < 3 ==> (#[trigger] ps@[i]).url@.len() == 0 && ps@[i].worker@.len() == 0
                && ps@[i].password is None,
{
    let mut ps: Vec<PoolEndpoint> = Vec::new();
    ps.push(PoolEndpoint::placeholder());
    ps.push(PoolEndpoint::placeholder());
    ps.push(PoolEndpoint::placeholder());
    ps
}

} // verus!
