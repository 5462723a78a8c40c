//! What a job emits per device: the observation snapshot and its event
//! envelope, and the performance profile a device can be set to.

use vstd::prelude::*;

use crate::pools::PoolEndpoint;

verus! {

/// A performance profile. Power is carried in milliwatts and hashrate in
/// thousandths of the device's terahash unit, so the values stay exact.
pub enum Profile {
    Default,
    LowPower,
    Preset { name: Vec<u8>, power_milli: u64, ths_milli: u64 },
    Manual {
        volt: u32,
        freq: u32,
        min_freq: u32,
        max_freq: u32,
        min_volt: u32,
        max_volt: u32,
        def_freq: u32,
        def_volt: u32,
    },
}

/// One device's observation, produced fresh by every scan and only emitted.
/// Hashrate and nameplate are in the device's reported unit rounded to an
/// integer; temperature is in tenths of a degree.
pub struct Miner {
    pub ip: Vec<u8>,
    pub make: Option<Vec<u8>>,
    pub model: Option<Vec<u8>>,
    pub mac: Option<Vec<u8>>,
    pub hashrate: Option<u64>,
    pub temp: Option<i64>,
    pub fan: Option<Vec<u32>>,
    pub uptime: Option<u64>,
    pub errors: Vec<Vec<u8>>,
    pub pools: Vec<PoolEndpoint>,
    pub power: Option<u64>,
    pub sleep: bool,
    pub locate: bool,
    pub nameplate: Option<u64>,
}

/// One per-device result event: the observation with its grid position.
pub struct MinerEvent {
    pub rack: i64,
    pub row: i64,
    pub index: i64,
    pub miner: Miner,
}

} // verus!
