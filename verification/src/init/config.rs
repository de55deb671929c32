//! A service's configuration, as `init.cfg` lists it.
use vstd::prelude::*;

verus! {

/// When a terminated service is restarted.
#[derive(Clone, Copy, PartialEq, Eq, Structural, Debug)]
pub enum Restart {
    Never,
    OnFailure,
    Always,
}

pub struct ServiceCfg {
    pub name: String,
    pub elf: String,
    pub depends: Vec<String>,
    pub devices: Vec<String>,
    pub restart: Restart,
    pub max_restarts: u32,
    pub window_ms: u32,
    pub backoff_ms: u32,
    pub budget_bits: u8,
    pub critical: bool,
}

} // verus!
