//! The application manager's decisions: the bump pool its images live in,
//! the file names it sends, the capabilities an application gets, and what
//! an application's messages do to its state and restart budget.
use vstd::prelude::*;
use crate::init::config::{Restart, ServiceCfg};
use crate::init::policy::{backoff, backoff_spec, prune_restart_times, recent};
use crate::init::spawn::ChildCap;
use crate::wire::{byte_of, byte_or_zero, le_word};

verus! {

broadcast use vstd::seq_lib::group_seq_properties;

/// Bytes in the allocation pool.
pub const POOL_BYTES: usize = 512 * 1024;

/// Applications the manager runs at most.
pub const MAX_APPS: usize = 4;

/// Largest application image.
pub const ELF_MAX: u64 = 256 * 1024;

/// The first per-application budget slot; application `k` has `+ 8k`.
pub const APP_SLOT_BASE: u64 = 70;

/// `x` rounded up to a multiple of `a`.
pub open spec fn round_up(x: int, a: int) -> int {
    ((x + a - 1) / a) * a
}

/// A bump allocation of `size` bytes aligned to `align` (at least 8) in a
/// pool of `pool` bytes with `used` taken: the offset it gets and the new
/// watermark, or `None` when the pool is exhausted.
pub fn bump(pool: usize, used: usize, size: usize, align: usize) -> (r: Option<(usize, usize)>)
    requires
        used <= pool,
        align > 0,
    ensures
        ({
            let a = if align < 8 { 8 } else { align as int };
            let offset = round_up(used as int, a);
            if offset + size > pool {
                r is None
            } else {
                r == Some((offset as usize, (offset + size) as usize))
            }
        }),
{
    let a: u128 = if align < 8 { 8 } else { align as u128 };
    let q: u128 = (used as u128 + a - 1) / a;
    proof {
        let x: int = used + a - 1;
        let aa: int = a as int;
        assert(q * aa <= x) by (nonlinear_arith)
            requires
                q == x / aa,
                aa > 0,
                x >= 0,
        ;
    }
    let offset: u128 = q * a;
    if offset > pool as u128 || size as u128 > pool as u128 - offset {
        return None;
    }
    Some((offset as usize, offset as usize + size))
}

/// Successive allocations never overlap: the second starts at or after the
/// end of the first, and both lie in the pool.
pub proof fn lemma_bumps_disjoint(pool: usize, used: usize, size1: usize, align1: usize, size2: usize, align2: usize, o1: usize, u1: usize, o2: usize, u2: usize)
    requires
        used <= pool,
        align1 > 0,
        align2 > 0,
        ({
            let a = if align1 < 8 { 8 } else { align1 as int };
            let offset = round_up(used as int, a);
            offset + size1 <= pool && o1 == offset && u1 == offset + size1
        }),
        ({
            let a = if align2 < 8 { 8 } else { align2 as int };
            let offset = round_up(u1 as int, a);
            offset + size2 <= pool && o2 == offset && u2 == offset + size2
        }),
    ensures
        used <= o1,
        o1 + size1 == u1 <= o2,
        o2 + size2 == u2 <= pool,
{
    lemma_round_up_above(used as int, if align1 < 8 { 8 } else { align1 as int });
    lemma_round_up_above(u1 as int, if align2 < 8 { 8 } else { align2 as int });
}

proof fn lemma_round_up_above(x: int, a: int)
    requires
        x >= 0,
        a > 0,
    ensures
        round_up(x, a) >= x,
{
    let q = (x + a - 1) / a;
    assert(q * a >= x) by (nonlinear_arith)
        requires
            q == (x + a - 1) / a,
            a > 0,
            x >= 0,
    ;
}

/// The OPEN words for a name of 1 to 16 bytes: its length, then two words
/// of its bytes, least significant first.
pub fn fs_name_words(name: &[u8]) -> (words: Option<Vec<u64>>)
    ensures
        (0 < name@.len() <= 16) <==> words is Some,
        words matches Some(w) ==> {
            &&& w@.len() == 3
            &&& w@[0] == name@.len()
            &&& forall|j: int, m: int| 1 <= j < 3 && 0 <= m < 8 ==>
                #[trigger] byte_of(w@[j], m) == byte_or_zero(name@, 8 * (j - 1) + m) as u64
        },
{
    if name.len() == 0 || name.len() > 16 {
        return None;
    }
    let mut words: Vec<u64> = Vec::new();
    words.push(name.len() as u64);
    words.push(le_word(name, 0));
    words.push(le_word(name, 8));
    proof {
        assert forall|j: int, m: int| 1 <= j < 3 && 0 <= m < 8 implies
            #[trigger] byte_of(words@[j], m) == byte_or_zero(name@, 8 * (j - 1) + m) as u64 by {
            if j == 1 {
                assert(byte_of(words@[1], m) == byte_or_zero(name@, 0 + m) as u64);
            } else {
                assert(byte_of(words@[2], m) == byte_or_zero(name@, 8 + m) as u64);
            }
        }
    }
    Some(words)
}

/// An application's state.
#[derive(Clone, Copy, PartialEq, Eq, Structural, Debug)]
pub enum AppState {
    Starting,
    Running,
    Terminated,
    Failed,
}

/// One application from the manifest.
pub struct App {
    pub cfg: ServiceCfg,
    pub state: AppState,
    pub budget_slot: u64,
    pub restarts: u32,
    pub restart_times: Vec<u64>,
}

/// The supervision badge of application `index`.
pub fn app_badge(index: usize) -> (badge: u64)
    requires
        index < u64::MAX,
    ensures
        badge == index + 1,
{
    index as u64 + 1
}

/// The application a badge names, among `count`.
pub fn app_for_badge(count: usize, badge: u64) -> (index: Option<usize>)
    ensures
        index == (if 1 <= badge && badge - 1 < count { Some((badge - 1) as usize) } else { None }),
{
    if badge >= 1 && badge - 1 < count as u64 {
        Some((badge - 1) as usize)
    } else {
        None
    }
}

/// A new application at `index`, starting.
pub fn new_app(cfg: ServiceCfg, index: usize) -> (app: App)
    requires
        index < MAX_APPS,
    ensures
        app.cfg == cfg,
        app.state == AppState::Starting,
        app.budget_slot == APP_SLOT_BASE + 8 * index,
        app.restarts == 0,
        app.restart_times@ == Seq::<u64>::empty(),
{
    App { cfg, state: AppState::Starting, budget_slot: APP_SLOT_BASE + index as u64 * 8, restarts: 0, restart_times: Vec::new() }
}

/// The capabilities application `index` gets: the manager's endpoint
/// badged for it, the console, its budget and the ASID pool.
pub fn app_caps(index: usize, self_ep: u64, console_ep: u64, budget_slot: u64, asid_pool: u64) -> (caps: Vec<ChildCap>)
    requires
        index < MAX_APPS,
    ensures
        caps@ == seq![
            ChildCap { slot: 140, source: self_ep, badge: (index + 1) as u64 },
            ChildCap { slot: 51, source: console_ep, badge: 0 },
            ChildCap { slot: 32, source: budget_slot, badge: 0 },
            ChildCap { slot: 6, source: asid_pool, badge: 0 },
        ],
{
    let mut caps: Vec<ChildCap> = Vec::new();
    caps.push(ChildCap { slot: 140, source: self_ep, badge: app_badge(index) });
    caps.push(ChildCap { slot: 51, source: console_ep, badge: 0 });
    caps.push(ChildCap { slot: 32, source: budget_slot, badge: 0 });
    caps.push(ChildCap { slot: 6, source: asid_pool, badge: 0 });
    assert(caps@ =~= seq![
        ChildCap { slot: 140, source: self_ep, badge: (index + 1) as u64 },
        ChildCap { slot: 51, source: console_ep, badge: 0 },
        ChildCap { slot: 32, source: budget_slot, badge: 0 },
        ChildCap { slot: 6, source: asid_pool, badge: 0 },
    ]);
    caps
}

/// An image the manager loads: at most `ELF_MAX` bytes.
pub fn image_fits(size: u64) -> (ok: bool)
    ensures
        ok == (size <= ELF_MAX),
{
    size <= ELF_MAX
}

/// What happens to an application that terminated.
#[derive(PartialEq, Eq, Structural, Debug)]
pub enum AppOutcome {
    /// No restart.
    Stopped,
    /// Sleep `backoff_ms`, reload the image and spawn it again.
    Reload { backoff_ms: u32 },
}

impl App {
    /// The application announced READY.
    pub fn ready(&mut self)
        ensures
            final(self).state == AppState::Running,
            final(self).cfg == old(self).cfg,
            final(self).budget_slot == old(self).budget_slot,
            final(self).restarts == old(self).restarts,
            final(self).restart_times@ == old(self).restart_times@,
    {
        self.state = AppState::Running;
    }

    /// The application exited (cleanly with code 0) or faulted at `now`:
    /// apply its restart policy. A run that did not exit cleanly failed.
    /// Without a restart the application ends `Failed` after a failed run
    /// and `Terminated` after a clean one; with one, the restart is counted
    /// and stamped and the state is left for the reload to settle.
    pub fn terminated(&mut self, now: u64, graceful: bool) -> (outcome: AppOutcome)
        requires
            old(self).restarts < u32::MAX,
        ensures
            ({
                let failed_run = !graceful;
                let cfg = old(self).cfg;
                let times = old(self).restart_times@.filter(recent(now, cfg.window_ms));
                let allowed = match cfg.restart {
                    Restart::Never => false,
                    Restart::OnFailure => failed_run,
                    Restart::Always => true,
                };
                &&& final(self).cfg == old(self).cfg
                &&& final(self).budget_slot == old(self).budget_slot
                &&& if !allowed || (times.len() as u32) >= cfg.max_restarts {
                    &&& outcome == AppOutcome::Stopped
                    &&& final(self).state == (if failed_run { AppState::Failed } else { AppState::Terminated })
                    &&& final(self).restart_times@ == times
                    &&& final(self).restarts == old(self).restarts
                } else {
                    &&& outcome == AppOutcome::Reload { backoff_ms: backoff_spec(cfg.backoff_ms, old(self).restarts) }
                    &&& final(self).state == old(self).state
                    &&& final(self).restart_times@ == times.push(now)
                    &&& final(self).restarts == old(self).restarts + 1
                }
            }),
    {
        prune_restart_times(&mut self.restart_times, now, self.cfg.window_ms);
        let failed_run = !graceful;
        let allowed = match self.cfg.restart {
            Restart::Never => false,
            Restart::OnFailure => failed_run,
            Restart::Always => true,
        };
        if !allowed || (self.restart_times.len() as u32) >= self.cfg.max_restarts {
            self.state = if failed_run { AppState::Failed } else { AppState::Terminated };
            return AppOutcome::Stopped;
        }
        let delay = backoff(self.cfg.backoff_ms, self.restarts);
        self.restarts = self.restarts + 1;
        self.restart_times.push(now);
        AppOutcome::Reload { backoff_ms: delay }
    }

    /// The reload and spawn after a restart: starting when it worked,
    /// failed for good when the image could not be read or spawned.
    pub fn respawned(&mut self, ok: bool)
        ensures
            final(self).state == (if ok { AppState::Starting } else { AppState::Failed }),
            final(self).cfg == old(self).cfg,
            final(self).budget_slot == old(self).budget_slot,
            final(self).restarts == old(self).restarts,
            final(self).restart_times@ == old(self).restart_times@,
    {
        self.state = if ok { AppState::Starting } else { AppState::Failed };
    }
}

} // verus!
