//! The connectivity watchdog: at long intervals it probes a target address
//! through the uplink interface, and a probe without any reply restarts the
//! device. Until both the target and the interface are known it does nothing.

use crate::config::Ipv4;
use vstd::prelude::*;

verus! {

/// Seconds between two ticks of the watchdog.
pub const WATCHDOG_TICK_SECS: u64 = 300;

/// Number of echo requests per probe.
pub const PROBE_COUNT: u32 = 2;

/// Milliseconds between two echo requests of a probe.
pub const PROBE_INTERVAL_MS: u64 = 500;

/// Milliseconds that a probe waits for each reply.
pub const PROBE_TIMEOUT_MS: u64 = 200;

/// Payload bytes per echo request.
pub const PROBE_DATA_SIZE: u32 = 64;

/// Type-of-service value of the echo requests.
pub const PROBE_TOS: u8 = 0;

/// Milliseconds between a failed probe and the restart.
pub const RESTART_GRACE_MS: u64 = 2000;

/// A reachability probe to carry out.
#[derive(Clone, Copy, Debug, PartialEq, Eq, Structural)]
pub struct ProbeRequest {
    pub target: Ipv4,
    pub if_index: u32,
    pub count: u32,
    pub interval_ms: u64,
    pub timeout_ms: u64,
    pub data_size: u32,
    pub tos: u8,
}

/// What the watchdog does at a tick.
#[derive(Clone, Copy, Debug, PartialEq, Eq, Structural)]
pub enum WatchdogPlan {
    /// No target is known yet: nothing to do.
    NoTarget,
    /// A target is known but the uplink interface is not: nothing to do.
    NoInterface,
    /// Carry out this probe and report how it went.
    Probe(ProbeRequest),
}

/// How a probe went.
#[derive(Clone, Copy, Debug, PartialEq, Eq, Structural)]
pub enum ProbeOutcome {
    /// The probe ran; this many replies came back.
    Replies(u32),
    /// The probe could not be carried out.
    Failed,
}

/// What follows from a tick of the watchdog.
#[derive(Clone, Copy, Debug, PartialEq, Eq, Structural)]
pub enum Verdict {
    /// Go on; the next tick is due after the usual interval.
    Healthy,
    /// The uplink is down: wait this many milliseconds, then restart. The
    /// watchdog is done.
    Restart(u64),
    /// The watchdog ends with an error.
    Fault,
}

/// The probe towards `target` through interface `if_index`.
pub open spec fn probe_of(target: Ipv4, if_index: u32) -> ProbeRequest {
    ProbeRequest {
        target,
        if_index,
        count: PROBE_COUNT,
        interval_ms: PROBE_INTERVAL_MS,
        timeout_ms: PROBE_TIMEOUT_MS,
        data_size: PROBE_DATA_SIZE,
        tos: PROBE_TOS,
    }
}

/// What the watchdog does at a tick that finds this target and interface.
pub open spec fn spec_plan(ping_ip: Option<Ipv4>, if_index: u32) -> WatchdogPlan {
    match ping_ip {
        None => WatchdogPlan::NoTarget,
        Some(target) => if if_index > 0 {
            WatchdogPlan::Probe(probe_of(target, if_index))
        } else {
            WatchdogPlan::NoInterface
        },
    }
}

/// What follows from a probe that went this way.
pub open spec fn spec_judge(outcome: ProbeOutcome) -> Verdict {
    match outcome {
        ProbeOutcome::Replies(n) => if n == 0 {
            Verdict::Restart(RESTART_GRACE_MS)
        } else {
            Verdict::Healthy
        },
        ProbeOutcome::Failed => Verdict::Fault,
    }
}

/// Decides what the watchdog does at a tick: it probes only if both a target
/// address and the index of the uplink interface are known.
#[verifier::when_used_as_spec(spec_plan)]
pub fn plan(ping_ip: Option<Ipv4>, if_index: u32) -> (p: WatchdogPlan)
    ensures
        p == spec_plan(ping_ip, if_index),
{
    match ping_ip {
        None => WatchdogPlan::NoTarget,
        Some(target) => {
            if if_index > 0 {
                WatchdogPlan::Probe(
                    ProbeRequest {
                        target,
                        if_index,
                        count: PROBE_COUNT,
                        interval_ms: PROBE_INTERVAL_MS,
                        timeout_ms: PROBE_TIMEOUT_MS,
                        data_size: PROBE_DATA_SIZE,
                        tos: PROBE_TOS,
                    },
                )
            } else {
                WatchdogPlan::NoInterface
            }
        },
    }
}

/// Judges a probe: no reply at all means that the uplink is down.
#[verifier::when_used_as_spec(spec_judge)]
pub fn judge(outcome: ProbeOutcome) -> (v: Verdict)
    ensures
        v == spec_judge(outcome),
{
    match outcome {
        ProbeOutcome::Replies(n) => {
            if n == 0 {
                Verdict::Restart(RESTART_GRACE_MS)
            } else {
                Verdict::Healthy
            }
        },
        ProbeOutcome::Failed => Verdict::Fault,
    }
}

/// What the watchdog finds at one tick: the target and interface in the
/// state store, and how a probe goes if one is made.
pub struct Watch {
    pub ping_ip: Option<Ipv4>,
    pub if_index: u32,
    pub outcome: ProbeOutcome,
}

impl Watch {
    /// The tick leads to a probe.
    pub open spec fn probes(self) -> bool {
        self.ping_ip is Some && self.if_index > 0
    }

    /// What follows from the tick.
    pub open spec fn verdict(self) -> Verdict {
        match spec_plan(self.ping_ip, self.if_index) {
            WatchdogPlan::Probe(_) => spec_judge(self.outcome),
            _ => Verdict::Healthy,
        }
    }
}

/// One tick of the watchdog, given how the probe goes if one is made.
pub fn pinger(ping_ip: Option<Ipv4>, if_index: u32, outcome: ProbeOutcome) -> (v: Verdict)
    ensures
        v == (Watch { ping_ip, if_index, outcome }).verdict(),
{
    match plan(ping_ip, if_index) {
        WatchdogPlan::Probe(_) => judge(outcome),
        _ => Verdict::Healthy,
    }
}

/// The verdicts of the watchdog over a sequence of ticks, up to and including
/// the first one that ends it.
pub open spec fn verdicts(ticks: Seq<Watch>) -> Seq<Verdict>
    decreases ticks.len(),
{
    if ticks.len() == 0 {
        Seq::empty()
    } else if ticks.first().verdict() is Healthy {
        seq![Verdict::Healthy] + verdicts(ticks.drop_first())
    } else {
        seq![ticks.first().verdict()]
    }
}

/// The number of restarts among `vs`.
pub open spec fn restarts(vs: Seq<Verdict>) -> nat
    decreases vs.len(),
{
    if vs.len() == 0 {
        0
    } else {
        restarts(vs.drop_last()) + if vs.last() is Restart {
            1nat
        } else {
            0nat
        }
    }
}

/// As long as the target or the interface is missing, the watchdog never
/// restarts the device, however the probes would go.
pub proof fn law_inert_without_target(ticks: Seq<Watch>)
    requires
        forall|i: int| 0 <= i < ticks.len() ==> !(#[trigger] ticks[i]).probes(),
    ensures
        verdicts(ticks) == Seq::new(ticks.len(), |i: int| Verdict::Healthy),
        restarts(verdicts(ticks)) == 0,
    decreases ticks.len(),
{
    let all_healthy = Seq::new(ticks.len(), |i: int| Verdict::Healthy);
    if ticks.len() > 0 {
        let rest = ticks.drop_first();
        assert(!ticks[0].probes());
        assert forall|i: int| 0 <= i < rest.len() implies !(#[trigger] rest[i]).probes() by {
            assert(!ticks[i + 1].probes());
        }
        law_inert_without_target(rest);
        assert(verdicts(ticks) =~= all_healthy);
    }
    lemma_healthy_no_restart(ticks.len());
}

/// A run of healthy verdicts holds no restart.
pub proof fn lemma_healthy_no_restart(n: nat)
    ensures
        restarts(Seq::new(n, |i: int| Verdict::Healthy)) == 0,
    decreases n,
{
    if n > 0 {
        lemma_healthy_no_restart((n - 1) as nat);
        assert(Seq::new(n, |i: int| Verdict::Healthy).drop_last() =~= Seq::new(
            (n - 1) as nat,
            |i: int| Verdict::Healthy,
        ));
    }
}

/// A probe without any reply restarts the device exactly once.
///
/// After any number of healthy ticks, the first tick that has both a target
/// and an interface and gets no reply to its probe asks for the restart after
/// the grace delay, and the watchdog asks for nothing after it, whatever
/// follows.
pub proof fn law_silence_restarts_once(before: Seq<Watch>, silent: Watch, rest: Seq<Watch>)
    requires
        forall|i: int| 0 <= i < before.len() ==> (#[trigger] before[i]).verdict() is Healthy,
        silent.probes(),
        silent.outcome == ProbeOutcome::Replies(0),
    ensures
        verdicts(before + seq![silent] + rest) == Seq::new(before.len(), |i: int| Verdict::Healthy)
            + seq![Verdict::Restart(RESTART_GRACE_MS)],
        restarts(verdicts(before + seq![silent] + rest)) == 1,
    decreases before.len(),
{
    let ticks = before + seq![silent] + rest;
    let healthy = Seq::new(before.len(), |i: int| Verdict::Healthy);
    let last = seq![Verdict::Restart(RESTART_GRACE_MS)];
    if before.len() == 0 {
        assert(ticks.first() == silent);
        assert(verdicts(ticks) =~= healthy + last);
    } else {
        let tail = before.drop_first();
        assert(ticks.first() == before[0]);
        assert(ticks.drop_first() =~= tail + seq![silent] + rest);
        assert forall|i: int| 0 <= i < tail.len() implies (#[trigger] tail[i]).verdict() is Healthy by {
            assert(before[i + 1].verdict() is Healthy);
        }
        law_silence_restarts_once(tail, silent, rest);
        assert(verdicts(ticks) =~= healthy + last);
    }
    assert((healthy + last).drop_last() =~= healthy);
    lemma_healthy_no_restart(before.len());
}

} // verus!
