use esp32serial::config::Ipv4;
use esp32serial::watchdog::{
    judge, pinger, plan, ProbeOutcome, ProbeRequest, Verdict, WatchdogPlan, PROBE_COUNT,
    PROBE_DATA_SIZE, PROBE_INTERVAL_MS, PROBE_TIMEOUT_MS, PROBE_TOS, RESTART_GRACE_MS,
    WATCHDOG_TICK_SECS,
};

const GATEWAY: Ipv4 = Ipv4 { a: 192, b: 168, c: 1, d: 1 };

#[test]
fn watchdog_constants() {
    assert_eq!(WATCHDOG_TICK_SECS, 300);
    assert_eq!(PROBE_COUNT, 2);
    assert_eq!(PROBE_INTERVAL_MS, 500);
    assert_eq!(PROBE_TIMEOUT_MS, 200);
    assert_eq!(PROBE_DATA_SIZE, 64);
    assert_eq!(PROBE_TOS, 0);
    assert_eq!(RESTART_GRACE_MS, 2000);
}

#[test]
fn no_probe_without_target() {
    assert_eq!(plan(None, 0), WatchdogPlan::NoTarget);
    assert_eq!(plan(None, 3), WatchdogPlan::NoTarget);
}

#[test]
fn no_probe_without_interface() {
    assert_eq!(plan(Some(GATEWAY), 0), WatchdogPlan::NoInterface);
}

#[test]
fn probe_with_target_and_interface() {
    assert_eq!(
        plan(Some(GATEWAY), 2),
        WatchdogPlan::Probe(ProbeRequest {
            target: GATEWAY,
            if_index: 2,
            count: 2,
            interval_ms: 500,
            timeout_ms: 200,
            data_size: 64,
            tos: 0,
        })
    );
}

#[test]
fn silence_restarts_after_the_grace_delay() {
    assert_eq!(judge(ProbeOutcome::Replies(0)), Verdict::Restart(2000));
}

#[test]
fn any_reply_is_healthy() {
    assert_eq!(judge(ProbeOutcome::Replies(1)), Verdict::Healthy);
    assert_eq!(judge(ProbeOutcome::Replies(2)), Verdict::Healthy);
    assert_eq!(judge(ProbeOutcome::Replies(u32::MAX)), Verdict::Healthy);
}

#[test]
fn probe_that_cannot_run_is_a_fault() {
    assert_eq!(judge(ProbeOutcome::Failed), Verdict::Fault);
}

#[test]
fn tick_without_target_or_interface_never_restarts() {
    for outcome in [ProbeOutcome::Replies(0), ProbeOutcome::Replies(2), ProbeOutcome::Failed] {
        assert_eq!(pinger(None, 0, outcome), Verdict::Healthy);
        assert_eq!(pinger(None, 5, outcome), Verdict::Healthy);
        assert_eq!(pinger(Some(GATEWAY), 0, outcome), Verdict::Healthy);
    }
}

#[test]
fn tick_with_target_and_interface_follows_the_probe() {
    assert_eq!(pinger(Some(GATEWAY), 1, ProbeOutcome::Replies(0)), Verdict::Restart(2000));
    assert_eq!(pinger(Some(GATEWAY), 1, ProbeOutcome::Replies(1)), Verdict::Healthy);
    assert_eq!(pinger(Some(GATEWAY), 1, ProbeOutcome::Failed), Verdict::Fault);
}

#[test]
fn exactly_one_restart_over_a_run_of_ticks() {
    let ticks = [
        (None, 0, ProbeOutcome::Replies(0)),
        (Some(GATEWAY), 0, ProbeOutcome::Replies(0)),
        (Some(GATEWAY), 2, ProbeOutcome::Replies(2)),
        (Some(GATEWAY), 2, ProbeOutcome::Replies(0)),
        (Some(GATEWAY), 2, ProbeOutcome::Replies(0)),
    ];
    let mut verdicts = Vec::new();
    for (ip, idx, outcome) in ticks {
        let v = pinger(ip, idx, outcome);
        verdicts.push(v);
        if v != Verdict::Healthy {
            break;
        }
    }
    assert_eq!(
        verdicts,
        vec![Verdict::Healthy, Verdict::Healthy, Verdict::Healthy, Verdict::Restart(2000)]
    );
}
