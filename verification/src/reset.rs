//! The reset monitor: a button that, held down long enough, resets the
//! configuration to the factory defaults, and the place where a requested
//! restart is carried out.
//!
//! The monitor looks at the restart-request flag and at the button once per
//! tick. A requested restart is carried out at once. A press starts a
//! countdown; every further tick that finds the button still down counts one
//! down, and the tick that reaches zero resets the device. A tick that finds
//! the button released abandons the countdown without any effect.

use crate::config::MyConfig;
use vstd::prelude::*;

verus! {

/// The value from which the countdown starts.
pub const CONFIG_RESET_COUNT: u32 = 9;

/// Milliseconds between two ticks while the button is released.
pub const IDLE_TICK_MS: u64 = 2000;

/// Milliseconds between two ticks during a countdown.
pub const COUNTDOWN_TICK_MS: u64 = 500;

/// Milliseconds between storing the factory configuration and restarting.
pub const RESET_GRACE_MS: u64 = 2000;

/// The state of the reset monitor.
#[derive(Clone, Copy, Debug, PartialEq, Eq, Structural)]
pub enum ResetState {
    /// The button is released.
    Idle,
    /// The button is held down; this many further ticks with the button down
    /// lead to the factory reset.
    Counting(u32),
}

/// What the monitor asks for after a tick.
#[derive(Clone, Copy, Debug, PartialEq, Eq, Structural)]
pub enum ResetAction {
    /// Nothing but to wait for the next tick.
    Wait,
    /// Warn that a factory reset is this many ticks away, then wait.
    Warn(u32),
    /// Store the factory configuration, then restart. The monitor is done.
    FactoryReset,
    /// Restart the device. The monitor is done.
    Restart,
}

impl ResetAction {
    /// The action ends the monitor: the device restarts.
    pub open spec fn is_final(self) -> bool {
        self is FactoryReset || self is Restart
    }
}

/// What the monitor observes at one tick.
#[derive(Clone, Copy, Debug, PartialEq, Eq, Structural)]
pub struct Tick {
    /// The restart-request flag is set.
    pub restart_requested: bool,
    /// The button is down (its pin reads low).
    pub pressed: bool,
}

impl ResetState {
    /// The state after a tick and the action that the tick asks for.
    pub open spec fn step(self, tick: Tick) -> (ResetState, ResetAction) {
        if tick.restart_requested {
            (self, ResetAction::Restart)
        } else if !tick.pressed {
            (ResetState::Idle, ResetAction::Wait)
        } else {
            match self {
                ResetState::Idle => (
                    ResetState::Counting(CONFIG_RESET_COUNT),
                    ResetAction::Warn(CONFIG_RESET_COUNT),
                ),
                ResetState::Counting(n) => if n <= 1 {
                    (ResetState::Counting(0), ResetAction::FactoryReset)
                } else {
                    (ResetState::Counting((n - 1) as u32), ResetAction::Warn((n - 1) as u32))
                },
            }
        }
    }

    /// Milliseconds until the next tick is due in this state.
    pub open spec fn spec_tick_ms(self) -> u64 {
        match self {
            ResetState::Idle => IDLE_TICK_MS,
            ResetState::Counting(_) => COUNTDOWN_TICK_MS,
        }
    }

    /// Milliseconds until the next tick is due in this state.
    #[verifier::when_used_as_spec(spec_tick_ms)]
    pub fn tick_ms(self) -> (ms: u64)
        ensures
            ms == self.spec_tick_ms(),
    {
        match self {
            ResetState::Idle => IDLE_TICK_MS,
            ResetState::Counting(_) => COUNTDOWN_TICK_MS,
        }
    }

    /// One tick of the monitor in any state.
    pub fn tick(self, restart_requested: bool, pressed: bool) -> (out: (ResetState, ResetAction))
        ensures
            out == self.step(Tick { restart_requested, pressed }),
    {
        match self {
            ResetState::Idle => poll_reset(restart_requested, pressed),
            ResetState::Counting(n) => reset_button(n, restart_requested, pressed),
        }
    }
}

/// One tick with the button last seen released: a requested restart is
/// carried out, a press starts the countdown.
pub fn poll_reset(restart_requested: bool, pressed: bool) -> (out: (ResetState, ResetAction))
    ensures
        out == ResetState::Idle.step(Tick { restart_requested, pressed }),
{
    if restart_requested {
        (ResetState::Idle, ResetAction::Restart)
    } else if pressed {
        (ResetState::Counting(CONFIG_RESET_COUNT), ResetAction::Warn(CONFIG_RESET_COUNT))
    } else {
        (ResetState::Idle, ResetAction::Wait)
    }
}

/// One tick of the countdown at `n`: a requested restart is carried out, a
/// released button abandons the countdown, a button still down counts one
/// down and, on reaching zero, resets the device.
pub fn reset_button(n: u32, restart_requested: bool, pressed: bool) -> (out: (
    ResetState,
    ResetAction,
))
    ensures
        out == ResetState::Counting(n).step(Tick { restart_requested, pressed }),
{
    if restart_requested {
        (ResetState::Counting(n), ResetAction::Restart)
    } else if !pressed {
        (ResetState::Idle, ResetAction::Wait)
    } else if n <= 1 {
        (ResetState::Counting(0), ResetAction::FactoryReset)
    } else {
        (ResetState::Counting(n - 1), ResetAction::Warn(n - 1))
    }
}

/// What a factory reset consists of: this configuration is stored in place of
/// the one in force, and after this many milliseconds the device restarts.
pub fn factory_reset() -> (out: (MyConfig, u64))
    ensures
        out == (MyConfig::factory(), RESET_GRACE_MS),
{
    (MyConfig::default(), RESET_GRACE_MS)
}

/// The actions of the monitor over a sequence of ticks, up to and including
/// the first one that ends it.
pub open spec fn actions(state: ResetState, ticks: Seq<Tick>) -> Seq<ResetAction>
    decreases ticks.len(),
{
    if ticks.len() == 0 {
        Seq::empty()
    } else {
        let (next, action) = state.step(ticks.first());
        if action.is_final() {
            seq![action]
        } else {
            seq![action] + actions(next, ticks.drop_first())
        }
    }
}

/// The state of the monitor after a sequence of ticks, or at the tick that
/// ended it.
pub open spec fn last_state(state: ResetState, ticks: Seq<Tick>) -> ResetState
    decreases ticks.len(),
{
    if ticks.len() == 0 {
        state
    } else {
        let (next, action) = state.step(ticks.first());
        if action.is_final() {
            next
        } else {
            last_state(next, ticks.drop_first())
        }
    }
}

/// The number of factory resets among `acts`.
pub open spec fn factory_resets(acts: Seq<ResetAction>) -> nat
    decreases acts.len(),
{
    if acts.len() == 0 {
        0
    } else {
        factory_resets(acts.drop_last()) + if acts.last() is FactoryReset {
            1nat
        } else {
            0nat
        }
    }
}

/// `n` ticks with the button down and no restart requested.
pub open spec fn held(n: nat) -> Seq<Tick> {
    Seq::new(n, |i: int| Tick { restart_requested: false, pressed: true })
}

/// `n` ticks with the button released and no restart requested.
pub open spec fn quiet(n: nat) -> Seq<Tick> {
    Seq::new(n, |i: int| Tick { restart_requested: false, pressed: false })
}

/// The warnings `from`, `from - 1`, and so on, `n` of them.
pub open spec fn warnings(from: nat, n: nat) -> Seq<ResetAction> {
    Seq::new(n, |i: int| ResetAction::Warn((from - i) as u32))
}

/// Factory resets are counted piece by piece.
pub proof fn lemma_factory_resets_concat(a: Seq<ResetAction>, b: Seq<ResetAction>)
    ensures
        factory_resets(a + b) == factory_resets(a) + factory_resets(b),
    decreases b.len(),
{
    if b.len() == 0 {
        assert(a + b =~= a);
    } else {
        lemma_factory_resets_concat(a, b.drop_last());
        assert((a + b).drop_last() =~= a + b.drop_last());
    }
}

/// A sequence without final action holds no factory reset.
pub proof fn lemma_no_final_no_reset(acts: Seq<ResetAction>)
    requires
        forall|i: int| 0 <= i < acts.len() ==> !(#[trigger] acts[i]).is_final(),
    ensures
        factory_resets(acts) == 0,
    decreases acts.len(),
{
    if acts.len() > 0 {
        lemma_no_final_no_reset(acts.drop_last());
    }
}

/// While the countdown has not run out, every tick with the button down
/// counts one down and warns, and the monitor goes on from there.
pub proof fn lemma_countdown(n: u32, j: nat, rest: Seq<Tick>)
    requires
        j < n,
    ensures
        actions(ResetState::Counting(n), held(j) + rest) == warnings((n - 1) as nat, j) + actions(
            ResetState::Counting((n - j) as u32),
            rest,
        ),
        last_state(ResetState::Counting(n), held(j) + rest) == last_state(
            ResetState::Counting((n - j) as u32),
            rest,
        ),
    decreases j,
{
    let ticks = held(j) + rest;
    if j == 0 {
        assert(ticks =~= rest);
        assert(warnings((n - 1) as nat, 0) + actions(ResetState::Counting(n), rest) =~= actions(
            ResetState::Counting(n),
            rest,
        ));
    } else {
        assert(ticks.first() == Tick { restart_requested: false, pressed: true });
        assert(ticks.drop_first() =~= held((j - 1) as nat) + rest);
        lemma_countdown((n - 1) as u32, (j - 1) as nat, rest);
        let tail = actions(ResetState::Counting((n - j) as u32), rest);
        assert(seq![ResetAction::Warn((n - 1) as u32)] + (warnings((n - 2) as nat, (j - 1) as nat)
            + tail) =~= warnings((n - 1) as nat, j) + tail);
    }
}

/// A short press does nothing.
///
/// From the idle state, with no restart requested: if the button is found
/// down at `k` ticks in a row, `k` no more than the countdown's start value,
/// and released at the next, the monitor is idle again and has asked for
/// neither a factory reset nor a restart, only for the `k` warnings.
pub proof fn law_short_press_is_harmless(k: nat)
    requires
        1 <= k <= CONFIG_RESET_COUNT,
    ensures
        last_state(ResetState::Idle, held(k) + quiet(1)) == ResetState::Idle,
        actions(ResetState::Idle, held(k) + quiet(1)) == warnings(CONFIG_RESET_COUNT as nat, k)
            + seq![ResetAction::Wait],
        factory_resets(actions(ResetState::Idle, held(k) + quiet(1))) == 0,
        forall|i: int|
            0 <= i < actions(ResetState::Idle, held(k) + quiet(1)).len() ==> !(#[trigger] actions(
                ResetState::Idle,
                held(k) + quiet(1),
            )[i]).is_final(),
{
    let ticks = held(k) + quiet(1);
    let n = CONFIG_RESET_COUNT;
    assert(ticks.first() == Tick { restart_requested: false, pressed: true });
    assert(ticks.drop_first() =~= held((k - 1) as nat) + quiet(1));
    lemma_countdown(n, (k - 1) as nat, quiet(1));
    let at = ResetState::Counting((n - (k - 1)) as u32);
    assert(quiet(1).first() == Tick { restart_requested: false, pressed: false });
    assert(quiet(1).drop_first() =~= Seq::<Tick>::empty());
    assert(actions(at, quiet(1)) =~= seq![ResetAction::Wait]) by {
        assert(actions(ResetState::Idle, Seq::<Tick>::empty()) =~= Seq::<ResetAction>::empty());
    }
    assert(last_state(at, quiet(1)) == ResetState::Idle) by {
        assert(last_state(ResetState::Idle, Seq::<Tick>::empty()) == ResetState::Idle);
    }
    let acts = actions(ResetState::Idle, ticks);
    assert(acts =~= warnings(n as nat, k) + seq![ResetAction::Wait]) by {
        assert(acts == seq![ResetAction::Warn(n)] + (warnings((n - 1) as nat, (k - 1) as nat)
            + seq![ResetAction::Wait]));
    }
    lemma_no_final_no_reset(acts);
}

/// A full press resets the device exactly once.
///
/// From the idle state, with no restart requested: if the button is found
/// down at one tick more than the countdown's start value in a row, the
/// monitor warns at each of them but the last, asks for the factory reset at
/// the last, and asks for nothing after it, whatever follows.
pub proof fn law_full_press_resets_once(rest: Seq<Tick>)
    ensures
        actions(ResetState::Idle, held(CONFIG_RESET_COUNT as nat + 1) + rest) == warnings(
            CONFIG_RESET_COUNT as nat,
            CONFIG_RESET_COUNT as nat,
        ) + seq![ResetAction::FactoryReset],
        factory_resets(actions(ResetState::Idle, held(CONFIG_RESET_COUNT as nat + 1) + rest)) == 1,
{
    let n = CONFIG_RESET_COUNT;
    let ticks = held(n as nat + 1) + rest;
    let tail = held(1) + rest;
    assert(ticks.first() == Tick { restart_requested: false, pressed: true });
    assert(ticks.drop_first() =~= held((n - 1) as nat) + tail);
    lemma_countdown(n, (n - 1) as nat, tail);
    assert(tail.first() == Tick { restart_requested: false, pressed: true });
    assert(actions(ResetState::Counting(1), tail) =~= seq![ResetAction::FactoryReset]);
    let acts = actions(ResetState::Idle, ticks);
    let warned = warnings(n as nat, n as nat);
    assert(acts =~= warned + seq![ResetAction::FactoryReset]) by {
        assert(acts == seq![ResetAction::Warn(n)] + (warnings((n - 1) as nat, (n - 1) as nat)
            + seq![ResetAction::FactoryReset]));
    }
    lemma_factory_resets_concat(warned, seq![ResetAction::FactoryReset]);
    lemma_no_final_no_reset(warned);
    assert(seq![ResetAction::FactoryReset].drop_last() =~= Seq::<ResetAction>::empty());
    assert(factory_resets(seq![ResetAction::FactoryReset]) == 1) by {
        assert(factory_resets(Seq::<ResetAction>::empty()) == 0);
    }
}

/// A requested restart is carried out at the next tick.
///
/// In any state and whatever the button does, the tick that finds the
/// restart-request flag set asks for the restart.
pub proof fn law_restart_request_wins(state: ResetState, pressed: bool)
    ensures
        state.step(Tick { restart_requested: true, pressed }).1 == ResetAction::Restart,
{
}

/// A requested restart needs no button.
///
/// From the idle state, with the button never touched: the monitor waits for
/// as long as no restart is requested, asks for the restart at the first tick
/// that finds the flag set, and asks for nothing after it.
pub proof fn law_deferred_restart(waits: nat, pressed: bool, rest: Seq<Tick>)
    ensures
        actions(
            ResetState::Idle,
            quiet(waits) + seq![Tick { restart_requested: true, pressed }] + rest,
        ) == Seq::new(waits, |i: int| ResetAction::Wait) + seq![ResetAction::Restart],
    decreases waits,
{
    let flagged = seq![Tick { restart_requested: true, pressed }];
    let ticks = quiet(waits) + flagged + rest;
    if waits == 0 {
        assert(ticks.first() == flagged[0]);
        assert(actions(ResetState::Idle, ticks) =~= Seq::new(0, |i: int| ResetAction::Wait)
            + seq![ResetAction::Restart]);
    } else {
        assert(ticks.first() == Tick { restart_requested: false, pressed: false });
        assert(ticks.drop_first() =~= quiet((waits - 1) as nat) + flagged + rest);
        law_deferred_restart((waits - 1) as nat, pressed, rest);
        assert(seq![ResetAction::Wait] + (Seq::new((waits - 1) as nat, |i: int| ResetAction::Wait)
            + seq![ResetAction::Restart]) =~= Seq::new(waits, |i: int| ResetAction::Wait)
            + seq![ResetAction::Restart]);
    }
}

/// The monitor ends the device at most once.
///
/// Over any ticks from any state, only the last action can be a factory reset
/// or a restart, so there is at most one factory reset.
pub proof fn law_at_most_one_final(state: ResetState, ticks: Seq<Tick>)
    ensures
        actions(state, ticks).len() <= ticks.len(),
        forall|i: int|
            0 <= i < actions(state, ticks).len() - 1 ==> !(#[trigger] actions(
                state,
                ticks,
            )[i]).is_final(),
        factory_resets(actions(state, ticks)) <= 1,
    decreases ticks.len(),
{
    let acts = actions(state, ticks);
    if ticks.len() > 0 {
        let (next, action) = state.step(ticks.first());
        if action.is_final() {
            assert(acts.drop_last() =~= Seq::<ResetAction>::empty());
            assert(factory_resets(acts.drop_last()) == 0);
        } else {
            let tail = actions(next, ticks.drop_first());
            law_at_most_one_final(next, ticks.drop_first());
            lemma_factory_resets_concat(seq![action], tail);
            lemma_no_final_no_reset(seq![action]);
            assert forall|i: int| 0 <= i < acts.len() - 1 implies !(#[trigger] acts[i]).is_final() by {
                if i > 0 {
                    assert(acts[i] == tail[i - 1]);
                }
            }
        }
    }
}

} // verus!
