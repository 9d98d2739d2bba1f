//! The task supervisor: all long-running activities share one fate. The first
//! of them to end, cleanly or not, ends the wait, and the device restarts.
//! No activity is restarted on its own.

use crate::relay::{law_end_is_final, lemma_apply, BridgeOp};
use crate::serial::{BridgeEnd, BridgeView, SerialAction};
use vstd::prelude::*;

verus! {

/// Milliseconds between the end of the wait and the restart.
pub const RESTART_DELAY_MS: u64 = 3000;

/// The long-running activities of the device.
#[derive(Clone, Copy, Debug, PartialEq, Eq, Structural)]
pub enum Activity {
    ResetMonitor,
    ApiServer,
    Bridge,
    Wifi,
    Watchdog,
}

/// How an activity ended.
#[derive(Clone, Copy, Debug, PartialEq, Eq, Structural)]
pub enum Ending {
    /// It returned without error.
    Clean,
    /// It returned an error.
    Fault,
}

/// The end of one activity.
#[derive(Clone, Copy, Debug, PartialEq, Eq, Structural)]
pub struct Finished {
    pub who: Activity,
    pub how: Ending,
}

/// What the supervisor asks for when an activity has ended.
#[derive(Clone, Copy, Debug, PartialEq, Eq, Structural)]
pub enum Command {
    /// Wait this many milliseconds, then restart the device.
    Restart(u64),
    /// The restart is under way already: nothing to do.
    Nothing,
}

/// The supervisor: it remembers which activity ended first, and how.
#[derive(Clone, Copy, Debug, PartialEq, Eq, Structural)]
pub struct Supervisor {
    pub first: Option<Finished>,
}

impl Supervisor {
    /// The supervisor while every activity runs.
    pub open spec fn fresh() -> Supervisor {
        Supervisor { first: None }
    }

    /// The supervisor after `who` has ended, and what it asks for.
    pub open spec fn step(self, who: Activity, how: Ending) -> (Supervisor, Command) {
        match self.first {
            None => (
                Supervisor { first: Some(Finished { who, how }) },
                Command::Restart(RESTART_DELAY_MS),
            ),
            Some(_) => (self, Command::Nothing),
        }
    }

    /// The supervisor at the start of the wait.
    pub fn new() -> (sup: Supervisor)
        ensures
            sup == Supervisor::fresh(),
    {
        Supervisor { first: None }
    }

    /// Reports that `who` has ended. The first such report, whoever it is
    /// about and however the activity ended, asks for the restart; any later
    /// one asks for nothing.
    pub fn finished(&mut self, who: Activity, how: Ending) -> (cmd: Command)
        ensures
            (*final(self), cmd) == old(self).step(who, how),
    {
        match self.first {
            None => {
                self.first = Some(Finished { who, how });
                Command::Restart(RESTART_DELAY_MS)
            },
            Some(_) => Command::Nothing,
        }
    }
}

/// How the bridge has ended, as the supervisor is told: always as a fault.
/// Not even the end of the serial stream is passed over in silence.
pub fn bridge_ending(reason: BridgeEnd) -> (how: Ending)
    ensures
        how == Ending::Fault,
{
    match reason {
        BridgeEnd::EndOfStream => Ending::Fault,
        BridgeEnd::SerialFault => Ending::Fault,
        BridgeEnd::PublishFailed => Ending::Fault,
        BridgeEnd::BindFailed => Ending::Fault,
    }
}

/// What the supervisor asks for over a sequence of endings.
pub open spec fn commands(sup: Supervisor, ends: Seq<Finished>) -> Seq<Command>
    decreases ends.len(),
{
    if ends.len() == 0 {
        Seq::empty()
    } else {
        let (next, cmd) = sup.step(ends.first().who, ends.first().how);
        seq![cmd] + commands(next, ends.drop_first())
    }
}

/// The number of restarts among `cmds`.
pub open spec fn restarts(cmds: Seq<Command>) -> nat
    decreases cmds.len(),
{
    if cmds.len() == 0 {
        0
    } else {
        restarts(cmds.drop_first()) + if cmds.first() is Restart {
            1nat
        } else {
            0nat
        }
    }
}

/// Once an activity has ended, further endings ask for nothing.
pub proof fn lemma_no_second_restart(sup: Supervisor, ends: Seq<Finished>)
    requires
        sup.first is Some,
    ensures
        commands(sup, ends) == Seq::new(ends.len(), |i: int| Command::Nothing),
        restarts(commands(sup, ends)) == 0,
    decreases ends.len(),
{
    let quiet = Seq::new(ends.len(), |i: int| Command::Nothing);
    if ends.len() > 0 {
        lemma_no_second_restart(sup, ends.drop_first());
        assert(commands(sup, ends) =~= quiet);
        assert(quiet.drop_first() =~= Seq::new((ends.len() - 1) as nat, |i: int| Command::Nothing));
    }
}

/// Common fate.
///
/// Whichever activity ends first, and however it ends, the supervisor asks
/// for the restart then, and for exactly one restart over all the endings
/// that may still follow.
pub proof fn law_common_fate(who: Activity, how: Ending, later: Seq<Finished>)
    ensures
        Supervisor::fresh().step(who, how).1 == Command::Restart(RESTART_DELAY_MS),
        commands(Supervisor::fresh(), seq![Finished { who, how }] + later) == seq![
            Command::Restart(RESTART_DELAY_MS),
        ] + Seq::new(later.len(), |i: int| Command::Nothing),
        restarts(commands(Supervisor::fresh(), seq![Finished { who, how }] + later)) == 1,
{
    let ends = seq![Finished { who, how }] + later;
    let (next, cmd) = Supervisor::fresh().step(who, how);
    assert(ends.first() == Finished { who, how });
    assert(ends.drop_first() =~= later);
    lemma_no_second_restart(next, later);
    let cmds = commands(Supervisor::fresh(), ends);
    assert(cmds.drop_first() =~= commands(next, later));
}

/// The end of the serial stream restarts the device once, not once per
/// client.
///
/// Take a running bridge with any number of clients. A read of the serial
/// line that returns no bytes ends the bridge; whatever the serial task, the
/// accept loop and the clients report afterwards, the bridge stays ended for
/// that reason and relays nothing more; and the supervisor, told that the
/// bridge has ended, asks for exactly one restart, whatever else ends later.
pub proof fn law_end_of_stream_restarts_once(
    bridge: BridgeView,
    after: Seq<BridgeOp>,
    later: Seq<Finished>,
)
    requires
        bridge.wf(),
        bridge.running(),
    ensures
        bridge.serial_read_action(Seq::empty()) == SerialAction::Stop(BridgeEnd::EndOfStream),
        bridge.after_serial_read(Seq::empty()).run(after).ended == Some(BridgeEnd::EndOfStream),
        bridge.after_serial_read(Seq::empty()).run(after).bus.history == bridge.bus.history,
        restarts(
            commands(
                Supervisor::fresh(),
                seq![Finished { who: Activity::Bridge, how: Ending::Fault }] + later,
            ),
        ) == 1,
{
    let ended = bridge.after_serial_read(Seq::empty());
    lemma_apply(bridge, BridgeOp::SerialRead(Seq::empty()));
    law_end_is_final(ended, after);
    law_common_fate(Activity::Bridge, Ending::Fault, later);
}

} // verus!
