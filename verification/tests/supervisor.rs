use esp32serial::config::MyConfig;
use esp32serial::serial::{Bridge, BridgeEnd, ListenerAction, SerialAction};
use esp32serial::supervisor::{
    bridge_ending, Activity, Command, Ending, Finished, Supervisor, RESTART_DELAY_MS,
};

#[test]
fn supervisor_starts_with_nothing_ended() {
    assert_eq!(Supervisor::new().first, None);
    assert_eq!(RESTART_DELAY_MS, 3000);
}

#[test]
fn first_ending_restarts_whoever_it_is() {
    let all = [
        Activity::ResetMonitor,
        Activity::ApiServer,
        Activity::Bridge,
        Activity::Wifi,
        Activity::Watchdog,
    ];
    for who in all {
        for how in [Ending::Clean, Ending::Fault] {
            let mut sup = Supervisor::new();
            assert_eq!(sup.finished(who, how), Command::Restart(3000));
            assert_eq!(sup.first, Some(Finished { who, how }));
        }
    }
}

#[test]
fn later_endings_ask_for_nothing() {
    let mut sup = Supervisor::new();
    assert_eq!(sup.finished(Activity::Watchdog, Ending::Fault), Command::Restart(3000));
    assert_eq!(sup.finished(Activity::Bridge, Ending::Clean), Command::Nothing);
    assert_eq!(sup.finished(Activity::Watchdog, Ending::Fault), Command::Nothing);
    assert_eq!(sup.finished(Activity::Wifi, Ending::Fault), Command::Nothing);
    assert_eq!(sup.first, Some(Finished { who: Activity::Watchdog, how: Ending::Fault }));
}

#[test]
fn end_of_stream_restarts_once_not_once_per_client() {
    let mut bridge = Bridge::new(&MyConfig::default());
    let mut sessions = Vec::new();
    for number in 0..5u32 {
        match bridge.accept(number) {
            ListenerAction::Spawn(session) => sessions.push(session),
            other => panic!("no session: {:?}", other),
        }
    }
    let mut sup = Supervisor::new();
    let mut restarts = 0;
    assert_eq!(bridge.serial_read(&[]), SerialAction::Stop(BridgeEnd::EndOfStream));
    if let Some(reason) = bridge.ended() {
        if let Command::Restart(_) = sup.finished(Activity::Bridge, bridge_ending(reason)) {
            restarts += 1;
        }
    }
    // The clients wind down; none of them asks for a restart of its own.
    for session in sessions {
        bridge.client_gone(session);
        assert_eq!(bridge.ended(), Some(BridgeEnd::EndOfStream));
    }
    if let Command::Restart(_) = sup.finished(Activity::Bridge, Ending::Clean) {
        restarts += 1;
    }
    assert_eq!(restarts, 1);
}

#[test]
fn bridge_always_ends_as_a_fault() {
    for reason in [
        BridgeEnd::EndOfStream,
        BridgeEnd::SerialFault,
        BridgeEnd::PublishFailed,
        BridgeEnd::BindFailed,
    ] {
        assert_eq!(bridge_ending(reason), Ending::Fault);
    }
}
