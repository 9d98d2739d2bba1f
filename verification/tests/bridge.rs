use esp32serial::broadcast::Delivery;
use esp32serial::config::MyConfig;
use esp32serial::serial::{
    handle_client, handle_network, handle_serial, run_serial, Bridge, BridgeEnd, ClientAction,
    ClientEvent, ClientSession, ClientStep, ListenerAction, ListenerEvent, SerialAction,
    SerialEvent, SerialStep, Startup, BUFSZ, CHANSZ, NETWORK_POLL_SECS,
};
use esp32serial::state::MyState;

fn config(write_back: bool) -> MyConfig {
    MyConfig { serial_write_enabled: write_back, ..MyConfig::default() }
}

fn connect(bridge: &mut Bridge, number: u32) -> ClientSession {
    match bridge.accept(number) {
        ListenerAction::Spawn(session) => session,
        other => panic!("no session: {:?}", other),
    }
}

#[test]
fn bridge_constants() {
    assert_eq!(BUFSZ, 64);
    assert_eq!(CHANSZ, 8);
    assert_eq!(NETWORK_POLL_SECS, 1);
}

#[test]
fn bridge_waits_for_the_network() {
    let cfg = MyConfig::default();
    assert_eq!(run_serial(false, &cfg), Startup::Wait(1));
    assert_eq!(run_serial(true, &cfg), Startup::Bind(23));
    let other = MyConfig { serial_tcp_port: 2323, ..cfg };
    assert_eq!(run_serial(true, &other), Startup::Bind(2323));
    assert_eq!(run_serial(false, &other), Startup::Wait(1));
}

#[test]
fn fresh_bridge() {
    let bridge = Bridge::new(&config(false));
    assert_eq!(bridge.ended(), None);
    assert!(!bridge.write_enabled());
    let bridge = Bridge::new(&config(true));
    assert_eq!(bridge.ended(), None);
    assert!(bridge.write_enabled());
}

#[test]
fn every_client_sees_the_serial_line_in_order() {
    let mut bridge = Bridge::new(&config(false));
    let a = connect(&mut bridge, 0);
    let b = connect(&mut bridge, 1);
    assert_eq!(a.number(), 0);
    assert_eq!(b.number(), 1);
    assert_eq!(a.slot(), 0);
    assert_eq!(b.slot(), 1);
    assert_eq!(bridge.serial_read(b"hello "), SerialAction::Blink);
    assert_eq!(bridge.serial_read(b"world"), SerialAction::Blink);
    for session in [&a, &b] {
        assert_eq!(bridge.client_poll(session), Delivery::Chunk(b"hello ".to_vec()));
        assert_eq!(bridge.client_poll(session), Delivery::Chunk(b"world".to_vec()));
        assert_eq!(bridge.client_poll(session), Delivery::Empty);
    }
}

#[test]
fn client_sees_what_was_read_after_it_connected() {
    let mut bridge = Bridge::new(&config(false));
    let a = connect(&mut bridge, 0);
    assert_eq!(bridge.serial_read(b"one"), SerialAction::Blink);
    let b = connect(&mut bridge, 1);
    assert_eq!(bridge.serial_read(b"two"), SerialAction::Blink);
    assert_eq!(bridge.client_poll(&b), Delivery::Chunk(b"two".to_vec()));
    assert_eq!(bridge.client_poll(&b), Delivery::Empty);
    assert_eq!(bridge.client_poll(&a), Delivery::Chunk(b"one".to_vec()));
    assert_eq!(bridge.client_poll(&a), Delivery::Chunk(b"two".to_vec()));
}

#[test]
fn slow_client_loses_chunks_beyond_the_capacity() {
    let mut bridge = Bridge::new(&config(false));
    let slow = connect(&mut bridge, 0);
    let fast = connect(&mut bridge, 1);
    for n in 0..11u8 {
        assert_eq!(bridge.serial_read(&[n]), SerialAction::Blink);
        assert_eq!(bridge.client_poll(&fast), Delivery::Chunk(vec![n]));
    }
    assert_eq!(bridge.client_poll(&slow), Delivery::Lagged(3));
    for n in 3..11u8 {
        assert_eq!(bridge.client_poll(&slow), Delivery::Chunk(vec![n]));
    }
    assert_eq!(bridge.client_poll(&slow), Delivery::Empty);
}

#[test]
fn without_write_back_client_input_never_reaches_the_serial_line() {
    let mut bridge = Bridge::new(&config(false));
    let a = connect(&mut bridge, 0);
    let b = connect(&mut bridge, 1);
    for round in 0..20u8 {
        assert_eq!(bridge.client_read(&a, &[round]), ClientAction::Discard);
        assert_eq!(bridge.client_read(&b, &[round, round]), ClientAction::Discard);
        assert_eq!(bridge.next_write(), None);
    }
    assert_eq!(bridge.ended(), None);
}

#[test]
fn with_write_back_client_input_is_written_in_order() {
    let mut bridge = Bridge::new(&config(true));
    let a = connect(&mut bridge, 0);
    let b = connect(&mut bridge, 1);
    assert_eq!(bridge.client_read(&a, b"from a"), ClientAction::Queued);
    assert_eq!(bridge.client_read(&b, b"from b"), ClientAction::Queued);
    assert_eq!(bridge.client_read(&a, b"a again"), ClientAction::Queued);
    assert_eq!(bridge.next_write(), Some(b"from a".to_vec()));
    assert_eq!(bridge.next_write(), Some(b"from b".to_vec()));
    assert_eq!(bridge.next_write(), Some(b"a again".to_vec()));
    assert_eq!(bridge.next_write(), None);
}

#[test]
fn bytes_written_equal_bytes_queued() {
    let mut bridge = Bridge::new(&config(true));
    let a = connect(&mut bridge, 0);
    let b = connect(&mut bridge, 1);
    let mut queued: Vec<u8> = Vec::new();
    let mut written: Vec<u8> = Vec::new();
    let mut retries = 0;
    for round in 0..100u8 {
        let session = if round % 3 == 0 { &a } else { &b };
        let data = vec![round; 1 + (round as usize % 7)];
        match bridge.client_read(session, &data) {
            ClientAction::Queued => queued.extend_from_slice(&data),
            ClientAction::Retry => retries += 1,
            other => panic!("unexpected {:?}", other),
        }
        if round % 2 == 0 {
            if let Some(chunk) = bridge.next_write() {
                written.extend_from_slice(&chunk);
            }
        }
    }
    while let Some(chunk) = bridge.next_write() {
        written.extend_from_slice(&chunk);
    }
    assert!(retries > 0);
    assert_eq!(queued, written);
}

#[test]
fn full_funnel_pushes_back() {
    let mut bridge = Bridge::new(&config(true));
    let a = connect(&mut bridge, 0);
    for n in 0..8u8 {
        assert_eq!(bridge.client_read(&a, &[n]), ClientAction::Queued);
    }
    assert_eq!(bridge.client_read(&a, &[8]), ClientAction::Retry);
    assert_eq!(bridge.client_read(&a, &[8]), ClientAction::Retry);
    assert_eq!(bridge.next_write(), Some(vec![0]));
    assert_eq!(bridge.client_read(&a, &[8]), ClientAction::Queued);
    for n in 1..9u8 {
        assert_eq!(bridge.next_write(), Some(vec![n]));
    }
    assert_eq!(bridge.next_write(), None);
}

#[test]
fn peer_that_closes_ends_only_its_own_client() {
    let mut bridge = Bridge::new(&config(true));
    let a = connect(&mut bridge, 0);
    let b = connect(&mut bridge, 1);
    assert_eq!(bridge.client_read(&a, &[]), ClientAction::Close);
    bridge.client_gone(a);
    assert_eq!(bridge.ended(), None);
    assert_eq!(bridge.serial_read(b"still here"), SerialAction::Blink);
    assert_eq!(bridge.client_poll(&b), Delivery::Chunk(b"still here".to_vec()));
    assert_eq!(bridge.client_read(&b, b"x"), ClientAction::Queued);
    assert_eq!(bridge.next_write(), Some(b"x".to_vec()));
}

#[test]
fn slot_of_a_client_that_left_is_given_to_the_next() {
    let mut bridge = Bridge::new(&config(false));
    let a = connect(&mut bridge, 0);
    let b = connect(&mut bridge, 1);
    assert_eq!(bridge.serial_read(b"old"), SerialAction::Blink);
    bridge.client_gone(a);
    let c = connect(&mut bridge, 2);
    assert_eq!(c.slot(), 0);
    assert_eq!(c.number(), 2);
    assert_eq!(bridge.client_poll(&c), Delivery::Empty);
    assert_eq!(bridge.client_poll(&b), Delivery::Chunk(b"old".to_vec()));
}

#[test]
fn end_of_stream_ends_the_bridge() {
    let mut bridge = Bridge::new(&config(true));
    let a = connect(&mut bridge, 0);
    let b = connect(&mut bridge, 1);
    assert_eq!(bridge.serial_read(b"last"), SerialAction::Blink);
    assert_eq!(bridge.client_read(&a, b"pending"), ClientAction::Queued);
    assert_eq!(bridge.serial_read(&[]), SerialAction::Stop(BridgeEnd::EndOfStream));
    assert_eq!(bridge.ended(), Some(BridgeEnd::EndOfStream));
    // Nothing is relayed any more, in either direction, and the reason stays.
    assert_eq!(bridge.serial_read(b"more"), SerialAction::Stop(BridgeEnd::EndOfStream));
    assert_eq!(bridge.serial_fault(), SerialAction::Stop(BridgeEnd::EndOfStream));
    assert_eq!(bridge.bind_failed(), ListenerAction::Stop(BridgeEnd::EndOfStream));
    assert_eq!(bridge.accept_failed(), ListenerAction::Stop(BridgeEnd::EndOfStream));
    assert_eq!(bridge.accept(2), ListenerAction::Stop(BridgeEnd::EndOfStream));
    assert_eq!(bridge.next_write(), None);
    assert_eq!(bridge.client_poll(&a), Delivery::Closed);
    assert_eq!(bridge.client_poll(&b), Delivery::Closed);
    assert_eq!(bridge.client_read(&b, b"x"), ClientAction::Close);
    assert_eq!(bridge.ended(), Some(BridgeEnd::EndOfStream));
}

#[test]
fn serial_data_without_any_client_cannot_be_published() {
    let mut bridge = Bridge::new(&config(false));
    assert_eq!(bridge.serial_read(b"nobody"), SerialAction::Stop(BridgeEnd::PublishFailed));
    assert_eq!(bridge.ended(), Some(BridgeEnd::PublishFailed));
}

#[test]
fn serial_fault_ends_the_bridge() {
    let mut bridge = Bridge::new(&config(true));
    let a = connect(&mut bridge, 0);
    assert_eq!(bridge.serial_fault(), SerialAction::Stop(BridgeEnd::SerialFault));
    assert_eq!(bridge.ended(), Some(BridgeEnd::SerialFault));
    assert_eq!(bridge.serial_read(&[]), SerialAction::Stop(BridgeEnd::SerialFault));
    assert_eq!(bridge.client_poll(&a), Delivery::Closed);
}

#[test]
fn failed_bind_ends_the_bridge() {
    let mut bridge = Bridge::new(&config(false));
    assert_eq!(bridge.bind_failed(), ListenerAction::Stop(BridgeEnd::BindFailed));
    assert_eq!(bridge.ended(), Some(BridgeEnd::BindFailed));
}

#[test]
fn failed_accept_is_passed_over() {
    let mut bridge = Bridge::new(&config(false));
    assert_eq!(bridge.accept_failed(), ListenerAction::Continue);
    assert_eq!(bridge.accept_failed(), ListenerAction::Continue);
    assert_eq!(bridge.ended(), None);
    let a = connect(&mut bridge, 0);
    assert_eq!(bridge.serial_read(b"ok"), SerialAction::Blink);
    assert_eq!(bridge.client_poll(&a), Delivery::Chunk(b"ok".to_vec()));
}

#[test]
fn serial_task_steps() {
    let mut bridge = Bridge::new(&config(true));
    let a = connect(&mut bridge, 0);
    assert_eq!(handle_serial(&mut bridge, SerialEvent::Ready), SerialStep::Idle);
    assert_eq!(handle_serial(&mut bridge, SerialEvent::Read(b"abc")), SerialStep::Blink);
    assert_eq!(bridge.client_poll(&a), Delivery::Chunk(b"abc".to_vec()));
    assert_eq!(bridge.client_read(&a, b"xyz"), ClientAction::Queued);
    assert_eq!(handle_serial(&mut bridge, SerialEvent::Ready), SerialStep::Write(b"xyz".to_vec()));
    assert_eq!(handle_serial(&mut bridge, SerialEvent::Ready), SerialStep::Idle);
    assert_eq!(
        handle_serial(&mut bridge, SerialEvent::Read(&[])),
        SerialStep::Stop(BridgeEnd::EndOfStream)
    );
    assert_eq!(
        handle_serial(&mut bridge, SerialEvent::Ready),
        SerialStep::Stop(BridgeEnd::EndOfStream)
    );
    assert_eq!(
        handle_serial(&mut bridge, SerialEvent::Fault),
        SerialStep::Stop(BridgeEnd::EndOfStream)
    );
}

#[test]
fn serial_task_fault_step() {
    let mut bridge = Bridge::new(&config(false));
    assert_eq!(
        handle_serial(&mut bridge, SerialEvent::Fault),
        SerialStep::Stop(BridgeEnd::SerialFault)
    );
    assert_eq!(
        handle_serial(&mut bridge, SerialEvent::Read(b"x")),
        SerialStep::Stop(BridgeEnd::SerialFault)
    );
}

#[test]
fn accept_loop_steps() {
    let mut state = MyState::new(config(false), String::from("ota_0"), (), ());
    state.api_cnt = 41;
    let mut bridge = Bridge::new(&state.config);
    assert_eq!(
        handle_network(&mut state, &mut bridge, ListenerEvent::AcceptFailed),
        ListenerAction::Continue
    );
    assert_eq!(state.api_cnt, 41);
    let first = match handle_network(&mut state, &mut bridge, ListenerEvent::Accepted) {
        ListenerAction::Spawn(session) => session,
        other => panic!("no session: {:?}", other),
    };
    assert_eq!(first.number(), 41);
    assert_eq!(first.slot(), 0);
    assert_eq!(state.api_cnt, 42);
    let second = match handle_network(&mut state, &mut bridge, ListenerEvent::Accepted) {
        ListenerAction::Spawn(session) => session,
        other => panic!("no session: {:?}", other),
    };
    assert_eq!(second.number(), 42);
    assert_eq!(second.slot(), 1);
    assert_eq!(state.api_cnt, 43);
    assert_eq!(
        handle_network(&mut state, &mut bridge, ListenerEvent::BindFailed),
        ListenerAction::Stop(BridgeEnd::BindFailed)
    );
    assert_eq!(
        handle_network(&mut state, &mut bridge, ListenerEvent::Accepted),
        ListenerAction::Stop(BridgeEnd::BindFailed)
    );
    assert_eq!(state.api_cnt, 43);
    assert_eq!(
        handle_network(&mut state, &mut bridge, ListenerEvent::AcceptFailed),
        ListenerAction::Stop(BridgeEnd::BindFailed)
    );
}

#[test]
fn client_task_steps() {
    let mut bridge = Bridge::new(&config(true));
    let a = connect(&mut bridge, 0);
    assert_eq!(handle_client(&mut bridge, &a, ClientEvent::Wake), ClientStep::Idle);
    assert_eq!(bridge.serial_read(b"abc"), SerialAction::Blink);
    assert_eq!(
        handle_client(&mut bridge, &a, ClientEvent::Wake),
        ClientStep::Forward(b"abc".to_vec())
    );
    assert_eq!(handle_client(&mut bridge, &a, ClientEvent::Read(b"in")), ClientStep::Queued);
    assert_eq!(bridge.next_write(), Some(b"in".to_vec()));
    for n in 0..8u8 {
        assert_eq!(handle_client(&mut bridge, &a, ClientEvent::Read(&[n])), ClientStep::Queued);
    }
    assert_eq!(handle_client(&mut bridge, &a, ClientEvent::Read(&[8])), ClientStep::Retry);
    for n in 0..10u8 {
        assert_eq!(bridge.serial_read(&[n]), SerialAction::Blink);
    }
    assert_eq!(handle_client(&mut bridge, &a, ClientEvent::Wake), ClientStep::Skipped(2));
    assert_eq!(handle_client(&mut bridge, &a, ClientEvent::Wake), ClientStep::Forward(vec![2]));
    assert_eq!(handle_client(&mut bridge, &a, ClientEvent::Fault), ClientStep::Close);
    assert_eq!(handle_client(&mut bridge, &a, ClientEvent::Read(&[])), ClientStep::Close);
    assert_eq!(bridge.ended(), None);
}

#[test]
fn client_task_discards_without_write_back() {
    let mut bridge = Bridge::new(&config(false));
    let a = connect(&mut bridge, 0);
    assert_eq!(handle_client(&mut bridge, &a, ClientEvent::Read(b"in")), ClientStep::Discard);
    assert_eq!(handle_serial(&mut bridge, SerialEvent::Ready), SerialStep::Idle);
    assert_eq!(bridge.serial_read(&[]), SerialAction::Stop(BridgeEnd::EndOfStream));
    assert_eq!(handle_client(&mut bridge, &a, ClientEvent::Wake), ClientStep::Close);
    assert_eq!(handle_client(&mut bridge, &a, ClientEvent::Read(b"in")), ClientStep::Close);
}
