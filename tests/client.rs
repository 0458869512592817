use ckb_another_exporter::client::{next, ClientAction, ClientEvent, ClientState, RECONNECT_DELAY_SECS};
use ckb_another_exporter::logger::init_logger;
use ckb_another_exporter::topic::Topic;

#[test]
fn reconnect_after_two_refusals() {
    let events = [
        ClientEvent::Start,
        ClientEvent::ConnectRefused,
        ClientEvent::DelayElapsed,
        ClientEvent::ConnectRefused,
        ClientEvent::DelayElapsed,
        ClientEvent::Connected,
        ClientEvent::Subscribed,
    ];
    let mut state = ClientState::Disconnected;
    let mut waits = 0;
    for (i, event) in events.iter().enumerate() {
        let (s, action) = next(state, *event);
        state = s;
        if let ClientAction::Wait(secs) = action {
            assert_eq!(secs, RECONNECT_DELAY_SECS);
            waits += 1;
        }
        if i + 1 < events.len() {
            assert_ne!(state, ClientState::Streaming);
        }
    }
    assert_eq!(state, ClientState::Streaming);
    assert_eq!(waits, 2);
    assert_eq!(RECONNECT_DELAY_SECS, 5);
}

#[test]
fn connect_subscribes_to_new_tip_block() {
    assert_eq!(
        next(ClientState::Connecting, ClientEvent::Connected),
        (ClientState::Subscribing, ClientAction::Subscribe(Topic::NewTipBlock))
    );
}

#[test]
fn streaming_forwards_blocks() {
    assert_eq!(
        next(ClientState::Streaming, ClientEvent::BlockDecoded),
        (ClientState::Streaming, ClientAction::Forward)
    );
}

#[test]
fn decode_failure_reconnects() {
    assert_eq!(
        next(ClientState::Streaming, ClientEvent::DecodeFailed),
        (ClientState::Connecting, ClientAction::Connect)
    );
}

#[test]
fn channel_failure_reconnects_from_open_channel() {
    for s in [ClientState::Subscribing, ClientState::Streaming] {
        assert_eq!(
            next(s, ClientEvent::ChannelClosed),
            (ClientState::Connecting, ClientAction::Connect)
        );
    }
}

#[test]
fn channel_failure_while_waiting_does_not_skip_delay() {
    assert_eq!(
        next(ClientState::WaitingToReconnect, ClientEvent::ChannelClosed),
        (ClientState::WaitingToReconnect, ClientAction::Idle)
    );
    assert_eq!(
        next(ClientState::WaitingToReconnect, ClientEvent::DelayElapsed),
        (ClientState::Connecting, ClientAction::Connect)
    );
}

#[test]
fn waiting_ignores_early_connect_report() {
    assert_eq!(
        next(ClientState::WaitingToReconnect, ClientEvent::Connected),
        (ClientState::WaitingToReconnect, ClientAction::Idle)
    );
}

#[test]
fn topic_wire_names() {
    assert_eq!(Topic::NewTipHeader.name(), "new_tip_header");
    assert_eq!(Topic::NewTipBlock.name(), "new_tip_block");
    assert_eq!(Topic::NewTransaction.name(), "new_transaction");
}

#[test]
fn logger_opens_info_level_after_install() {
    assert!(init_logger(Ok(())).is_ok());
    assert_eq!(log::max_level(), log::LevelFilter::Info);
}
