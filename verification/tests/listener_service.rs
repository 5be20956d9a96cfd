use shutdown_on_lan::configuration::AppConfiguration;
use shutdown_on_lan::ip_address::IpAddress;
use shutdown_on_lan::listener_service::{
    handle_stream, run, ListenerAction, ListenerEvent, ListenerState, StreamAction, StreamInput,
};

fn data(text: &str) -> StreamInput {
    StreamInput::Data(text.as_bytes().to_vec())
}

#[test]
fn exact_secret_triggers_shutdown() {
    assert_eq!(handle_stream(&data("hunter2"), "hunter2"), StreamAction::Shutdown);
}

#[test]
fn secret_with_trailing_newline_triggers_shutdown() {
    assert_eq!(handle_stream(&data("hunter2\n"), "hunter2"), StreamAction::Shutdown);
    assert_eq!(handle_stream(&data("hunter2\r\n"), "hunter2"), StreamAction::Shutdown);
    assert_eq!(handle_stream(&data("  \thunter2 \n"), "hunter2"), StreamAction::Shutdown);
    assert_eq!(
        handle_stream(&data("\u{a0}\u{3000}hunter2\u{2028}\u{85}"), "hunter2"),
        StreamAction::Shutdown
    );
}

#[test]
fn other_input_is_ignored() {
    assert_eq!(handle_stream(&data("hunter3"), "hunter2"), StreamAction::Ignore);
    assert_eq!(handle_stream(&data(""), "hunter2"), StreamAction::Ignore);
    assert_eq!(handle_stream(&data("hunter2 x"), "hunter2"), StreamAction::Ignore);
    assert_eq!(handle_stream(&data("Hunter2"), "hunter2"), StreamAction::Ignore);
    assert_eq!(handle_stream(&data("hunter2\u{200b}"), "hunter2"), StreamAction::Ignore);
    assert_eq!(handle_stream(&data("hunter2\u{1c}"), "hunter2"), StreamAction::Ignore);
}

#[test]
fn secret_with_inner_white_space_is_compared_whole() {
    assert_eq!(
        handle_stream(&data("Super Secret String\n"), "Super Secret String"),
        StreamAction::Shutdown
    );
    assert_eq!(
        handle_stream(&data("Super  Secret String\n"), "Super Secret String"),
        StreamAction::Ignore
    );
}

#[test]
fn secret_with_outer_white_space_never_matches() {
    assert_eq!(handle_stream(&data(" hunter2"), " hunter2"), StreamAction::Ignore);
}

#[test]
fn empty_secret_matches_blank_input() {
    assert_eq!(handle_stream(&data(" \n"), ""), StreamAction::Shutdown);
}

#[test]
fn failed_read_closes_the_connection() {
    assert_eq!(handle_stream(&StreamInput::ReadFailed, "hunter2"), StreamAction::Close);
}

#[test]
fn bytes_that_are_no_text_close_the_connection() {
    let input = StreamInput::Data(vec![b'h', 0xff, b'x']);
    assert_eq!(handle_stream(&input, "hunter2"), StreamAction::Close);
    let truncated = StreamInput::Data(vec![0xe2, 0x82]);
    assert_eq!(handle_stream(&truncated, "hunter2"), StreamAction::Close);
}

#[test]
fn accepted_connection_is_served_with_the_secret() {
    let configuration = AppConfiguration::default();
    let (state, action) = run(
        &configuration,
        ListenerState::Listening,
        ListenerEvent::Accepted(IpAddress::V4(127, 0, 0, 1)),
    );
    assert_eq!(state, ListenerState::Listening);
    assert_eq!(
        action,
        ListenerAction::Serve { secret: "Super Secret String".to_string(), expected: true }
    );
}

#[test]
fn connection_on_another_interface_is_served_all_the_same() {
    let configuration = AppConfiguration::default();
    let (state, action) = run(
        &configuration,
        ListenerState::Listening,
        ListenerEvent::Accepted(IpAddress::V4(192, 168, 1, 7)),
    );
    assert_eq!(state, ListenerState::Listening);
    assert_eq!(
        action,
        ListenerAction::Serve { secret: "Super Secret String".to_string(), expected: false }
    );
}

#[test]
fn failed_accept_keeps_the_listener_running() {
    let configuration = AppConfiguration::default();
    let (state, action) = run(&configuration, ListenerState::Listening, ListenerEvent::AcceptFailed);
    assert_eq!(state, ListenerState::Listening);
    assert_eq!(action, ListenerAction::Skip);
}

#[test]
fn failed_bind_ends_the_listener() {
    let configuration = AppConfiguration::default();
    let (state, action) = run(&configuration, ListenerState::Listening, ListenerEvent::BindFailed);
    assert_eq!(state, ListenerState::Terminated);
    assert_eq!(action, ListenerAction::Fail);
    let (state, action) = run(
        &configuration,
        ListenerState::Terminated,
        ListenerEvent::Accepted(IpAddress::V4(127, 0, 0, 1)),
    );
    assert_eq!(state, ListenerState::Terminated);
    assert_eq!(action, ListenerAction::Fail);
}

#[test]
fn listener_binds_every_interface_at_the_configured_port() {
    let mut configuration = AppConfiguration::default();
    assert_eq!(configuration.to_socket_addrs(), vec![(IpAddress::V4(0, 0, 0, 0), 53632)]);
    configuration.set_port_number(1234);
    assert_eq!(configuration.to_socket_addrs(), vec![(IpAddress::V4(0, 0, 0, 0), 1234)]);
}
