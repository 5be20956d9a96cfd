//! The decisions of the listener: what to do with a connection that was
//! accepted, and what to do with what a connection sent.

use crate::configuration::AppConfiguration;
use crate::ip_address::IpAddress;
use crate::text::{
    all_space, chars_of, is_trimmed, lemma_trim_around, same_chars, text_of_bytes, trim,
    trim_chars,
};
use vstd::prelude::*;
use vstd::utf8::{
    decode_utf8, encode_utf8, encode_utf8_decode_utf8, encode_utf8_valid_utf8, valid_utf8,
};

verus! {

/// What reading a connection to its end gave.
#[derive(Debug, Clone, PartialEq, Eq)]
pub enum StreamInput {
    /// Every byte that the peer sent before it closed its side.
    Data(Vec<u8>),
    /// The read failed before the end of the stream.
    ReadFailed,
}

/// What to do with a connection once it was read.
#[derive(Debug, Clone, Copy, PartialEq, Eq, Structural)]
pub enum StreamAction {
    /// The peer sent the secret: ask the host to power off.
    Shutdown,
    /// The peer sent something else: let the connection close.
    Ignore,
    /// Nothing usable was read: close the connection in both directions.
    Close,
}

/// The action that the bytes of a connection call for. Bytes that are no
/// UTF-8 text count as a failed read. Otherwise the text, without the white
/// space around it, is held against the secret.
pub open spec fn action_for(data: Seq<u8>, secret: Seq<char>) -> StreamAction {
    if !valid_utf8(data) {
        StreamAction::Close
    } else if trim(decode_utf8(data)) == secret {
        StreamAction::Shutdown
    } else {
        StreamAction::Ignore
    }
}

/// Decides what to do with a connection from what was read from it.
pub fn handle_stream(input: &StreamInput, secret: &str) -> (action: StreamAction)
    ensures
        action == match *input {
            StreamInput::Data(data) => action_for(data@, secret@),
            StreamInput::ReadFailed => StreamAction::Close,
        },
{
    match input {
        StreamInput::Data(data) => {
            match text_of_bytes(data) {
                Some(text) => {
                    let sent = trim_chars(&chars_of(text.as_str()));
                    let expected = chars_of(secret);
                    if same_chars(&sent, &expected) {
                        StreamAction::Shutdown
                    } else {
                        StreamAction::Ignore
                    }
                },
                None => StreamAction::Close,
            }
        },
        StreamInput::ReadFailed => StreamAction::Close,
    }
}

/// A peer that sends the secret, with or without white space around it,
/// causes a shutdown, where the secret itself neither starts nor ends with
/// white space; and nothing but text that trims to the secret does.
pub proof fn law_only_the_secret_shuts_down(
    secret: Seq<char>,
    lead: Seq<char>,
    trail: Seq<char>,
    other: Seq<u8>,
)
    requires
        is_trimmed(secret),
        all_space(lead),
        all_space(trail),
    ensures
        action_for(encode_utf8(secret), secret) == StreamAction::Shutdown,
        action_for(encode_utf8(secret + seq!['\n']), secret) == StreamAction::Shutdown,
        action_for(encode_utf8(lead + secret + trail), secret) == StreamAction::Shutdown,
        action_for(other, secret) == StreamAction::Shutdown <==> valid_utf8(other) && trim(
            decode_utf8(other),
        ) == secret,
{
    let empty = Seq::<char>::empty();
    let newline = seq!['\n'];
    encode_utf8_valid_utf8(secret);
    encode_utf8_decode_utf8(secret);
    encode_utf8_valid_utf8(secret + newline);
    encode_utf8_decode_utf8(secret + newline);
    encode_utf8_valid_utf8(lead + secret + trail);
    encode_utf8_decode_utf8(lead + secret + trail);
    lemma_trim_around(lead, secret, trail);
    lemma_trim_around(empty, secret, empty);
    assert(empty + secret + empty =~= secret);
    lemma_trim_around(empty, secret, newline);
    assert(empty + secret + newline =~= secret + newline);
}

/// Whether the listener still accepts connections.
#[derive(Debug, Clone, Copy, PartialEq, Eq, Structural)]
pub enum ListenerState {
    Listening,
    Terminated,
}

/// What happened at the listening socket.
#[derive(Debug, Clone, Copy, PartialEq, Eq, Structural)]
pub enum ListenerEvent {
    /// The socket could not be bound.
    BindFailed,
    /// A connection arrived on the local interface with this address.
    Accepted(IpAddress),
    /// A connection could not be accepted.
    AcceptFailed,
}

/// What the listener does next.
#[derive(Debug, Clone, PartialEq, Eq)]
pub enum ListenerAction {
    /// Give up: the listener cannot start or has ended.
    Fail,
    /// Read the connection in a unit of execution of its own, which gets this
    /// copy of the secret. `expected` says whether the interface is one of
    /// the configured addresses; it is reported and changes nothing else.
    Serve { secret: String, expected: bool },
    /// Report the failure and accept the next connection.
    Skip,
}

/// A listener action as a mathematical value.
pub enum ListenerActionModel {
    Fail,
    Serve { secret: Seq<char>, expected: bool },
    Skip,
}

impl View for ListenerAction {
    type V = ListenerActionModel;

    open spec fn view(&self) -> ListenerActionModel {
        match self {
            ListenerAction::Fail => ListenerActionModel::Fail,
            ListenerAction::Serve { secret, expected } => ListenerActionModel::Serve {
                secret: secret@,
                expected: *expected,
            },
            ListenerAction::Skip => ListenerActionModel::Skip,
        }
    }
}

/// The state after an event. A listener that ended stays so; one that
/// listens ends only where the socket cannot be bound.
pub open spec fn next_state(state: ListenerState, event: ListenerEvent) -> ListenerState {
    match (state, event) {
        (ListenerState::Listening, ListenerEvent::Accepted(_)) => ListenerState::Listening,
        (ListenerState::Listening, ListenerEvent::AcceptFailed) => ListenerState::Listening,
        _ => ListenerState::Terminated,
    }
}

/// The action that an event calls for. Every accepted connection is served,
/// whatever interface it arrived on.
pub open spec fn next_action(
    addresses: Seq<IpAddress>,
    secret: Seq<char>,
    state: ListenerState,
    event: ListenerEvent,
) -> ListenerActionModel {
    match (state, event) {
        (ListenerState::Listening, ListenerEvent::Accepted(interface)) => {
            ListenerActionModel::Serve { secret, expected: addresses.contains(interface) }
        },
        (ListenerState::Listening, ListenerEvent::AcceptFailed) => ListenerActionModel::Skip,
        _ => ListenerActionModel::Fail,
    }
}

/// One step of the accept loop: from the state and what happened at the
/// socket to the next state and what to do.
pub fn run(configuration: &AppConfiguration, state: ListenerState, event: ListenerEvent) -> (step:
    (ListenerState, ListenerAction))
    ensures
        step.0 == next_state(state, event),
        step.1@ == next_action(configuration@.addresses, configuration@.secret, state, event),
{
    match (state, event) {
        (ListenerState::Listening, ListenerEvent::Accepted(interface)) => {
            let expected = has_address(&configuration.addresses, interface);
            (
                ListenerState::Listening,
                ListenerAction::Serve { secret: configuration.secret.clone(), expected },
            )
        },
        (ListenerState::Listening, ListenerEvent::AcceptFailed) => {
            (ListenerState::Listening, ListenerAction::Skip)
        },
        _ => (ListenerState::Terminated, ListenerAction::Fail),
    }
}

/// Whether `address` is among `addresses`.
pub fn has_address(addresses: &Vec<IpAddress>, address: IpAddress) -> (found: bool)
    ensures
        found == addresses@.contains(address),
{
    let mut i: usize = 0;
    while i < addresses.len()
        invariant
            0 <= i <= addresses.len(),
            forall|j: int| 0 <= j < i ==> addresses@[j] != address,
        decreases addresses.len() - i,
    {
        if addresses[i] == address {
            return true;
        }
        i += 1;
    }
    false
}

impl AppConfiguration {
    /// The socket addresses that the listener binds: every interface, at the configured port.
    pub fn to_socket_addrs(&self) -> (addresses: Vec<(IpAddress, u16)>)
        ensures
            addresses@ == seq![(IpAddress::V4(0, 0, 0, 0), self.port_number)],
    {
        let mut addresses: Vec<(IpAddress, u16)> = Vec::new();
        addresses.push((IpAddress::V4(0, 0, 0, 0), self.port_number));
        proof {
            assert(addresses@ =~= seq![(IpAddress::V4(0, 0, 0, 0), self.port_number)]);
        }
        addresses
    }
}

} // verus!
