//! Joining the wireless network: what the station is configured with, and
//! the policy by which connecting is tried, waited for and tried again.
//!
//! The policy performs nothing itself. It says what to do next; the caller
//! does it and reports what came of it.

use vstd::prelude::*;
use crate::text::{byte_len, push_decimal, decimal};

verus! {

/// Bytes that the station's configuration holds of a network name.
pub const SSID_CAPACITY: usize = 32;

/// Bytes that the station's configuration holds of a passphrase.
pub const PASSWORD_CAPACITY: usize = 64;

/// How often connecting is tried.
pub const MAX_RETRIES: u32 = 3;

/// How many seconds each try waits for the link and an address.
pub const MAX_WAIT_SECONDS: u32 = 15;

/// How the station authenticates.
#[derive(Debug, Clone, Copy, PartialEq, Eq, Structural)]
pub enum AuthMethod {
    /// No authentication: an open network.
    Open,
    WPA2Personal,
}

/// What the station is configured with.
#[derive(Debug, Clone, PartialEq, Eq)]
pub struct Credentials {
    pub ssid: String,
    pub password: String,
    pub auth_method: AuthMethod,
}

/// Why a network name and a passphrase make no configuration.
#[derive(Debug, Clone, Copy, PartialEq, Eq, Structural)]
pub enum CredentialError {
    SsidTooLong,
    PasswordTooLong,
}

/// `heapless::String::<N>::push_str` on a new, empty string: whether `text`
/// goes into a string of capacity `N`. It does where its UTF-8 encoding takes
/// no more than `N` bytes.
#[verifier::external_body]
fn fits_capacity<const N: usize>(text: &str) -> (fits: bool)
    ensures
        fits == (byte_len(text@) <= N),
{
    heapless::String::<N>::new().push_str(text).is_ok()
}

/// The method by which a network with the given passphrase is joined: none
/// for an empty passphrase.
pub open spec fn auth_method_for(password: Seq<char>) -> AuthMethod {
    if password.len() == 0 {
        AuthMethod::Open
    } else {
        AuthMethod::WPA2Personal
    }
}

/// Why `ssid` and `password` make no configuration, if they make none. The
/// name is looked at first.
pub open spec fn credential_error(ssid: Seq<char>, password: Seq<char>) -> Option<
    CredentialError,
> {
    if byte_len(ssid) > SSID_CAPACITY {
        Some(CredentialError::SsidTooLong)
    } else if byte_len(password) > PASSWORD_CAPACITY {
        Some(CredentialError::PasswordTooLong)
    } else {
        None
    }
}

/// The station's configuration for the network `ssid` with the passphrase
/// `password`, where both are short enough for it.
pub fn client_credentials(ssid: &str, password: &str) -> (r: Result<Credentials, CredentialError>)
    ensures
        match credential_error(ssid@, password@) {
            Some(e) => r == Err::<Credentials, CredentialError>(e),
            None => r matches Ok(c) && c.ssid@ == ssid@ && c.password@ == password@
                && c.auth_method == auth_method_for(password@),
        },
{
    if !fits_capacity::<32>(ssid) {
        return Err(CredentialError::SsidTooLong);
    }
    if !fits_capacity::<64>(password) {
        return Err(CredentialError::PasswordTooLong);
    }
    let auth_method = if password.is_empty() {
        AuthMethod::Open
    } else {
        AuthMethod::WPA2Personal
    };
    Ok(
        Credentials {
            ssid: String::from_str(ssid),
            password: String::from_str(password),
            auth_method,
        },
    )
}

/// The words of the failure to join `ssid`.
pub open spec fn failure_message(ssid: Seq<char>) -> Seq<char> {
    "Failed to connect to WiFi '"@ + ssid + "' after "@ + decimal(MAX_RETRIES as nat)
        + " attempts"@
}

/// The words of the failure to join `ssid`.
pub fn connect_failure(ssid: &str) -> (text: String)
    ensures
        text@ == failure_message(ssid@),
{
    let mut text = String::from_str("Failed to connect to WiFi '");
    text.append(ssid);
    text.append("' after ");
    push_decimal(&mut text, MAX_RETRIES as u64);
    text.append(" attempts");
    text
}

/// Where a connection attempt stands.
#[derive(Debug, Clone, Copy, PartialEq, Eq, Structural)]
pub enum Phase {
    /// The station was asked to connect; the outcome is awaited.
    Connecting,
    /// The station connects; link and address are polled once a second.
    Waiting,
    /// Nothing more is tried.
    Done,
}

/// What the caller reports.
#[derive(Debug, Clone, Copy, PartialEq, Eq, Structural)]
pub enum WifiEvent {
    /// Whether the request to connect was accepted.
    ConnectOutcome { accepted: bool },
    /// What a poll found: whether the link is up, and the station's IPv4
    /// address if it could be read.
    LinkStatus { link_up: bool, address: Option<u32> },
}

/// What the caller is to do, in the order given.
#[derive(Debug, Clone, Copy, PartialEq, Eq, Structural)]
pub enum WifiAction {
    /// Ask the station to connect, and report the outcome.
    Connect,
    /// Sleep for a second, then poll link and address and report them.
    Poll,
    /// Disconnect the station.
    Disconnect,
    /// Sleep.
    Sleep { seconds: u32 },
    /// Stop: the network is joined.
    Succeed,
    /// Stop: the network could not be joined.
    Fail,
}

/// The state of the connection policy.
#[derive(Debug, Clone, Copy, PartialEq, Eq, Structural)]
pub struct ConnectPolicy {
    pub phase: Phase,
    /// The current attempt, counted from one.
    pub attempt: u32,
    /// Polls made in the current attempt.
    pub polls: u32,
    /// Whether the link was seen up in any attempt.
    pub connected: bool,
}

/// Whether an address is one that was assigned: any but `0.0.0.0`.
pub open spec fn is_assigned(address: Option<u32>) -> bool {
    address matches Some(a) && a != 0
}

/// The attempt and the poll count stay within their limits.
pub open spec fn policy_wf(p: ConnectPolicy) -> bool {
    1 <= p.attempt <= MAX_RETRIES && p.polls < MAX_WAIT_SECONDS
}

/// A policy that is done, with the verdict on whether the network is joined.
pub open spec fn concluded(p: ConnectPolicy, before: Seq<WifiAction>) -> (
    ConnectPolicy,
    Seq<WifiAction>,
) {
    (
        ConnectPolicy { phase: Phase::Done, polls: 0, ..p },
        before.push(
            if p.connected {
                WifiAction::Succeed
            } else {
                WifiAction::Fail
            },
        ),
    )
}

/// Goes on to the next attempt after `before`, or concludes where the
/// attempts are used up.
pub open spec fn next_attempt(p: ConnectPolicy, before: Seq<WifiAction>) -> (
    ConnectPolicy,
    Seq<WifiAction>,
) {
    if p.attempt < MAX_RETRIES {
        (
            ConnectPolicy {
                phase: Phase::Connecting,
                attempt: (p.attempt + 1) as u32,
                polls: 0,
                ..p
            },
            before.push(WifiAction::Connect),
        )
    } else {
        concluded(p, before)
    }
}

/// The policy's reaction to an event.
///
/// A request to connect that was refused is followed, after two seconds, by
/// the next attempt. One that was accepted is followed by up to fifteen
/// polls. A poll that finds the link up and an address assigned concludes
/// with success. When the polls of an attempt are used up, a station whose
/// link was seen up is disconnected for a second, and the next attempt
/// follows. When the attempts are used up, the network counts as joined if
/// the link was ever seen up.
pub open spec fn policy_step(p: ConnectPolicy, event: WifiEvent) -> (
    ConnectPolicy,
    Seq<WifiAction>,
) {
    match (p.phase, event) {
        (Phase::Connecting, WifiEvent::ConnectOutcome { accepted }) => if accepted {
            (ConnectPolicy { phase: Phase::Waiting, polls: 0, ..p }, seq![WifiAction::Poll])
        } else {
            next_attempt(p, seq![WifiAction::Sleep { seconds: 2 }])
        },
        (Phase::Waiting, WifiEvent::LinkStatus { link_up, address }) => {
            let seen = ConnectPolicy { connected: p.connected || link_up, ..p };
            if link_up && is_assigned(address) {
                concluded(seen, seq![])
            } else if p.polls + 1 < MAX_WAIT_SECONDS {
                (ConnectPolicy { polls: (p.polls + 1) as u32, ..seen }, seq![WifiAction::Poll])
            } else if seen.connected {
                next_attempt(seen, seq![WifiAction::Disconnect, WifiAction::Sleep { seconds: 1 }])
            } else {
                next_attempt(seen, seq![])
            }
        },
        _ => (p, seq![]),
    }
}

impl ConnectPolicy {
    /// The policy before the first attempt, and the request to connect that
    /// opens it.
    pub fn start() -> (r: (ConnectPolicy, Vec<WifiAction>))
        ensures
            policy_wf(r.0),
            r.0 == (ConnectPolicy {
                phase: Phase::Connecting,
                attempt: 1,
                polls: 0,
                connected: false,
            }),
            r.1@ == seq![WifiAction::Connect],
    {
        let mut actions: Vec<WifiAction> = Vec::new();
        actions.push(WifiAction::Connect);
        (
            ConnectPolicy { phase: Phase::Connecting, attempt: 1, polls: 0, connected: false },
            actions,
        )
    }

    /// Whether the attempt and the poll count are within their limits.
    pub fn is_valid(&self) -> (r: bool)
        ensures
            r == policy_wf(*self),
    {
        1 <= self.attempt && self.attempt <= MAX_RETRIES && self.polls < MAX_WAIT_SECONDS
    }

    fn conclude(&mut self, actions: &mut Vec<WifiAction>)
        requires
            policy_wf(*old(self)),
        ensures
            policy_wf(*final(self)),
            (*final(self), final(actions)@) == concluded(*old(self), old(actions)@),
    {
        self.phase = Phase::Done;
        self.polls = 0;
        if self.connected {
            actions.push(WifiAction::Succeed);
        } else {
            actions.push(WifiAction::Fail);
        }
    }

    fn advance(&mut self, actions: &mut Vec<WifiAction>)
        requires
            policy_wf(*old(self)),
        ensures
            policy_wf(*final(self)),
            (*final(self), final(actions)@) == next_attempt(*old(self), old(actions)@),
    {
        if self.attempt < MAX_RETRIES {
            self.phase = Phase::Connecting;
            self.attempt = self.attempt + 1;
            self.polls = 0;
            actions.push(WifiAction::Connect);
        } else {
            self.conclude(actions);
        }
    }

    /// Reacts to what the caller reports; see [`policy_step`]. An event that
    /// does not answer what was asked last changes nothing.
    pub fn step(&mut self, event: WifiEvent) -> (actions: Vec<WifiAction>)
        requires
            policy_wf(*old(self)),
        ensures
            policy_wf(*final(self)),
            (*final(self), actions@) == policy_step(*old(self), event),
    {
        let mut actions: Vec<WifiAction> = Vec::new();
        match (self.phase, event) {
            (Phase::Connecting, WifiEvent::ConnectOutcome { accepted }) => {
                if accepted {
                    self.phase = Phase::Waiting;
                    self.polls = 0;
                    actions.push(WifiAction::Poll);
                } else {
                    actions.push(WifiAction::Sleep { seconds: 2 });
                    self.advance(&mut actions);
                }
            },
            (Phase::Waiting, WifiEvent::LinkStatus { link_up, address }) => {
                if link_up {
                    self.connected = true;
                }
                let assigned = match address {
                    Some(a) => a != 0,
                    None => false,
                };
                if link_up && assigned {
                    self.conclude(&mut actions);
                } else if self.polls + 1 < MAX_WAIT_SECONDS {
                    self.polls = self.polls + 1;
                    actions.push(WifiAction::Poll);
                } else if self.connected {
                    actions.push(WifiAction::Disconnect);
                    actions.push(WifiAction::Sleep { seconds: 1 });
                    self.advance(&mut actions);
                } else {
                    self.advance(&mut actions);
                }
            },
            _ => {},
        }
        actions
    }
}

/// The policy tries no more often than it may: an attempt is followed by a
/// later one or by none, and a policy that is done stays done and asks for
/// nothing.
pub proof fn law_policy_bounded(p: ConnectPolicy, event: WifiEvent)
    requires
        policy_wf(p),
    ensures
        policy_wf(policy_step(p, event).0),
        policy_step(p, event).0.attempt == p.attempt || policy_step(p, event).0.attempt
            == p.attempt + 1,
        p.connected ==> policy_step(p, event).0.connected,
        p.phase == Phase::Done ==> policy_step(p, event) == (p, Seq::<WifiAction>::empty()),
        forall|i: int|
            0 <= i < policy_step(p, event).1.len() && #[trigger] policy_step(p, event).1[i]
                == WifiAction::Succeed ==> policy_step(p, event).0.connected
                && policy_step(p, event).0.phase == Phase::Done,
{
}

} // verus!
