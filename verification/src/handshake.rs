//! HandshakeProtocol: the multi-step connect sequence, as a state machine.
//!
//! The machine owns no socket. `begin` yields the machine and the connect
//! frame to write; the caller then alternates: read exactly
//! `expected_read()` bytes from the transport, hand them to `feed`, and
//! perform what the returned step asks — write bytes, read again, or take
//! the daemon-assigned private name of the completed session. The sequence
//! is single-attempt with no retries; a transport failure aborts it, and
//! the caller surfaces that as `ConnectionFailed`.

use crate::codec::{encode_connect_message, spec_connect_frame};
use crate::error::SpreadError;
use crate::text::{latin1_encodable, latin1_encode, latin1_seq, utf8_decode};
use vstd::prelude::*;

verus! {

/// The port a Spread daemon conventionally listens on.
pub const DEFAULT_SPREAD_PORT: i16 = 4803;

/// Longest auth-method name the daemon may offer.
pub const MAX_AUTH_NAME_LENGTH: usize = 30;

/// Most auth methods the daemon may offer.
pub const MAX_AUTH_METHOD_COUNT: usize = 3;

/// The status byte with which the daemon accepts a session.
pub const ACCEPT_SESSION: u8 = 1;

/// Lowest combined daemon version (major * 10000 + minor * 100 + patch)
/// the client supports.
pub const MIN_VERSION_SUM: u32 = 30100;

/// The protocol state between two reads of the connect sequence.
#[derive(Clone, Copy, Debug, PartialEq, Eq, Structural)]
pub enum HandshakeState {
    /// Awaiting the 1-byte length of the daemon's auth-method list.
    AwaitAuthLen,
    /// Awaiting the offered auth-method list itself.
    AwaitAuthMethods {
        /// Length of the list, from the byte before.
        count: u8,
    },
    /// Awaiting the 1-byte session acceptance code.
    AwaitAccept,
    /// Awaiting the daemon's 3-byte version triple.
    AwaitVersion,
    /// Awaiting the 1-byte length of the assigned private name.
    AwaitNameLen,
    /// Awaiting the assigned private name itself.
    AwaitName {
        /// Length of the name, from the byte before.
        count: u8,
    },
    /// The daemon accepted the session; the sequence is over.
    Complete,
    /// The sequence failed; the attempt is over, with no retry.
    Failed,
}

/// What the caller must do next to advance the handshake.
#[derive(Debug, PartialEq)]
pub enum HandshakeStep {
    /// Write these bytes, then read `expected_read()` more.
    Send(Vec<u8>),
    /// Read `expected_read()` bytes and feed them back.
    Read,
    /// The daemon accepted the session under this private name, which may
    /// differ from the requested one if the daemon renamed it for
    /// uniqueness.
    Done(String),
}

/// The values a `HandshakeStep` carries, at the spec level.
pub enum SpecHandshakeStep {
    /// Write these bytes next.
    Send(Seq<u8>),
    /// Read the next expected count of bytes.
    Read,
    /// The session is accepted under this private name.
    Done(Seq<char>),
}

/// Whether an executable step carries the values its spec-level mirror
/// describes.
pub open spec fn step_matches(step: HandshakeStep, s: SpecHandshakeStep) -> bool {
    match (step, s) {
        (HandshakeStep::Send(b), SpecHandshakeStep::Send(sb)) => b@ == sb,
        (HandshakeStep::Read, SpecHandshakeStep::Read) => true,
        (HandshakeStep::Done(n), SpecHandshakeStep::Done(sn)) => n@ == sn,
        _ => false,
    }
}

/// A daemon status byte sign-extended into a 32-bit error code.
pub open spec fn spec_sign_extend(b: u8) -> i32 {
    (0xffffff00u32 | b as u32) as i32
}

/// The bytes of the auth-choice message: the encoded literal `"NULL"`
/// followed by zero padding, so the total equals one byte more than the
/// room for every offered method name, whatever the daemon offered.
pub open spec fn spec_auth_choice() -> Seq<u8> {
    latin1_seq("NULL"@) + Seq::new(87, |_i: int| 0u8)
}

/// The combined version number of a daemon version triple.
pub open spec fn spec_version_sum(major: u8, minor: u8, patch: u8) -> int {
    major * 10000 + minor * 100 + patch
}

/// How many bytes the machine expects to be fed in a state.
pub open spec fn spec_expected_read(s: HandshakeState) -> nat {
    match s {
        HandshakeState::AwaitAuthLen => 1,
        HandshakeState::AwaitAuthMethods { count } => count as nat,
        HandshakeState::AwaitAccept => 1,
        HandshakeState::AwaitVersion => 3,
        HandshakeState::AwaitNameLen => 1,
        HandshakeState::AwaitName { count } => count as nat,
        HandshakeState::Complete => 0,
        HandshakeState::Failed => 0,
    }
}

/// One transition of the connect sequence: from a live state and the bytes
/// just read, either the next state with the step the caller performs, or
/// the failure that ends the attempt.
///
/// The daemon rejects through a status byte in two places: an auth-length
/// byte of 128 or more, and an acceptance byte other than `ACCEPT_SESSION`;
/// both carry the sign-extended byte as the refusal code. A version triple
/// summing below `MIN_VERSION_SUM` is unsupported, and an assigned name
/// that is not valid UTF-8 is a malformed response.
pub open spec fn spec_handshake_transition(s: HandshakeState, bytes: Seq<u8>) -> Result<
    (HandshakeState, SpecHandshakeStep),
    SpreadError,
>
    recommends
        bytes.len() == spec_expected_read(s),
        !(s is Complete),
        !(s is Failed),
{
    match s {
        HandshakeState::AwaitAuthLen => {
            if bytes[0] >= 128 {
                Err(SpreadError::ConnectionRefused(spec_sign_extend(bytes[0])))
            } else {
                Ok(
                    (
                        HandshakeState::AwaitAuthMethods { count: bytes[0] },
                        SpecHandshakeStep::Read,
                    ),
                )
            }
        },
        HandshakeState::AwaitAuthMethods { count } => {
            Ok((HandshakeState::AwaitAccept, SpecHandshakeStep::Send(spec_auth_choice())))
        },
        HandshakeState::AwaitAccept => {
            if bytes[0] != 1 {
                Err(SpreadError::ConnectionRefused(spec_sign_extend(bytes[0])))
            } else {
                Ok((HandshakeState::AwaitVersion, SpecHandshakeStep::Read))
            }
        },
        HandshakeState::AwaitVersion => {
            if spec_version_sum(bytes[0], bytes[1], bytes[2]) < 30100 {
                Err(SpreadError::ProtocolVersionUnsupported)
            } else {
                Ok((HandshakeState::AwaitNameLen, SpecHandshakeStep::Read))
            }
        },
        HandshakeState::AwaitNameLen => {
            Ok((HandshakeState::AwaitName { count: bytes[0] }, SpecHandshakeStep::Read))
        },
        HandshakeState::AwaitName { count } => {
            if vstd::utf8::valid_utf8(bytes) {
                Ok(
                    (
                        HandshakeState::Complete,
                        SpecHandshakeStep::Done(vstd::utf8::decode_utf8(bytes)),
                    ),
                )
            } else {
                Err(SpreadError::MalformedServerResponse)
            }
        },
        HandshakeState::Complete => Err(SpreadError::ConnectionFailed),
        HandshakeState::Failed => Err(SpreadError::ConnectionFailed),
    }
}

/// Build the auth-choice message: only the "no-auth" method is supported,
/// so the choice is always the literal `"NULL"` padded with zeros to the
/// fixed total length.
fn auth_choice_message() -> (r: Vec<u8>)
    ensures
        r@ == spec_auth_choice(),
{
    proof {
        reveal_strlit("NULL");
    }
    let mut v = match latin1_encode("NULL") {
        Some(enc) => enc,
        None => {
            proof {
                assert(false);
            }
            Vec::new()
        },
    };
    let ghost head = latin1_seq("NULL"@);
    let total = MAX_AUTH_NAME_LENGTH * MAX_AUTH_METHOD_COUNT + 1;
    while v.len() < total
        invariant
            total == 91,
            head.len() == 4,
            head.len() <= v@.len() <= 91,
            v@ == head + Seq::new((v@.len() - head.len()) as nat, |_i: int| 0u8),
        decreases 91 - v@.len(),
    {
        v.push(0);
        proof {
            assert(v@ =~= head + Seq::new((v@.len() - head.len()) as nat, |_i: int| 0u8));
        }
    }
    proof {
        assert(v@ =~= spec_auth_choice());
    }
    v
}

/// A daemon status byte sign-extended into the 32-bit refusal code, by
/// OR-ing the high bytes full and reinterpreting as signed.
fn sign_extend(b: u8) -> (r: i32)
    ensures
        r == spec_sign_extend(b),
{
    (0xffffff00u32 | b as u32) as i32
}

/// The connect sequence in progress: what the daemon is expected to send
/// next.
pub struct Handshake {
    /// The protocol state between reads.
    pub state: HandshakeState,
}

impl Handshake {
    /// Start a connect attempt: returns the machine, in its first awaiting
    /// state, and the connect frame the caller writes before the first
    /// read. Fails only when the requested private name cannot be
    /// represented in the wire codec.
    pub fn begin(private_name: &str, receive_membership_messages: bool) -> (r: Result<
        (Handshake, Vec<u8>),
        SpreadError,
    >)
        ensures
            r is Ok <==> latin1_encodable(private_name@),
            r is Ok ==> r->Ok_0.0.state == HandshakeState::AwaitAuthLen,
            r is Ok ==> r->Ok_0.1@ == spec_connect_frame(private_name@, receive_membership_messages),
            r is Err ==> r->Err_0 == SpreadError::EncodingFailed,
    {
        match encode_connect_message(private_name, receive_membership_messages) {
            Ok(frame) => Ok((Handshake { state: HandshakeState::AwaitAuthLen }, frame)),
            Err(e) => Err(e),
        }
    }

    /// How many bytes the caller must read before the next `feed`.
    pub fn expected_read(&self) -> (r: usize)
        ensures
            r == spec_expected_read(self.state),
    {
        match self.state {
            HandshakeState::AwaitAuthLen => 1,
            HandshakeState::AwaitAuthMethods { count } => count as usize,
            HandshakeState::AwaitAccept => 1,
            HandshakeState::AwaitVersion => 3,
            HandshakeState::AwaitNameLen => 1,
            HandshakeState::AwaitName { count } => count as usize,
            HandshakeState::Complete => 0,
            HandshakeState::Failed => 0,
        }
    }

    /// Consume the bytes of one read and advance the sequence, exactly as
    /// `spec_handshake_transition` describes: on success the machine moves
    /// to the next awaiting state and hands back the step to perform; on a
    /// refusal, an unsupported version, or a malformed name the machine is
    /// failed for good and the error says which.
    pub fn feed(&mut self, bytes: &Vec<u8>) -> (r: Result<HandshakeStep, SpreadError>)
        requires
            !(old(self).state is Complete),
            !(old(self).state is Failed),
            bytes@.len() == spec_expected_read(old(self).state),
        ensures
            match spec_handshake_transition(old(self).state, bytes@) {
                Ok((next, step)) => {
                    &&& r is Ok
                    &&& final(self).state == next
                    &&& step_matches(r->Ok_0, step)
                },
                Err(e) => {
                    &&& r == Err::<HandshakeStep, SpreadError>(e)
                    &&& final(self).state is Failed
                },
            },
    {
        match self.state {
            HandshakeState::AwaitAuthLen => {
                let l = bytes[0];
                if l >= 128 {
                    self.state = HandshakeState::Failed;
                    Err(SpreadError::ConnectionRefused(sign_extend(l)))
                } else {
                    self.state = HandshakeState::AwaitAuthMethods { count: l };
                    Ok(HandshakeStep::Read)
                }
            },
            HandshakeState::AwaitAuthMethods { count: _ } => {
                self.state = HandshakeState::AwaitAccept;
                Ok(HandshakeStep::Send(auth_choice_message()))
            },
            HandshakeState::AwaitAccept => {
                let b = bytes[0];
                if b != ACCEPT_SESSION {
                    self.state = HandshakeState::Failed;
                    Err(SpreadError::ConnectionRefused(sign_extend(b)))
                } else {
                    self.state = HandshakeState::AwaitVersion;
                    Ok(HandshakeStep::Read)
                }
            },
            HandshakeState::AwaitVersion => {
                let sum: u32 = (bytes[0] as u32) * 10000 + (bytes[1] as u32) * 100 + (
                bytes[2] as u32);
                if sum < MIN_VERSION_SUM {
                    self.state = HandshakeState::Failed;
                    Err(SpreadError::ProtocolVersionUnsupported)
                } else {
                    self.state = HandshakeState::AwaitNameLen;
                    Ok(HandshakeStep::Read)
                }
            },
            HandshakeState::AwaitNameLen => {
                self.state = HandshakeState::AwaitName { count: bytes[0] };
                Ok(HandshakeStep::Read)
            },
            HandshakeState::AwaitName { count: _ } => {
                match utf8_decode(bytes.as_slice()) {
                    Some(name) => {
                        self.state = HandshakeState::Complete;
                        Ok(HandshakeStep::Done(name))
                    },
                    None => {
                        self.state = HandshakeState::Failed;
                        Err(SpreadError::MalformedServerResponse)
                    },
                }
            },
            HandshakeState::Complete => {
                proof {
                    assert(false);
                }
                Err(SpreadError::ConnectionFailed)
            },
            HandshakeState::Failed => {
                proof {
                    assert(false);
                }
                Err(SpreadError::ConnectionFailed)
            },
        }
    }
}

} // verus!
