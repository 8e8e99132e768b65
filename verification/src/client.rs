//! SessionClient: the session state and the builders for the four outbound
//! operations.
//!
//! The session does not own a socket: each operation returns the exact frame
//! to be written, so the caller owning the transport performs the single
//! blocking write. Success of that write means "written", not
//! "acknowledged"; the protocol is asynchronous for these operations.

use crate::codec::{
    groups_encodable, pad_to_slot, spec_frame_bytes, JOIN_MESSAGE, KILL_MESSAGE, LEAVE_MESSAGE,
    RELIABLE_MESSAGE,
};
use crate::error::SpreadError;
use crate::text::{latin1_encodable, latin1_encode};
use crate::util::int_to_bytes;
use vstd::prelude::*;

verus! {

/// A client session with a Spread daemon, created by a completed handshake.
///
/// `groups` is a local request log: both `join` and `leave` append the
/// group name they were asked to send a frame for, without deduplication or
/// removal. It records what was requested, not confirmed membership.
pub struct SpreadClient {
    /// The daemon-assigned private name of this session.
    pub private_name: String,
    /// The append-only log of group names handed to `join` and `leave`.
    pub groups: Vec<String>,
    /// Whether the connect request asked to receive membership messages.
    pub receive_membership_messages: bool,
}

impl SpreadClient {
    /// Assemble the session that a completed handshake yields: the
    /// daemon-assigned private name and an empty request log.
    pub fn new(private_name: String, receive_membership_messages: bool) -> (r: SpreadClient)
        ensures
            r.private_name == private_name,
            r.groups@ == Seq::<String>::empty(),
            r.receive_membership_messages == receive_membership_messages,
    {
        SpreadClient { private_name, groups: Vec::new(), receive_membership_messages }
    }

    /// Encode a service frame for dispatch to a Spread daemon: service-type
    /// word, 32-byte sender slot, group count, reserved zero word, payload
    /// length, the 32-byte group slots in order, then the payload.
    ///
    /// Succeeds exactly when the sender and every group name are Latin-1
    /// encodable; otherwise the result is `EncodingFailed`.
    pub fn encode_message(
        service_type: u32,
        private_name: &str,
        groups: &[&str],
        data: &[u8],
    ) -> (r: Result<Vec<u8>, SpreadError>)
        requires
            groups@.len() <= u32::MAX,
            data@.len() <= u32::MAX,
        ensures
            r is Ok <==> latin1_encodable(private_name@) && groups_encodable(groups.deep_view()),
            r is Ok ==> r->Ok_0@ == spec_frame_bytes(
                service_type,
                private_name@,
                groups.deep_view(),
                data@,
            ),
            r is Err ==> r->Err_0 == SpreadError::EncodingFailed,
    {
        let ghost gs = groups.deep_view();
        let mut v: Vec<u8> = Vec::new();
        let mut word = int_to_bytes(service_type);
        v.append(&mut word);
        let sender_enc = match latin1_encode(private_name) {
            Some(b) => b,
            None => {
                return Err(SpreadError::EncodingFailed);
            },
        };
        let mut sender_slot = pad_to_slot(sender_enc);
        v.append(&mut sender_slot);
        let mut word = int_to_bytes(groups.len() as u32);
        v.append(&mut word);
        let mut word = int_to_bytes(0);
        v.append(&mut word);
        let mut word = int_to_bytes(data.len() as u32);
        v.append(&mut word);
        let ghost prefix = v@;
        let mut idx: usize = 0;
        while idx < groups.len()
            invariant
                idx <= groups@.len() == gs.len(),
                gs == groups.deep_view(),
                forall|i: int| 0 <= i < gs.len() ==> gs[i] == #[trigger] groups@[i]@,
                groups_encodable(gs.take(idx as int)),
                v@ == prefix + crate::codec::group_slots(gs.take(idx as int)),
            decreases groups@.len() - idx,
        {
            let g: &str = groups[idx];
            let enc = match latin1_encode(g) {
                Some(b) => b,
                None => {
                    proof {
                        assert(!latin1_encodable(gs[idx as int]));
                    }
                    return Err(SpreadError::EncodingFailed);
                },
            };
            let mut slot = pad_to_slot(enc);
            v.append(&mut slot);
            proof {
                assert(gs.take(idx + 1).drop_last() =~= gs.take(idx as int));
                assert(gs.take(idx + 1).last() == gs[idx as int]);
                assert(v@ == prefix + crate::codec::group_slots(gs.take(idx + 1)));
            }
            idx = idx + 1;
        }
        let mut payload = vstd::slice::slice_to_vec(data);
        v.append(&mut payload);
        proof {
            assert(gs.take(gs.len() as int) =~= gs);
            assert(v@ =~= spec_frame_bytes(service_type, private_name@, gs, data@));
        }
        Ok(v)
    }

    /// Build the Join frame for a named group and log the request.
    ///
    /// The frame carries the session's private name as sender, the single
    /// group to join, and no payload. The group name is appended to the
    /// request log as soon as the frame is built; a caller whose write then
    /// fails keeps the logged entry, mirroring the optimistic bookkeeping
    /// this protocol client always had.
    pub fn join(&mut self, group_name: &str) -> (r: Result<Vec<u8>, SpreadError>)
        ensures
            r is Ok <==> latin1_encodable(old(self).private_name@) && latin1_encodable(
                group_name@,
            ),
            r is Ok ==> r->Ok_0@ == spec_frame_bytes(
                JOIN_MESSAGE,
                old(self).private_name@,
                seq![group_name@],
                Seq::<u8>::empty(),
            ),
            r is Ok ==> final(self).groups.deep_view() == old(self).groups.deep_view().push(
                group_name@,
            ),
            r is Ok ==> final(self).private_name == old(self).private_name,
            r is Ok ==> final(self).receive_membership_messages == old(
                self,
            ).receive_membership_messages,
            r is Err ==> r->Err_0 == SpreadError::EncodingFailed && *final(self) == *old(self),
    {
        let frame = Self::control_frame(JOIN_MESSAGE, self.private_name.as_str(), group_name);
        match frame {
            Ok(f) => {
                self.groups.push(group_name.to_owned());
                proof {
                    assert(final(self).groups.deep_view() =~= old(self).groups.deep_view().push(
                        group_name@,
                    ));
                }
                Ok(f)
            },
            Err(e) => Err(e),
        }
    }

    /// Build the Leave frame for a named group and log the request.
    ///
    /// Symmetric to `join`, including the bookkeeping: the name is appended
    /// to the same request log, never removed from it.
    pub fn leave(&mut self, group_name: &str) -> (r: Result<Vec<u8>, SpreadError>)
        ensures
            r is Ok <==> latin1_encodable(old(self).private_name@) && latin1_encodable(
                group_name@,
            ),
            r is Ok ==> r->Ok_0@ == spec_frame_bytes(
                LEAVE_MESSAGE,
                old(self).private_name@,
                seq![group_name@],
                Seq::<u8>::empty(),
            ),
            r is Ok ==> final(self).groups.deep_view() == old(self).groups.deep_view().push(
                group_name@,
            ),
            r is Ok ==> final(self).private_name == old(self).private_name,
            r is Ok ==> final(self).receive_membership_messages == old(
                self,
            ).receive_membership_messages,
            r is Err ==> r->Err_0 == SpreadError::EncodingFailed && *final(self) == *old(self),
    {
        let frame = Self::control_frame(LEAVE_MESSAGE, self.private_name.as_str(), group_name);
        match frame {
            Ok(f) => {
                self.groups.push(group_name.to_owned());
                proof {
                    assert(final(self).groups.deep_view() =~= old(self).groups.deep_view().push(
                        group_name@,
                    ));
                }
                Ok(f)
            },
            Err(e) => Err(e),
        }
    }

    /// Build the reliable multicast frame carrying `data` to the named
    /// groups. No client-side length limit is applied beyond what the
    /// 32-bit wire fields can carry; the daemon enforces its own.
    pub fn multicast(&mut self, groups: &[&str], data: &[u8]) -> (r: Result<Vec<u8>, SpreadError>)
        requires
            groups@.len() <= u32::MAX,
            data@.len() <= u32::MAX,
        ensures
            r is Ok <==> latin1_encodable(old(self).private_name@) && groups_encodable(
                groups.deep_view(),
            ),
            r is Ok ==> r->Ok_0@ == spec_frame_bytes(
                RELIABLE_MESSAGE,
                old(self).private_name@,
                groups.deep_view(),
                data@,
            ),
            r is Err ==> r->Err_0 == SpreadError::EncodingFailed,
            *final(self) == *old(self),
    {
        Self::encode_message(RELIABLE_MESSAGE, self.private_name.as_str(), groups, data)
    }

    /// Build the Kill frame that disconnects this session: its single
    /// recipient group is the session's own private name, and it carries no
    /// payload.
    ///
    /// Disconnecting consumes the session, so no further frames can be
    /// built for a stream the daemon is about to tear down; the caller
    /// still owns the transport and closes it separately.
    pub fn disconnect(self) -> (r: Result<Vec<u8>, SpreadError>)
        ensures
            r is Ok <==> latin1_encodable(self.private_name@),
            r is Ok ==> r->Ok_0@ == spec_frame_bytes(
                KILL_MESSAGE,
                self.private_name@,
                seq![self.private_name@],
                Seq::<u8>::empty(),
            ),
            r is Err ==> r->Err_0 == SpreadError::EncodingFailed,
    {
        let name = self.private_name.as_str();
        Self::control_frame(KILL_MESSAGE, name, name)
    }

    /// Build a control frame whose only group is `group_name` and whose
    /// payload is empty.
    fn control_frame(service_type: u32, private_name: &str, group_name: &str) -> (r: Result<
        Vec<u8>,
        SpreadError,
    >)
        ensures
            r is Ok <==> latin1_encodable(private_name@) && latin1_encodable(group_name@),
            r is Ok ==> r->Ok_0@ == spec_frame_bytes(
                service_type,
                private_name@,
                seq![group_name@],
                Seq::<u8>::empty(),
            ),
            r is Err ==> r->Err_0 == SpreadError::EncodingFailed,
    {
        let group_list: [&str; 1] = [group_name];
        let group_slice: &[&str] = group_list.as_slice();
        let empty_payload: Vec<u8> = Vec::new();
        proof {
            assert(group_slice.deep_view() =~= seq![group_name@]);
            let gl = seq![group_name@];
            assert(gl[0] == group_name@);
            if latin1_encodable(group_name@) {
                assert forall|i: int| 0 <= i < gl.len() implies latin1_encodable(
                    #[trigger] gl[i],
                ) by {
                    assert(gl[i] == group_name@);
                }
                assert(groups_encodable(gl));
            } else {
                assert(!groups_encodable(gl));
            }
        }
        Self::encode_message(service_type, private_name, group_slice, empty_payload.as_slice())
    }
}

} // verus!
