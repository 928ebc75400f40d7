//! The externally visible signaling operations.
//!
//! Each handler takes the typed fields of one request, validates them,
//! authenticates against the registry where a secret is required, and then
//! reads or writes the mailboxes. A failed secret check is answered with
//! `AuthOutcome::Unauthenticated` and changes nothing; it is never an
//! error.

use crate::redis_helper::RedisHelper;
use crate::redis_helper::DRAIN_CAP;
use crate::redis_helper::SESSION_TTL_SECONDS;
use crate::errors::AuthOutcome;
use crate::errors::BrokerError;
use crate::frames::client_ice_frame;
use crate::random_util::generate_name;
use crate::random_util::is_secret_token;
use crate::random_util::spec_name_of;
use crate::random_util::WORDS_PER_LIST;
use vstd::prelude::*;

verus! {

/// How many fresh name candidates a registration may try before giving up.
pub const NAME_RETRY_BUDGET: usize = 1000;

/// Every three-word candidate name is still unregistered.
pub open spec fn all_names_free(b: RedisHelper) -> bool {
    forall|i: int, j: int, k: int|
        0 <= i < WORDS_PER_LIST && 0 <= j < WORDS_PER_LIST && 0 <= k < WORDS_PER_LIST
            ==> !b.spec_has_session(#[trigger] spec_name_of(i, j, k))
}

/// Every three-word candidate name is already registered.
pub open spec fn all_names_taken(b: RedisHelper) -> bool {
    forall|i: int, j: int, k: int|
        0 <= i < WORDS_PER_LIST && 0 <= j < WORDS_PER_LIST && 0 <= k < WORDS_PER_LIST
            ==> b.spec_has_session(#[trigger] spec_name_of(i, j, k))
}

impl RedisHelper {
    /// Starts a session: picks an unused random name, registers the
    /// session under it and returns `(session_name, host_secret)`.
    /// An empty host name is `InvalidInput`; an exhausted name space is
    /// `NameSpaceExhausted`, and the broker is then unchanged.
    pub fn post_host_session(&mut self, is_public: bool, host_name: &str, now: u64) -> (r: Result<
        (String, String),
        BrokerError,
    >)
        requires
            old(self).wf(),
            now <= u64::MAX - SESSION_TTL_SECONDS,
        ensures
            final(self).wf(),
            (match r {
                Err(e) => (e == BrokerError::InvalidInput || e == BrokerError::NameSpaceExhausted)
                    && (e == BrokerError::InvalidInput <==> host_name@.len() == 0) && *final(self)
                    == *old(self),
                Ok(reg) => host_name@.len() > 0 && !old(self).spec_has_session(reg.0@) && final(self).spec_has_session(reg.0@) && is_secret_token(reg.1@) && final(self).host_auth_ok(
                    reg.0@,
                    reg.1@,
                ) && final(self).sessions_map()[reg.0@].1.is_public == is_public && final(self).sessions_map()[reg.0@].1.host_name@ == host_name@ && final(self).sessions_map()[reg.0@].0 == now + SESSION_TTL_SECONDS && final(self).sessions_map() == old(self).sessions_map().insert(
                    reg.0@,
                    final(self).sessions_map()[reg.0@],
                ) && final(self).secrets_map() == old(self).secrets_map() && final(self).host_mail_map() == old(self).host_mail_map() && final(self).client_mail_map()
                    == old(self).client_mail_map(),
            }),
            // Success is owed when every candidate name is free, and ruled
            // out when every candidate name is taken; in between the random
            // draw decides.
            host_name@.len() > 0 && all_names_free(*old(self)) ==> r is Ok,
            all_names_taken(*old(self)) ==> !(r is Ok),
    {
        if host_name.is_empty() {
            return Err(BrokerError::InvalidInput);
        }
        let mut attempts: usize = 0;
        while attempts < NAME_RETRY_BUDGET
            invariant
                *self == *old(self),
                old(self).wf(),
                host_name@.len() > 0,
                now <= u64::MAX - SESSION_TTL_SECONDS,
                attempts > 0 ==> !all_names_free(*old(self)),
            decreases NAME_RETRY_BUDGET - attempts,
        {
            let candidate = generate_name();
            if !self.has_session(candidate.as_str()) {
                proof {
                    if all_names_taken(*old(self)) {
                        let (i, j, k) = choose|i: int, j: int, k: int|
                            0 <= i < WORDS_PER_LIST && 0 <= j < WORDS_PER_LIST && 0 <= k
                                < WORDS_PER_LIST && candidate@ == spec_name_of(i, j, k);
                        assert(false);
                    }
                }
                let secret = self.register_session(candidate.as_str(), is_public, host_name, now);
                return Ok((candidate, secret));
            }
            proof {
                let (i, j, k) = choose|i: int, j: int, k: int|
                    0 <= i < WORDS_PER_LIST && 0 <= j < WORDS_PER_LIST && 0 <= k < WORDS_PER_LIST
                        && candidate@ == spec_name_of(i, j, k);
                assert(!all_names_free(*old(self)));
            }
            attempts += 1;
        }
        Err(BrokerError::NameSpaceExhausted)
    }

    /// Drains the host's mailbox, provided the host secret is right; a
    /// wrong or missing secret gets `Unauthenticated` and changes nothing.
    pub fn get_receive_host_messages(&mut self, session_name: &str, host_secret: &str) -> (r:
        AuthOutcome<Vec<String>>)
        requires
            old(self).wf(),
        ensures
            final(self).wf(),
            (match r {
                AuthOutcome::Unauthenticated => !old(self).host_auth_ok(
                    session_name@,
                    host_secret@,
                ) && *final(self) == *old(self),
                AuthOutcome::Granted(msgs) => old(self).host_auth_ok(session_name@, host_secret@)
                    && msgs.deep_view() == old(self).host_queue(session_name@).reverse() && final(self).host_queue(session_name@) == Seq::<Seq<char>>::empty() && final(self).host_mail_map() == old(self).host_mail_map().remove(session_name@) && final(self).sessions_map() == old(self).sessions_map() && final(self).secrets_map() == old(self).secrets_map() && final(self).client_mail_map() == old(self).client_mail_map(),
            }),
    {
        if !self.authenticate_host_message(session_name, host_secret) {
            return AuthOutcome::Unauthenticated;
        }
        AuthOutcome::Granted(self.get_messages_for_host(session_name))
    }

    /// Relays an opaque payload from the host to one client's mailbox,
    /// verbatim, provided the host secret is right.
    pub fn post_send_join_responses(
        &mut self,
        session_name: &str,
        client_name: &str,
        host_secret: &str,
        messages: String,
    ) -> (r: AuthOutcome<()>)
        requires
            old(self).wf(),
        ensures
            final(self).wf(),
            (match r {
                AuthOutcome::Unauthenticated => !old(self).host_auth_ok(
                    session_name@,
                    host_secret@,
                ) && *final(self) == *old(self),
                AuthOutcome::Granted(u) => old(self).host_auth_ok(session_name@, host_secret@)
                    && final(self).client_queue(session_name@, client_name@) == old(self).client_queue(session_name@, client_name@).push(messages@) && final(self).client_mail_map() == old(self).client_mail_map().insert(
                    (session_name@, client_name@),
                    final(self).client_mail_map()[(session_name@, client_name@)],
                ) && final(self).sessions_map() == old(self).sessions_map() && final(self).secrets_map() == old(self).secrets_map() && final(self).host_mail_map() == old(self).host_mail_map(),
            }),
    {
        if !self.authenticate_host_message(session_name, host_secret) {
            return AuthOutcome::Unauthenticated;
        }
        self.push_message_to_client(session_name, client_name, messages);
        AuthOutcome::Granted(())
    }

    /// Relays ICE candidates from a client to the host's mailbox, provided
    /// the client secret is right. An empty candidate list is
    /// `InvalidInput`.
    pub fn post_send_join_candidates(
        &mut self,
        session_name: &str,
        client_name: &str,
        client_secret: &str,
        candidates: &Vec<String>,
        now: u64,
    ) -> (r: Result<AuthOutcome<()>, BrokerError>)
        requires
            old(self).wf(),
            now <= u64::MAX - SESSION_TTL_SECONDS,
        ensures
            final(self).wf(),
            (match r {
                Err(e) => e == BrokerError::InvalidInput && candidates@.len() == 0 && *final(self)
                    == *old(self),
                Ok(AuthOutcome::Unauthenticated) => candidates@.len() > 0 && !old(self).client_auth_ok(session_name@, client_name@, client_secret@) && *final(self)
                    == *old(self),
                Ok(AuthOutcome::Granted(u)) => candidates@.len() > 0 && old(self).client_auth_ok(
                    session_name@,
                    client_name@,
                    client_secret@,
                ) && final(self).host_queue(session_name@) == old(self).host_queue(
                    session_name@,
                ).push(client_ice_frame(client_name@, candidates.deep_view())) && final(self).host_mail_map()[session_name@].0 == now + SESSION_TTL_SECONDS && final(self).host_mail_map() == old(self).host_mail_map().insert(
                    session_name@,
                    final(self).host_mail_map()[session_name@],
                ) && final(self).sessions_map() == old(self).sessions_map() && final(self).secrets_map() == old(self).secrets_map() && final(self).client_mail_map() == old(self).client_mail_map(),
            }),
    {
        if candidates.len() == 0 {
            return Err(BrokerError::InvalidInput);
        }
        if !self.authenticate_client_message(session_name, client_name, client_secret) {
            return Ok(AuthOutcome::Unauthenticated);
        }
        self.client_ice_candidate(session_name, client_name, candidates, now);
        Ok(AuthOutcome::Granted(()))
    }

    /// Drains up to `DRAIN_CAP` of the client's queued messages, provided
    /// the client secret is right; a wrong or missing secret gets
    /// `Unauthenticated` and the queue is untouched — no message is lost.
    pub fn get_receive_join_responses(
        &mut self,
        session_name: &str,
        client_name: &str,
        client_secret: &str,
    ) -> (r: AuthOutcome<Vec<String>>)
        requires
            old(self).wf(),
        ensures
            final(self).wf(),
            (match r {
                AuthOutcome::Unauthenticated => !old(self).client_auth_ok(
                    session_name@,
                    client_name@,
                    client_secret@,
                ) && *final(self) == *old(self),
                AuthOutcome::Granted(msgs) => old(self).client_auth_ok(
                    session_name@,
                    client_name@,
                    client_secret@,
                ) && msgs.deep_view() == RedisHelper::spec_drained(
                    old(self).client_queue(session_name@, client_name@),
                    DRAIN_CAP as int,
                ) && final(self).client_queue(session_name@, client_name@)
                    == RedisHelper::spec_left(
                    old(self).client_queue(session_name@, client_name@),
                    DRAIN_CAP as int,
                ) && final(self).sessions_map() == old(self).sessions_map() && final(self).secrets_map() == old(self).secrets_map() && final(self).host_mail_map() == old(self).host_mail_map(),
            }),
    {
        if !self.authenticate_client_message(session_name, client_name, client_secret) {
            return AuthOutcome::Unauthenticated;
        }
        AuthOutcome::Granted(self.get_messages_for_client(session_name, client_name))
    }
}

} // verus!
