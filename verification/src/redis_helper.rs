//! The session/queue broker.
//!
//! The broker owns the ephemeral state that the deployed system keeps in a
//! shared key-value store: the session registry (name, visibility, host name,
//! host secret), the per-(session, client) membership secrets, and the
//! per-recipient message mailboxes. Each record carries the expiry deadline
//! the store would enforce; `purge_expired` is the store's sweep.
//!
//! Mailboxes are consumed destructively and delivered most-recent-first:
//! pushes prepend (in store terms, a left push) and drains pop from the same
//! end, so a drain returns the queued messages in reverse push order.

use crate::errors::BrokerError;
use crate::frames::client_ice_frame;
use crate::frames::host_ice_frame;
use crate::frames::make_client_ice;
use crate::frames::make_host_ice;
use crate::frames::make_start_join;
use crate::frames::start_join_frame;
use crate::random_util::generate_secret;
use crate::random_util::is_secret_token;
use crate::table::PairTable;
use crate::table::Table;
use crate::text::str_eq;
use vstd::prelude::*;

verus! {

/// How long a session and its derived records live, in seconds.
pub const SESSION_TTL_SECONDS: u64 = 600;

/// How many messages one client drain may return at most.
pub const DRAIN_CAP: usize = 10;

/// Deadline given to records the store never expires.
const NO_EXPIRY: u64 = u64::MAX;

/// One session record: visibility, the host's display name, and the host's
/// bearer secret.
pub struct Session {
    pub is_public: bool,
    pub host_name: String,
    pub host_secret: String,
}

/// The store helper: it owns, in memory, exactly the ephemeral records the
/// deployed broker keeps under its redis-style store's keys, and offers the
/// registry and mailbox operations over them.
pub struct RedisHelper {
    sessions: Table<Session>,
    client_secrets: PairTable<String>,
    host_mail: Table<Vec<String>>,
    client_mail: PairTable<Vec<String>>,
}

impl RedisHelper {
    pub closed spec fn wf(self) -> bool {
        self.sessions.wf() && self.client_secrets.wf() && self.host_mail.wf()
            && self.client_mail.wf()
    }

    /// Session records by session name, with their expiry deadline.
    pub closed spec fn sessions_map(self) -> Map<Seq<char>, (u64, Session)> {
        self.sessions@
    }

    /// Client secrets by (session name, client name), with their deadline.
    pub closed spec fn secrets_map(self) -> Map<(Seq<char>, Seq<char>), (u64, String)> {
        self.client_secrets@
    }

    /// Host mailboxes by session name, with their deadline.
    pub closed spec fn host_mail_map(self) -> Map<Seq<char>, (u64, Vec<String>)> {
        self.host_mail@
    }

    /// Client mailboxes by (session name, client name), with their deadline.
    pub closed spec fn client_mail_map(self) -> Map<(Seq<char>, Seq<char>), (u64, Vec<String>)> {
        self.client_mail@
    }

    pub open spec fn spec_has_session(self, name: Seq<char>) -> bool {
        self.sessions_map().contains_key(name)
    }

    pub open spec fn spec_host_secret(self, name: Seq<char>) -> Seq<char> {
        self.sessions_map()[name].1.host_secret@
    }

    /// The host secret check: a session of this name exists and its stored
    /// secret is exactly the supplied one.
    pub open spec fn host_auth_ok(self, name: Seq<char>, secret: Seq<char>) -> bool {
        self.spec_has_session(name) && self.spec_host_secret(name) == secret
    }

    pub open spec fn spec_session_has_client(self, session: Seq<char>, client: Seq<char>) -> bool {
        self.secrets_map().contains_key((session, client))
    }

    pub open spec fn spec_client_secret(self, session: Seq<char>, client: Seq<char>) -> Seq<char> {
        self.secrets_map()[(session, client)].1@
    }

    /// The client secret check: a secret is on record for this
    /// (session, client) pair and it is exactly the supplied one.
    pub open spec fn client_auth_ok(
        self,
        session: Seq<char>,
        client: Seq<char>,
        secret: Seq<char>,
    ) -> bool {
        self.spec_session_has_client(session, client) && self.spec_client_secret(session, client)
            == secret
    }

    /// The messages queued for the host of `name`, oldest first.
    pub open spec fn host_queue(self, name: Seq<char>) -> Seq<Seq<char>> {
        if self.host_mail_map().contains_key(name) {
            self.host_mail_map()[name].1.deep_view()
        } else {
            Seq::empty()
        }
    }

    /// The messages queued for `client` in `session`, oldest first.
    pub open spec fn client_queue(self, session: Seq<char>, client: Seq<char>) -> Seq<Seq<char>> {
        if self.client_mail_map().contains_key((session, client)) {
            self.client_mail_map()[(session, client)].1.deep_view()
        } else {
            Seq::empty()
        }
    }

    /// A broker with no live state.
    pub fn new() -> (b: RedisHelper)
        ensures
            b.wf(),
            b.sessions_map() == Map::<Seq<char>, (u64, Session)>::empty(),
            b.secrets_map() == Map::<(Seq<char>, Seq<char>), (u64, String)>::empty(),
            b.host_mail_map() == Map::<Seq<char>, (u64, Vec<String>)>::empty(),
            b.client_mail_map() == Map::<(Seq<char>, Seq<char>), (u64, Vec<String>)>::empty(),
    {
        RedisHelper {
            sessions: Table::new(),
            client_secrets: PairTable::new(),
            host_mail: Table::new(),
            client_mail: PairTable::new(),
        }
    }

    /// Is a session of this name currently registered?
    pub fn has_session(&self, session_name: &str) -> (r: bool)
        requires
            self.wf(),
        ensures
            r == self.spec_has_session(session_name@),
    {
        self.sessions.contains(session_name)
    }

    /// Registers a session under this name and returns the host's freshly
    /// generated authentication secret. The record expires `SESSION_TTL_SECONDS`
    /// after `now`.
    pub fn register_session(
        &mut self,
        session_name: &str,
        is_public: bool,
        host_name: &str,
        now: u64,
    ) -> (r: String)
        requires
            old(self).wf(),
            now <= u64::MAX - SESSION_TTL_SECONDS,
        ensures
            final(self).wf(),
            is_secret_token(r@),
            final(self).spec_has_session(session_name@),
            final(self).sessions_map()[session_name@].1.is_public == is_public,
            final(self).sessions_map()[session_name@].1.host_name@ == host_name@,
            final(self).sessions_map()[session_name@].1.host_secret@ == r@,
            final(self).sessions_map()[session_name@].0 == now + SESSION_TTL_SECONDS,
            final(self).sessions_map() == old(self).sessions_map().insert(
                session_name@,
                final(self).sessions_map()[session_name@],
            ),
            final(self).secrets_map() == old(self).secrets_map(),
            final(self).host_mail_map() == old(self).host_mail_map(),
            final(self).client_mail_map() == old(self).client_mail_map(),
    {
        let host_secret = generate_secret();
        let session = Session {
            is_public,
            host_name: host_name.to_owned(),
            host_secret: host_secret.clone(),
        };
        self.sessions.set(session_name, now + SESSION_TTL_SECONDS, session);
        host_secret
    }

    /// Determine if the given secret is correct for the host of
    /// `session_name`; false — never a failure — when no session or secret
    /// is on record.
    pub fn authenticate_host_message(&self, session_name: &str, host_secret: &str) -> (r: bool)
        requires
            self.wf(),
        ensures
            r == self.host_auth_ok(session_name@, host_secret@),
    {
        match self.sessions.get(session_name) {
            Some(session) => str_eq(session.host_secret.as_str(), host_secret),
            None => false,
        }
    }

    /// Generates, stores and returns a secret for this client joining this
    /// session, expiring `SESSION_TTL_SECONDS` after `now`.
    pub fn register_client_secret(
        &mut self,
        session_name: &str,
        client_name: &str,
        now: u64,
    ) -> (r: String)
        requires
            old(self).wf(),
            now <= u64::MAX - SESSION_TTL_SECONDS,
        ensures
            final(self).wf(),
            is_secret_token(r@),
            final(self).spec_session_has_client(session_name@, client_name@),
            final(self).spec_client_secret(session_name@, client_name@) == r@,
            final(self).secrets_map()[(session_name@, client_name@)].0 == now
                + SESSION_TTL_SECONDS,
            final(self).secrets_map() == old(self).secrets_map().insert(
                (session_name@, client_name@),
                final(self).secrets_map()[(session_name@, client_name@)],
            ),
            final(self).sessions_map() == old(self).sessions_map(),
            final(self).host_mail_map() == old(self).host_mail_map(),
            final(self).client_mail_map() == old(self).client_mail_map(),
    {
        let secret = generate_secret();
        self.client_secrets.set(
            session_name,
            client_name,
            now + SESSION_TTL_SECONDS,
            secret.clone(),
        );
        secret
    }

    /// Determines if the given secret is correct for this client of this
    /// session; false — never a failure — when no secret is on record.
    pub fn authenticate_client_message(
        &self,
        session_name: &str,
        client_name: &str,
        client_secret: &str,
    ) -> (r: bool)
        requires
            self.wf(),
        ensures
            r == self.client_auth_ok(session_name@, client_name@, client_secret@),
    {
        match self.client_secrets.get(session_name, client_name) {
            Some(stored) => str_eq(stored.as_str(), client_secret),
            None => false,
        }
    }

    /// Does this session already have a client of this name? True iff a
    /// client secret is currently stored for the pair.
    pub fn session_has_client(&self, session_name: &str, client_name: &str) -> (r: bool)
        requires
            self.wf(),
        ensures
            r == self.spec_session_has_client(session_name@, client_name@),
    {
        self.client_secrets.contains(session_name, client_name)
    }

    /// Adds a message to the host's mailbox and refreshes the mailbox's
    /// expiry, as every host push does.
    pub fn push_message_to_host(&mut self, session_name: &str, message: String, now: u64)
        requires
            old(self).wf(),
            now <= u64::MAX - SESSION_TTL_SECONDS,
        ensures
            final(self).wf(),
            final(self).host_queue(session_name@) == old(self).host_queue(session_name@).push(
                message@,
            ),
            final(self).host_mail_map().contains_key(session_name@),
            final(self).host_mail_map()[session_name@].0 == now + SESSION_TTL_SECONDS,
            final(self).host_mail_map() == old(self).host_mail_map().insert(
                session_name@,
                final(self).host_mail_map()[session_name@],
            ),
            final(self).sessions_map() == old(self).sessions_map(),
            final(self).secrets_map() == old(self).secrets_map(),
            final(self).client_mail_map() == old(self).client_mail_map(),
    {
        let mut q: Vec<String> = match self.host_mail.take(session_name) {
            Some(dq) => dq.1,
            None => Vec::new(),
        };
        let ghost q0: Seq<Seq<char>> = q.deep_view();
        q.push(message);
        proof {
            assert(q.deep_view() =~= q0.push(message@));
        }
        self.host_mail.set(session_name, now + SESSION_TTL_SECONDS, q);
        proof {
            assert(self.host_mail_map() =~= old(self).host_mail_map().insert(
                session_name@,
                self.host_mail_map()[session_name@],
            ));
        }
    }

    /// Adds a message to a client's mailbox. Client mailboxes get no expiry
    /// of their own and none is refreshed here.
    pub fn push_message_to_client(&mut self, session_name: &str, client_name: &str, message: String)
        requires
            old(self).wf(),
        ensures
            final(self).wf(),
            final(self).client_queue(session_name@, client_name@) == old(self).client_queue(
                session_name@,
                client_name@,
            ).push(message@),
            final(self).client_mail_map().contains_key((session_name@, client_name@)),
            final(self).client_mail_map() == old(self).client_mail_map().insert(
                (session_name@, client_name@),
                final(self).client_mail_map()[(session_name@, client_name@)],
            ),
            final(self).sessions_map() == old(self).sessions_map(),
            final(self).secrets_map() == old(self).secrets_map(),
            final(self).host_mail_map() == old(self).host_mail_map(),
    {
        let taken = self.client_mail.take(session_name, client_name);
        let (deadline, mut q): (u64, Vec<String>) = match taken {
            Some(dq) => dq,
            None => (NO_EXPIRY, Vec::new()),
        };
        let ghost q0: Seq<Seq<char>> = q.deep_view();
        q.push(message);
        proof {
            assert(q.deep_view() =~= q0.push(message@));
        }
        self.client_mail.set(session_name, client_name, deadline, q);
        proof {
            assert(self.client_mail_map() =~= old(self).client_mail_map().insert(
                (session_name@, client_name@),
                self.client_mail_map()[(session_name@, client_name@)],
            ));
        }
    }

    /// Takes every message queued for the host of this session, most recent
    /// first, leaving the mailbox empty. Draining an empty or absent mailbox
    /// returns nothing.
    pub fn get_messages_for_host(&mut self, session_name: &str) -> (r: Vec<String>)
        requires
            old(self).wf(),
        ensures
            final(self).wf(),
            r.deep_view() == old(self).host_queue(session_name@).reverse(),
            final(self).host_queue(session_name@) == Seq::<Seq<char>>::empty(),
            final(self).host_mail_map() == old(self).host_mail_map().remove(session_name@),
            final(self).sessions_map() == old(self).sessions_map(),
            final(self).secrets_map() == old(self).secrets_map(),
            final(self).client_mail_map() == old(self).client_mail_map(),
    {
        let mut q: Vec<String> = match self.host_mail.take(session_name) {
            Some(dq) => dq.1,
            None => {
                let r: Vec<String> = Vec::new();
                proof {
                    assert(r.deep_view() =~= old(self).host_queue(session_name@).reverse());
                    assert(self.host_mail_map() =~= old(self).host_mail_map().remove(
                        session_name@,
                    ));
                }
                return r;
            },
        };
        let ghost q0: Seq<Seq<char>> = q.deep_view();
        let mut out: Vec<String> = Vec::new();
        while q.len() > 0
            invariant
                q@.len() <= q0.len(),
                q0.len() == q@.len() + out@.len(),
                forall|j: int| 0 <= j < q@.len() ==> q@[j]@ == q0[j],
                forall|j: int| 0 <= j < out@.len() ==> out@[j]@ == q0[q0.len() - 1 - j],
            decreases q.len(),
        {
            match q.pop() {
                Some(m) => out.push(m),
                None => {},
            }
        }
        proof {
            assert(out.deep_view() =~= q0.reverse());
        }
        out
    }

    /// What one capped drain returns: the most recent messages of the
    /// queue, newest first, at most `cap` of them.
    pub open spec fn spec_drained(q: Seq<Seq<char>>, cap: int) -> Seq<Seq<char>> {
        if q.len() <= cap {
            q.reverse()
        } else {
            q.subrange(q.len() - cap, q.len() as int).reverse()
        }
    }

    /// What a capped drain leaves queued: the older remainder.
    pub open spec fn spec_left(q: Seq<Seq<char>>, cap: int) -> Seq<Seq<char>> {
        if q.len() <= cap {
            Seq::empty()
        } else {
            q.subrange(0, q.len() - cap)
        }
    }

    /// Takes up to `DRAIN_CAP` messages queued for this client, most recent
    /// first, leaving the older remainder queued. Draining an empty or
    /// absent mailbox returns nothing.
    pub fn get_messages_for_client(&mut self, session_name: &str, client_name: &str) -> (r: Vec<
        String,
    >)
        requires
            old(self).wf(),
        ensures
            final(self).wf(),
            r.deep_view() == Self::spec_drained(
                old(self).client_queue(session_name@, client_name@),
                DRAIN_CAP as int,
            ),
            final(self).client_queue(session_name@, client_name@) == Self::spec_left(
                old(self).client_queue(session_name@, client_name@),
                DRAIN_CAP as int,
            ),
            old(self).client_queue(session_name@, client_name@).len() <= DRAIN_CAP
                ==> final(self).client_mail_map() == old(self).client_mail_map().remove(
                (session_name@, client_name@),
            ),
            old(self).client_queue(session_name@, client_name@).len() > DRAIN_CAP
                ==> final(self).client_mail_map() == old(self).client_mail_map().insert(
                (session_name@, client_name@),
                (
                    old(self).client_mail_map()[(session_name@, client_name@)].0,
                    final(self).client_mail_map()[(session_name@, client_name@)].1,
                ),
            ),
            final(self).sessions_map() == old(self).sessions_map(),
            final(self).secrets_map() == old(self).secrets_map(),
            final(self).host_mail_map() == old(self).host_mail_map(),
    {
        let taken = self.client_mail.take(session_name, client_name);
        let (deadline, mut q): (u64, Vec<String>) = match taken {
            Some(dq) => dq,
            None => {
                let r: Vec<String> = Vec::new();
                proof {
                    let ghost qq = old(self).client_queue(session_name@, client_name@);
                    assert(r.deep_view() =~= Self::spec_drained(qq, DRAIN_CAP as int));
                    assert(self.client_mail_map() =~= old(self).client_mail_map().remove(
                        (session_name@, client_name@),
                    ));
                }
                return r;
            },
        };
        let ghost q0: Seq<Seq<char>> = q.deep_view();
        let mut out: Vec<String> = Vec::new();
        while q.len() > 0 && out.len() < DRAIN_CAP
            invariant
                q@.len() <= q0.len(),
                out@.len() <= DRAIN_CAP,
                q0.len() == q@.len() + out@.len(),
                out@.len() == DRAIN_CAP ==> q@.len() > 0 || q0.len() == DRAIN_CAP,
                forall|j: int| 0 <= j < q@.len() ==> q@[j]@ == q0[j],
                forall|j: int| 0 <= j < out@.len() ==> out@[j]@ == q0[q0.len() - 1 - j],
            decreases q.len(),
        {
            match q.pop() {
                Some(m) => out.push(m),
                None => {},
            }
        }
        proof {
            assert(out.deep_view() =~= Self::spec_drained(q0, DRAIN_CAP as int));
            assert(q.deep_view() =~= Self::spec_left(q0, DRAIN_CAP as int));
        }
        if q.len() > 0 {
            self.client_mail.set(session_name, client_name, deadline, q);
            proof {
                assert(self.client_mail_map() =~= old(self).client_mail_map().insert(
                    (session_name@, client_name@),
                    (
                        old(self).client_mail_map()[(session_name@, client_name@)].0,
                        self.client_mail_map()[(session_name@, client_name@)].1,
                    ),
                ));
            }
        } else {
            proof {
                assert(self.client_mail_map() =~= old(self).client_mail_map().remove(
                    (session_name@, client_name@),
                ));
            }
        }
        out
    }

    /// Initiates a client joining a session: announces the join (client
    /// name and offer) to the host's mailbox and issues the client's
    /// secret. Rejected iff a client of this name already joined. The
    /// session itself is not required to exist; a join against an unknown
    /// name only feeds an orphaned, soon-to-expire mailbox.
    pub fn initiate_join(
        &mut self,
        session_name: &str,
        client_name: &str,
        rtc_offer: &str,
        now: u64,
    ) -> (r: Result<String, BrokerError>)
        requires
            old(self).wf(),
            now <= u64::MAX - SESSION_TTL_SECONDS,
        ensures
            final(self).wf(),
            (match r {
                Err(e) => old(self).spec_session_has_client(session_name@, client_name@) && e
                    == BrokerError::NameAlreadyTaken && *final(self) == *old(self),
                Ok(secret) => !old(self).spec_session_has_client(session_name@, client_name@)
                    && is_secret_token(secret@)
                    && final(self).client_auth_ok(session_name@, client_name@, secret@)
                    && final(self).secrets_map()[(session_name@, client_name@)].0 == now
                    + SESSION_TTL_SECONDS
                    && final(self).secrets_map() == old(self).secrets_map().insert(
                    (session_name@, client_name@),
                    final(self).secrets_map()[(session_name@, client_name@)],
                )
                    && final(self).host_queue(session_name@) == old(self).host_queue(
                    session_name@,
                ).push(start_join_frame(client_name@, rtc_offer@))
                    && final(self).host_mail_map()[session_name@].0 == now + SESSION_TTL_SECONDS
                    && final(self).host_mail_map() == old(self).host_mail_map().insert(
                    session_name@,
                    final(self).host_mail_map()[session_name@],
                )
                    && final(self).sessions_map() == old(self).sessions_map()
                    && final(self).client_mail_map() == old(self).client_mail_map(),
            }),
    {
        if self.session_has_client(session_name, client_name) {
            return Err(BrokerError::NameAlreadyTaken);
        }
        let frame = make_start_join(client_name, rtc_offer);
        self.push_message_to_host(session_name, frame, now);
        Ok(self.register_client_secret(session_name, client_name, now))
    }

    /// Relays one or more ICE candidates from a client to the session's
    /// host. The caller is expected to have authenticated the client.
    pub fn client_ice_candidate(
        &mut self,
        session_name: &str,
        client_name: &str,
        candidates: &Vec<String>,
        now: u64,
    )
        requires
            old(self).wf(),
            now <= u64::MAX - SESSION_TTL_SECONDS,
        ensures
            final(self).wf(),
            final(self).host_queue(session_name@) == old(self).host_queue(session_name@).push(
                client_ice_frame(client_name@, candidates.deep_view()),
            ),
            final(self).host_mail_map().contains_key(session_name@),
            final(self).host_mail_map()[session_name@].0 == now + SESSION_TTL_SECONDS,
            final(self).host_mail_map() == old(self).host_mail_map().insert(
                session_name@,
                final(self).host_mail_map()[session_name@],
            ),
            final(self).sessions_map() == old(self).sessions_map(),
            final(self).secrets_map() == old(self).secrets_map(),
            final(self).client_mail_map() == old(self).client_mail_map(),
    {
        let frame = make_client_ice(client_name, candidates);
        self.push_message_to_host(session_name, frame, now);
    }

    /// Relays one or more ICE candidates from the host to a client. The
    /// caller is expected to have authenticated the host.
    pub fn host_ice_candidate(
        &mut self,
        session_name: &str,
        client_name: &str,
        candidates: &Vec<String>,
    )
        requires
            old(self).wf(),
        ensures
            final(self).wf(),
            final(self).client_queue(session_name@, client_name@) == old(self).client_queue(
                session_name@,
                client_name@,
            ).push(host_ice_frame(candidates.deep_view())),
            final(self).client_mail_map().contains_key((session_name@, client_name@)),
            final(self).client_mail_map() == old(self).client_mail_map().insert(
                (session_name@, client_name@),
                final(self).client_mail_map()[(session_name@, client_name@)],
            ),
            final(self).sessions_map() == old(self).sessions_map(),
            final(self).secrets_map() == old(self).secrets_map(),
            final(self).host_mail_map() == old(self).host_mail_map(),
    {
        let frame = make_host_ice(candidates);
        self.push_message_to_client(session_name, client_name, frame);
    }

    /// The store's expiry sweep at second `now`: sessions, client secrets
    /// and host mailboxes whose deadline has passed are dropped. Client
    /// mailboxes carry no expiry of their own and are left alone.
    pub fn purge_expired(&mut self, now: u64)
        requires
            old(self).wf(),
        ensures
            final(self).wf(),
            forall|name: Seq<char>| #[trigger]
                final(self).sessions_map().contains_key(name) <==> (old(
                    self,
                ).sessions_map().contains_key(name) && old(self).sessions_map()[name].0 > now),
            forall|name: Seq<char>| #[trigger]
                final(self).sessions_map().contains_key(name) ==> final(self).sessions_map()[name]
                    == old(self).sessions_map()[name],
            forall|key: (Seq<char>, Seq<char>)| #[trigger]
                final(self).secrets_map().contains_key(key) <==> (old(
                    self,
                ).secrets_map().contains_key(key) && old(self).secrets_map()[key].0 > now),
            forall|key: (Seq<char>, Seq<char>)| #[trigger]
                final(self).secrets_map().contains_key(key) ==> final(self).secrets_map()[key]
                    == old(self).secrets_map()[key],
            forall|name: Seq<char>| #[trigger]
                final(self).host_mail_map().contains_key(name) <==> (old(
                    self,
                ).host_mail_map().contains_key(name) && old(self).host_mail_map()[name].0 > now),
            forall|name: Seq<char>| #[trigger]
                final(self).host_mail_map().contains_key(name) ==> final(self).host_mail_map()[name]
                    == old(self).host_mail_map()[name],
            final(self).client_mail_map() == old(self).client_mail_map(),
    {
        self.sessions.purge(now);
        self.client_secrets.purge(now);
        self.host_mail.purge(now);
    }
}

} // verus!
