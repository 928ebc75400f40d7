//! The broker's cross-operation guarantees, stated and proved once over
//! the spec-level state that every operation's contract is written in.

use crate::redis_helper::RedisHelper;
use crate::redis_helper::DRAIN_CAP;
use vstd::prelude::*;
use vstd::seq_lib::*;

verus! {

/// Registration flips session existence: a name that had no session gains
/// exactly one when its record is inserted, and every other name is
/// untouched. Together with `post_host_session`'s contract — the chosen
/// name satisfied `!spec_has_session` just before the insert — this is the
/// before/after story of `has_session` around a registration.
pub proof fn lemma_registration_flips_has_session(
    pre: RedisHelper,
    post: RedisHelper,
    name: Seq<char>,
    entry: (u64, crate::redis_helper::Session),
)
    requires
        !pre.spec_has_session(name),
        post.sessions_map() == pre.sessions_map().insert(name, entry),
    ensures
        post.spec_has_session(name),
        forall|other: Seq<char>|
            other != name ==> post.spec_has_session(other) == pre.spec_has_session(other),
{
}

/// Retrieval reveals only queued mail: what a drain returns is a function
/// of the mailbox contents alone, so two broker states with the same
/// mailboxes — whatever secrets their registries hold — yield the same
/// drain results. Secrets are handed out only by the registration and join
/// operations, which alone create them.
pub proof fn lemma_retrieval_reveals_only_mail(
    b1: RedisHelper,
    b2: RedisHelper,
    session: Seq<char>,
    client: Seq<char>,
)
    requires
        b1.host_mail_map() == b2.host_mail_map(),
        b1.client_mail_map() == b2.client_mail_map(),
    ensures
        b1.host_queue(session).reverse() == b2.host_queue(session).reverse(),
        RedisHelper::spec_drained(b1.client_queue(session, client), DRAIN_CAP as int)
            == RedisHelper::spec_drained(b2.client_queue(session, client), DRAIN_CAP as int),
{
}

/// A client name cannot join the same session twice: once a join has
/// inserted a membership secret for the pair, `spec_session_has_client`
/// holds — and `initiate_join`'s contract rejects exactly the pairs for
/// which it holds, with `NameAlreadyTaken` and no state change.
pub proof fn lemma_second_join_rejected(
    pre: RedisHelper,
    post: RedisHelper,
    session: Seq<char>,
    client: Seq<char>,
    entry: (u64, String),
)
    requires
        post.secrets_map() == pre.secrets_map().insert((session, client), entry),
    ensures
        post.spec_session_has_client(session, client),
{
}

/// Drained messages are delivered at most once: a host drain removes the
/// mailbox, so the queue observed immediately afterwards is empty and a
/// second drain returns nothing.
pub proof fn lemma_host_drain_exactly_once(pre: RedisHelper, post: RedisHelper, session: Seq<char>)
    requires
        post.host_mail_map() == pre.host_mail_map().remove(session),
    ensures
        post.host_queue(session) == Seq::<Seq<char>>::empty(),
        post.host_queue(session).reverse() == Seq::<Seq<char>>::empty(),
{
    assert(post.host_queue(session) =~= Seq::<Seq<char>>::empty());
}

/// Round trip: a host drain returns every queued message verbatim, exactly
/// once, in reverse push order — the drain result is the reverse
/// permutation of the queue, with the same multiset of messages.
pub proof fn lemma_drain_returns_queue_verbatim(q: Seq<Seq<char>>)
    ensures
        q.reverse().len() == q.len(),
        forall|i: int| 0 <= i < q.len() ==> q.reverse()[i] == q[q.len() - 1 - i],
        q.reverse().to_multiset() == q.to_multiset(),
{
    q.lemma_reverse_to_multiset();
}

/// The concrete three-message round trip: pushing `m1, m2, m3` onto an
/// empty queue and draining yields exactly `[m3, m2, m1]`.
pub proof fn lemma_three_message_round_trip(m1: Seq<char>, m2: Seq<char>, m3: Seq<char>)
    ensures
        Seq::<Seq<char>>::empty().push(m1).push(m2).push(m3).reverse() == seq![m3, m2, m1],
{
    assert(Seq::<Seq<char>>::empty().push(m1).push(m2).push(m3).reverse() =~= seq![
        m3,
        m2,
        m1,
    ]);
}

/// A capped client drain loses nothing: what it returns and what it
/// leaves together carry exactly the queued messages — the remainder
/// concatenated with the reversed result is the original queue.
pub proof fn lemma_capped_drain_partitions_queue(q: Seq<Seq<char>>, cap: int)
    requires
        cap >= 0,
    ensures
        RedisHelper::spec_left(q, cap) + RedisHelper::spec_drained(q, cap).reverse() == q,
{
    if q.len() <= cap {
        assert(q.reverse().reverse() =~= q);
        assert(RedisHelper::spec_left(q, cap) + RedisHelper::spec_drained(q, cap).reverse() =~= q);
    } else {
        let tail = q.subrange(q.len() - cap, q.len() as int);
        assert(tail.reverse().reverse() =~= tail);
        assert(RedisHelper::spec_left(q, cap) + tail =~= q);
    }
}

} // verus!
