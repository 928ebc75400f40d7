use signaling_broker::redis_helper::RedisHelper;
use signaling_broker::AuthOutcome;
use signaling_broker::BrokerError;

fn granted<T>(r: AuthOutcome<T>) -> T {
    match r {
        AuthOutcome::Granted(v) => v,
        AuthOutcome::Unauthenticated => panic!("expected Granted"),
    }
}

fn is_unauthenticated<T>(r: &AuthOutcome<T>) -> bool {
    matches!(r, AuthOutcome::Unauthenticated)
}

#[test]
fn has_session_flips_on_registration() {
    let mut b = RedisHelper::new();
    assert!(!b.has_session("red fox jumps"));
    let secret = b.register_session("red fox jumps", true, "Alice", 0);
    assert!(b.has_session("red fox jumps"));
    assert!(!b.has_session("blue owl waits"));
    assert!(b.authenticate_host_message("red fox jumps", &secret));
}

#[test]
fn host_registration_issues_usable_name_and_secret() {
    let mut b = RedisHelper::new();
    let (session, host_secret) = b.post_host_session(true, "Alice", 0).unwrap();
    assert!(b.has_session(&session));
    assert!(b.authenticate_host_message(&session, &host_secret));
    let words: Vec<&str> = session.split(' ').collect();
    assert_eq!(words.len(), 3);
}

#[test]
fn empty_host_name_is_invalid_input() {
    let mut b = RedisHelper::new();
    match b.post_host_session(true, "", 0) {
        Err(BrokerError::InvalidInput) => {}
        _ => panic!("expected InvalidInput"),
    }
}

#[test]
fn secret_is_16_alphanumeric() {
    let mut b = RedisHelper::new();
    let secret = b.register_session("red fox jumps", false, "Alice", 0);
    assert_eq!(secret.chars().count(), 16);
    assert!(secret.chars().all(|c| c.is_ascii_alphanumeric()));
    let client_secret = b.initiate_join("red fox jumps", "Bob", "offer", 0).unwrap();
    assert_eq!(client_secret.chars().count(), 16);
    assert!(client_secret.chars().all(|c| c.is_ascii_alphanumeric()));
}

#[test]
fn name_space_exhausted_when_all_names_taken() {
    let mut b = RedisHelper::new();
    for i in 0..signaling_broker::random_util::WORDS_PER_LIST {
        for j in 0..signaling_broker::random_util::WORDS_PER_LIST {
            for k in 0..signaling_broker::random_util::WORDS_PER_LIST {
                let name = format!(
                    "{} {} {}",
                    signaling_broker::random_util::first_word(i),
                    signaling_broker::random_util::second_word(j),
                    signaling_broker::random_util::third_word(k)
                );
                b.register_session(&name, true, "Alice", 0);
            }
        }
    }
    match b.post_host_session(true, "Late", 0) {
        Err(BrokerError::NameSpaceExhausted) => {}
        _ => panic!("expected NameSpaceExhausted"),
    }
}

#[test]
fn second_join_rejected() {
    let mut b = RedisHelper::new();
    b.register_session("red fox jumps", true, "Alice", 0);
    let first = b.initiate_join("red fox jumps", "Bob", "offer-1", 0);
    assert!(first.is_ok());
    match b.initiate_join("red fox jumps", "Bob", "offer-2", 0) {
        Err(BrokerError::NameAlreadyTaken) => {}
        _ => panic!("expected NameAlreadyTaken"),
    }
    // A different client name is still free to join.
    assert!(b.initiate_join("red fox jumps", "Carol", "offer-3", 0).is_ok());
}

#[test]
fn wrong_host_secret_is_unauthenticated_and_loses_nothing() {
    let mut b = RedisHelper::new();
    let host_secret = b.register_session("red fox jumps", true, "Alice", 0);
    b.push_message_to_host("red fox jumps", "hello".to_string(), 0);
    assert!(is_unauthenticated(&b.get_receive_host_messages("red fox jumps", "wrong")));
    assert!(is_unauthenticated(&b.get_receive_host_messages("red fox jumps", "")));
    // The failed attempts removed nothing: the right secret still drains it.
    let msgs = granted(b.get_receive_host_messages("red fox jumps", &host_secret));
    assert_eq!(msgs, vec!["hello".to_string()]);
}

#[test]
fn wrong_client_secret_is_unauthenticated_and_loses_nothing() {
    let mut b = RedisHelper::new();
    let host_secret = b.register_session("red fox jumps", true, "Alice", 0);
    let client_secret = b.initiate_join("red fox jumps", "Bob", "offer", 0).unwrap();
    granted(b.post_send_join_responses("red fox jumps", "Bob", &host_secret, "answer".to_string()));
    assert!(is_unauthenticated(&b.get_receive_join_responses("red fox jumps", "Bob", "nope")));
    // Unknown session or client name: also unauthenticated, never an error.
    assert!(is_unauthenticated(&b.get_receive_join_responses("blue owl waits", "Bob", &client_secret)));
    assert!(is_unauthenticated(&b.get_receive_join_responses("red fox jumps", "Eve", &client_secret)));
    let msgs = granted(b.get_receive_join_responses("red fox jumps", "Bob", &client_secret));
    assert_eq!(msgs, vec!["answer".to_string()]);
}

#[test]
fn mailbox_round_trip_is_lifo() {
    let mut b = RedisHelper::new();
    b.push_message_to_host("red fox jumps", "m1".to_string(), 0);
    b.push_message_to_host("red fox jumps", "m2".to_string(), 0);
    b.push_message_to_host("red fox jumps", "m3".to_string(), 0);
    let msgs = b.get_messages_for_host("red fox jumps");
    assert_eq!(msgs, vec!["m3".to_string(), "m2".to_string(), "m1".to_string()]);
    // Drained destructively: a second drain finds nothing.
    let again = b.get_messages_for_host("red fox jumps");
    assert!(again.is_empty());
}

#[test]
fn empty_drain_returns_nothing() {
    let mut b = RedisHelper::new();
    assert!(b.get_messages_for_host("red fox jumps").is_empty());
    assert!(b.get_messages_for_client("red fox jumps", "Bob").is_empty());
}

#[test]
fn client_drain_caps_at_ten() {
    let mut b = RedisHelper::new();
    for i in 1..=12 {
        b.push_message_to_client("red fox jumps", "Bob", format!("m{}", i));
    }
    let first = b.get_messages_for_client("red fox jumps", "Bob");
    let expected: Vec<String> = (3..=12).rev().map(|i| format!("m{}", i)).collect();
    assert_eq!(first, expected);
    let rest = b.get_messages_for_client("red fox jumps", "Bob");
    assert_eq!(rest, vec!["m2".to_string(), "m1".to_string()]);
    assert!(b.get_messages_for_client("red fox jumps", "Bob").is_empty());
}

#[test]
fn handshake_host_and_client_exchange() {
    let mut b = RedisHelper::new();
    let (session, host_secret) = b.post_host_session(true, "Alice", 0).unwrap();
    let client_secret = b.initiate_join(&session, "Bob", "OFFER-SDP", 0).unwrap();
    let msgs = granted(b.get_receive_host_messages(&session, &host_secret));
    assert_eq!(msgs.len(), 1);
    assert_eq!(
        msgs[0],
        "{\"type\":\"start_join\",\"client_name\":\"Bob\",\"client_offer\":\"OFFER-SDP\"}"
    );
    granted(b.post_send_join_responses(&session, "Bob", &host_secret, "ANSWER-SDP".to_string()));
    let answers = granted(b.get_receive_join_responses(&session, "Bob", &client_secret));
    assert_eq!(answers, vec!["ANSWER-SDP".to_string()]);
}

#[test]
fn ice_candidate_relay_frames() {
    let mut b = RedisHelper::new();
    let host_secret = b.register_session("red fox jumps", true, "Alice", 0);
    let client_secret = b.initiate_join("red fox jumps", "Bob", "offer", 0).unwrap();
    // Flush the join announcement first.
    granted(b.get_receive_host_messages("red fox jumps", &host_secret));

    let cands = vec!["cand-1".to_string(), "cand-2".to_string()];
    match b.post_send_join_candidates("red fox jumps", "Bob", &client_secret, &cands, 0) {
        Ok(AuthOutcome::Granted(())) => {}
        _ => panic!("expected Granted"),
    }
    let msgs = granted(b.get_receive_host_messages("red fox jumps", &host_secret));
    assert_eq!(
        msgs,
        vec![
            "{\"type\":\"ice_candidate\",\"client_name\":\"Bob\",\"candidates\":[\"cand-1\",\"cand-2\"]}"
                .to_string()
        ]
    );

    b.host_ice_candidate("red fox jumps", "Bob", &vec!["h-cand".to_string()]);
    let client_msgs = granted(b.get_receive_join_responses("red fox jumps", "Bob", &client_secret));
    assert_eq!(
        client_msgs,
        vec!["{\"type\":\"ice_candidate\",\"candidates\":[\"h-cand\"]}".to_string()]
    );
}

#[test]
fn empty_candidate_list_is_invalid_input() {
    let mut b = RedisHelper::new();
    b.register_session("red fox jumps", true, "Alice", 0);
    let client_secret = b.initiate_join("red fox jumps", "Bob", "offer", 0).unwrap();
    let none: Vec<String> = Vec::new();
    match b.post_send_join_candidates("red fox jumps", "Bob", &client_secret, &none, 0) {
        Err(BrokerError::InvalidInput) => {}
        _ => panic!("expected InvalidInput"),
    }
}

#[test]
fn frames_escape_payloads() {
    let mut b = RedisHelper::new();
    let host_secret = b.register_session("red fox jumps", true, "Alice", 0);
    b.initiate_join("red fox jumps", "Bo\"b\\", "x\ny", 0).unwrap();
    let msgs = granted(b.get_receive_host_messages("red fox jumps", &host_secret));
    assert_eq!(
        msgs,
        vec![
            "{\"type\":\"start_join\",\"client_name\":\"Bo\\\"b\\\\\",\"client_offer\":\"x\\u000ay\"}"
                .to_string()
        ]
    );
}

#[test]
fn drains_never_return_secrets() {
    let mut b = RedisHelper::new();
    let (session, host_secret) = b.post_host_session(true, "Alice", 0).unwrap();
    // Nothing was queued by registration: the drain right after it is empty,
    // so the just-issued host secret is not retrievable.
    let msgs = granted(b.get_receive_host_messages(&session, &host_secret));
    assert!(msgs.is_empty());
    // A join queues only the announcement frame, which carries the client's
    // name and offer, never the issued secret.
    let client_secret = b.initiate_join(&session, "Bob", "offer", 0).unwrap();
    let msgs = granted(b.get_receive_host_messages(&session, &host_secret));
    assert_eq!(msgs.len(), 1);
    assert!(!msgs[0].contains(&client_secret));
    assert!(!msgs[0].contains(&host_secret));
    let client_msgs = granted(b.get_receive_join_responses(&session, "Bob", &client_secret));
    assert!(client_msgs.is_empty());
}

#[test]
fn ttl_sweep_expires_sessions_and_host_mail() {
    let mut b = RedisHelper::new();
    let host_secret = b.register_session("red fox jumps", true, "Alice", 0);
    let client_secret = b.initiate_join("red fox jumps", "Bob", "offer", 0).unwrap();
    b.purge_expired(599);
    assert!(b.has_session("red fox jumps"));
    assert!(b.session_has_client("red fox jumps", "Bob"));
    b.purge_expired(600);
    assert!(!b.has_session("red fox jumps"));
    assert!(!b.session_has_client("red fox jumps", "Bob"));
    assert!(!b.authenticate_host_message("red fox jumps", &host_secret));
    assert!(!b.authenticate_client_message("red fox jumps", "Bob", &client_secret));
    assert!(b.get_messages_for_host("red fox jumps").is_empty());
}

#[test]
fn host_mail_expiry_refreshed_by_push() {
    let mut b = RedisHelper::new();
    b.push_message_to_host("red fox jumps", "m1".to_string(), 0);
    b.push_message_to_host("red fox jumps", "m2".to_string(), 200);
    // The second push moved the deadline to 800, so the sweep at 700 keeps
    // both queued messages.
    b.purge_expired(700);
    let msgs = b.get_messages_for_host("red fox jumps");
    assert_eq!(msgs, vec!["m2".to_string(), "m1".to_string()]);
}

#[test]
fn ttl_sweep_spares_younger_sessions() {
    let mut b = RedisHelper::new();
    b.register_session("red fox jumps", true, "Alice", 0);
    b.register_session("blue owl waits", true, "Beth", 300);
    b.purge_expired(650);
    assert!(!b.has_session("red fox jumps"));
    assert!(b.has_session("blue owl waits"));
}

#[test]
fn client_mailboxes_survive_the_sweep() {
    let mut b = RedisHelper::new();
    b.push_message_to_client("red fox jumps", "Bob", "keep".to_string());
    b.purge_expired(1_000_000);
    let msgs = b.get_messages_for_client("red fox jumps", "Bob");
    assert_eq!(msgs, vec!["keep".to_string()]);
}

#[test]
fn generated_names_come_from_the_word_lists() {
    let name = signaling_broker::random_util::generate_name();
    let words: Vec<&str> = name.split(' ').collect();
    assert_eq!(words.len(), 3);
    let firsts: Vec<&str> = (0..signaling_broker::random_util::WORDS_PER_LIST)
        .map(signaling_broker::random_util::first_word)
        .collect();
    let seconds: Vec<&str> = (0..signaling_broker::random_util::WORDS_PER_LIST)
        .map(signaling_broker::random_util::second_word)
        .collect();
    let thirds: Vec<&str> = (0..signaling_broker::random_util::WORDS_PER_LIST)
        .map(signaling_broker::random_util::third_word)
        .collect();
    assert!(firsts.contains(&words[0]));
    assert!(seconds.contains(&words[1]));
    assert!(thirds.contains(&words[2]));
}
