use event_pipeline::aggregator::Aggregator;
use event_pipeline::codec::decode;
use event_pipeline::codec::encode;
use event_pipeline::event::synthetic_event;
use event_pipeline::event::UserAction;
use event_pipeline::publisher::ingest_response;
use event_pipeline::publisher::publish_decision;
use event_pipeline::publisher::publish_run;
use event_pipeline::publisher::IngestResponse;
use event_pipeline::publisher::PublishError;
use event_pipeline::publisher::PublishStep;
use event_pipeline::publisher::SendOutcome;
use event_pipeline::publisher::MAX_ATTEMPTS;
use event_pipeline::publisher::RETRY_DELAY_MS;
use event_pipeline::routing::partition_for;
use event_pipeline::routing::routing_key;
use event_pipeline::subscriber::offset_reset_policy;
use event_pipeline::subscriber::process_message;
use event_pipeline::subscriber::should_commit;
use event_pipeline::subscriber::topic_name;
use event_pipeline::subscriber::ConsumeOutcome;
use event_pipeline::subscriber::GroupFilter;

fn click_event() -> UserAction {
    UserAction::new(7, "click", "web-app")
}

#[test]
fn round_trip_identity() {
    let e = click_event();
    let back = decode(encode(&e).as_str()).expect("frame must decode");
    assert_eq!(back, e);
}

#[test]
fn round_trip_unicode_and_empty_producer() {
    let e = UserAction::new(4294967295, "càfé-χ", "");
    let back = decode(encode(&e).as_str()).expect("frame must decode");
    assert_eq!(back, e);
}

#[test]
fn encode_exact_frame() {
    let e = click_event();
    assert_eq!(
        encode(&e).as_str(),
        "000000000700000000000000000005clickweb-app"
    );
}

#[test]
fn decode_rejects_short_frame() {
    assert!(decode("0000000007000000000000000000").is_none());
    assert!(decode("").is_none());
}

#[test]
fn decode_rejects_non_digit_header() {
    assert!(decode("00000000x700000000000000000005clickweb-app").is_none());
}

#[test]
fn decode_rejects_empty_action() {
    assert!(decode("000000000700000000000000000000web-app").is_none());
}

#[test]
fn decode_rejects_user_id_out_of_range() {
    // 9999999999 does not fit an unsigned 32-bit identifier.
    assert!(decode("999999999900000000000000000005clickweb-app").is_none());
}

#[test]
fn decode_rejects_action_length_past_end() {
    assert!(decode("000000000700000000000000000099clickweb-app").is_none());
}

#[test]
fn routing_key_is_decimal_form() {
    assert_eq!(routing_key(7).as_str(), "7");
    assert_eq!(routing_key(0).as_str(), "0");
    assert_eq!(routing_key(42).as_str(), "42");
    assert_eq!(routing_key(4294967295).as_str(), "4294967295");
}

#[test]
fn routing_is_stable_and_in_range() {
    for count in 1..17u32 {
        let first = partition_for(42, count);
        let again = partition_for(42, count);
        assert_eq!(first, again);
        assert!(first < count);
    }
}

#[test]
fn routing_exact_partitions() {
    // key "7" hashes to 55, key "42" to 52 * 31 + 50 = 1662.
    assert_eq!(partition_for(7, 12), 55 % 12);
    assert_eq!(partition_for(42, 12), 1662 % 12);
}

#[test]
fn retry_exhaustion_makes_three_attempts() {
    let outcomes = vec![SendOutcome::Failed, SendOutcome::Failed, SendOutcome::Failed];
    let (result, attempts) = publish_run(&outcomes);
    assert_eq!(result, Err(PublishError::RetriesExhausted));
    assert_eq!(attempts, MAX_ATTEMPTS);
}

#[test]
fn first_delivery_ends_publish() {
    let outcomes = vec![
        SendOutcome::Delivered { partition: 2 },
        SendOutcome::Failed,
        SendOutcome::Failed,
    ];
    assert_eq!(publish_run(&outcomes), (Ok(2), 1));
    let outcomes = vec![
        SendOutcome::Failed,
        SendOutcome::Delivered { partition: 5 },
        SendOutcome::Failed,
    ];
    assert_eq!(publish_run(&outcomes), (Ok(5), 2));
}

#[test]
fn decision_retries_with_fixed_delay_then_gives_up() {
    assert_eq!(
        publish_decision(1, &SendOutcome::Failed),
        PublishStep::Retry { wait_ms: RETRY_DELAY_MS }
    );
    assert_eq!(
        publish_decision(2, &SendOutcome::Failed),
        PublishStep::Retry { wait_ms: RETRY_DELAY_MS }
    );
    assert_eq!(publish_decision(3, &SendOutcome::Failed), PublishStep::GiveUp);
    assert_eq!(
        publish_decision(2, &SendOutcome::Delivered { partition: 4 }),
        PublishStep::Done { partition: 4 }
    );
}

#[test]
fn ingest_response_reports_partition_or_server_error() {
    assert_eq!(ingest_response(&Ok(3)), IngestResponse::Accepted { partition: 3 });
    assert_eq!(
        ingest_response(&Err(PublishError::RetriesExhausted)),
        IngestResponse::ServerError
    );
}

#[test]
fn filters_accept_what_their_group_wants() {
    let purchase = UserAction::new(1, "purchase", "x");
    let view = UserAction::new(1, "view", "x");
    assert!(GroupFilter::PurchaseOnly.accepts(&purchase));
    assert!(!GroupFilter::PurchaseOnly.accepts(&view));
    assert!(GroupFilter::AcceptAll.accepts(&purchase));
    assert!(GroupFilter::AcceptAll.accepts(&view));
}

#[test]
fn group_ids_and_fixed_configuration() {
    assert_eq!(GroupFilter::AcceptAll.group_id(), "analytics-group");
    assert_eq!(GroupFilter::PurchaseOnly.group_id(), "purchase-group");
    assert_eq!(topic_name(), "user-actions");
    assert_eq!(offset_reset_policy(), "earliest");
}

#[test]
fn analytics_group_counts_five_events_for_one_user() {
    let mut agg = Aggregator::new();
    let actions = ["click", "view", "purchase", "login", "view"];
    for action in actions {
        let e = UserAction::new(42, action, "web-app");
        let o = process_message(&mut agg, &GroupFilter::AcceptAll, encode(&e).as_str());
        assert_eq!(o, ConsumeOutcome::Counted { user_id: 42 });
        assert!(should_commit(&o));
    }
    assert_eq!(agg.count(42), 5);
    assert_eq!(agg.count(7), 0);
    assert_eq!(agg.snapshot(), vec![(42, 5)]);
}

#[test]
fn purchase_group_skips_a_view_without_counting_or_committing() {
    let mut agg = Aggregator::new();
    let e = UserAction::new(3, "view", "x");
    let o = process_message(&mut agg, &GroupFilter::PurchaseOnly, encode(&e).as_str());
    assert_eq!(o, ConsumeOutcome::FilteredOut);
    assert!(!should_commit(&o));
    assert_eq!(agg.count(3), 0);
    assert!(agg.snapshot().is_empty());
}

#[test]
fn purchase_group_counts_a_purchase() {
    let mut agg = Aggregator::new();
    let e = UserAction::new(3, "purchase", "x");
    let o = process_message(&mut agg, &GroupFilter::PurchaseOnly, encode(&e).as_str());
    assert_eq!(o, ConsumeOutcome::Counted { user_id: 3 });
    assert!(should_commit(&o));
    assert_eq!(agg.count(3), 1);
}

#[test]
fn undecodable_payload_is_skipped_without_commit() {
    let mut agg = Aggregator::new();
    let o = process_message(&mut agg, &GroupFilter::AcceptAll, "not a frame");
    assert_eq!(o, ConsumeOutcome::DecodeFailed);
    assert!(!should_commit(&o));
    assert!(agg.snapshot().is_empty());
}

#[test]
fn counts_stay_independent_per_user() {
    let mut agg = Aggregator::new();
    for user in [1u32, 2, 1, 3, 1, 2] {
        agg.increment(user);
    }
    assert_eq!(agg.count(1), 3);
    assert_eq!(agg.count(2), 2);
    assert_eq!(agg.count(3), 1);
    assert_eq!(agg.count(4), 0);
}

#[test]
fn synthetic_event_is_shaped_by_the_draws() {
    let e = synthetic_event("web-app", 142, 6);
    assert_eq!(e.user_id, 42);
    assert_eq!(e.action.as_str(), "purchase");
    assert_eq!(e.producer_id.as_str(), "web-app");
    let e = synthetic_event("gen", 99, 0);
    assert_eq!(e.user_id, 99);
    assert_eq!(e.action.as_str(), "click");
}

#[test]
fn well_formedness_checks_the_action() {
    assert!(click_event().is_well_formed());
    assert!(!UserAction::new(1, "", "x").is_well_formed());
}
