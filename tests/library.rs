use vdom_websocket_rsjs::action::Action;
use vdom_websocket_rsjs::actor::{Reducer, StateActor};
use vdom_websocket_rsjs::bridge::{
    forward_actions, inbound_step, outbound_messages, snapshot_message, InboundStep, Incoming,
    Outgoing,
};
use vdom_websocket_rsjs::counter::{Counter, CounterTag};
use vdom_websocket_rsjs::listener::{handshake, offers, protocol_name, Handshake};

fn act(tag: CounterTag) -> Action<CounterTag> {
    Action::new(tag)
}

#[test]
fn new_action_has_no_data() {
    let a = Action::new(CounterTag::Increment);
    assert_eq!(a.tag, CounterTag::Increment);
    assert!(a.associated.is_empty());
}

#[test]
fn associate_adds_and_replaces() {
    let a = Action::new(CounterTag::Decrement)
        .associate("x".to_string(), "1".to_string())
        .associate("y".to_string(), "2".to_string())
        .associate("x".to_string(), "3".to_string());
    assert_eq!(a.tag, CounterTag::Decrement);
    assert_eq!(
        a.associated,
        vec![("x".to_string(), "3".to_string()), ("y".to_string(), "2".to_string())]
    );
}

#[test]
fn counter_scenario_oscillates_back_to_odd() {
    let mut actor = StateActor::new(Counter::new());
    let e = actor.process(&act(CounterTag::Increment));
    assert!(e.publish);
    assert_eq!(actor.state.count, 1);
    assert!(e.deferred.is_none());

    let e = actor.process(&act(CounterTag::Increment));
    assert!(e.publish);
    assert_eq!(actor.state.count, 2);
    let reaction = e.deferred.expect("a reaction is scheduled at an even count");
    assert_eq!(reaction.tag, CounterTag::Decrement);
    assert!(reaction.associated.is_empty());

    let e = actor.process(&reaction);
    assert!(e.publish);
    assert_eq!(actor.state.count, 1);
    assert!(e.deferred.is_none());
}

#[test]
fn decrement_at_zero_publishes_nothing() {
    let mut actor = StateActor::new(Counter::new());
    let e = actor.process(&act(CounterTag::Decrement));
    assert!(!e.publish);
    assert!(e.deferred.is_none());
    assert_eq!(actor.state.count, 0);
}

#[test]
fn increment_at_largest_count_publishes_nothing() {
    let mut actor = StateActor::new(Counter { count: u64::MAX });
    let e = actor.process(&act(CounterTag::Increment));
    assert!(!e.publish);
    assert_eq!(actor.state.count, u64::MAX);
}

#[test]
fn reducer_schedules_increment_after_decrement_to_even() {
    let c = Counter { count: 3 };
    let (next, follow_up) = c.reduce(&act(CounterTag::Decrement));
    assert_eq!(next, Some(Counter { count: 2 }));
    assert_eq!(follow_up.map(|f| f.tag), Some(CounterTag::Increment));
}

#[test]
fn published_steps_follow_changing_actions() {
    let mut actor = StateActor::new(Counter::new());
    let actions = vec![
        act(CounterTag::Increment),
        act(CounterTag::Decrement),
        act(CounterTag::Decrement),
        act(CounterTag::Increment),
    ];
    let published = actor.process_all(&actions);
    assert_eq!(published, vec![0, 1, 3]);
    assert!(published.len() <= actions.len());
    assert_eq!(actor.state.count, 1);
}

#[test]
fn malformed_text_is_dropped_and_next_action_still_applies() {
    let messages = vec![
        Incoming::Text("{not json".to_string()),
        Incoming::Text("{\"tag\":\"Increment\",\"associated\":{}}".to_string()),
    ];
    let decoded = vec![None, Some(act(CounterTag::Increment))];
    let actions = forward_actions(&messages, decoded);
    assert_eq!(actions.len(), 1);

    let mut actor = StateActor::new(Counter::new());
    let published = actor.process_all(&actions);
    assert_eq!(published, vec![0]);
    assert_eq!(actor.state.count, 1);
}

#[test]
fn inbound_loop_stops_at_close_and_skips_control_frames() {
    let messages = vec![
        Incoming::Ping(vec![1]),
        Incoming::Text("a".to_string()),
        Incoming::Binary(vec![2]),
        Incoming::Pong(vec![]),
        Incoming::Close,
        Incoming::Text("b".to_string()),
    ];
    let decoded = vec![
        None,
        Some(act(CounterTag::Increment)),
        None,
        None,
        None,
        Some(act(CounterTag::Decrement)),
    ];
    let actions = forward_actions(&messages, decoded);
    assert_eq!(actions.len(), 1);
    assert_eq!(actions[0].tag, CounterTag::Increment);
}

#[test]
fn inbound_step_per_message_kind() {
    assert_eq!(inbound_step(&Incoming::Text("x".to_string())), InboundStep::Decode);
    assert_eq!(inbound_step(&Incoming::Binary(vec![0])), InboundStep::Skip);
    assert_eq!(inbound_step(&Incoming::Ping(vec![])), InboundStep::Skip);
    assert_eq!(inbound_step(&Incoming::Pong(vec![])), InboundStep::Skip);
    assert_eq!(inbound_step(&Incoming::Close), InboundStep::Stop);
}

#[test]
fn snapshot_is_wrapped_in_tree_envelope() {
    assert_eq!(snapshot_message("{\"tag\":\"div\"}"), "{\"tree\":{\"tag\":\"div\"}}");
    assert_eq!(snapshot_message(""), "{\"tree\":}");
}

#[test]
fn outbound_ends_with_one_close() {
    let out = outbound_messages(&vec!["1".to_string(), "2".to_string()]);
    assert_eq!(out.len(), 3);
    match &out[0] {
        Outgoing::Text(t) => assert_eq!(t, "{\"tree\":1}"),
        Outgoing::Close => panic!("expected text"),
    }
    match &out[1] {
        Outgoing::Text(t) => assert_eq!(t, "{\"tree\":2}"),
        Outgoing::Close => panic!("expected text"),
    }
    assert!(matches!(out[2], Outgoing::Close));
    let empty = outbound_messages(&vec![]);
    assert_eq!(empty.len(), 1);
    assert!(matches!(empty[0], Outgoing::Close));
}

#[test]
fn missing_protocol_is_rejected_and_next_accepted() {
    assert_eq!(handshake(&vec![]), Handshake::Reject);
    assert_eq!(handshake(&vec!["other".to_string()]), Handshake::Reject);
    assert_eq!(
        handshake(&vec!["other".to_string(), "vdom-websocket-rsjs".to_string()]),
        Handshake::Accept
    );
}

#[test]
fn protocol_match_is_exact() {
    let wanted = protocol_name();
    assert_eq!(wanted, "vdom-websocket-rsjs");
    assert!(!offers(&vec!["vdom-websocket".to_string()], &wanted));
    assert!(!offers(&vec!["vdom-websocket-rsjs2".to_string()], &wanted));
    assert!(offers(&vec!["vdom-websocket-rsjs".to_string()], &wanted));
}

#[test]
fn connections_keep_independent_counters() {
    let mut a = StateActor::new(Counter::new());
    let mut b = StateActor::new(Counter::new());
    a.process(&act(CounterTag::Increment));
    a.process(&act(CounterTag::Increment));
    let e = b.process(&act(CounterTag::Increment));
    assert!(e.publish);
    assert_eq!(a.state.count, 2);
    assert_eq!(b.state.count, 1);
}

#[test]
fn with_pairs_lets_a_later_pair_win() {
    let pairs = vec![
        ("a".to_string(), "1".to_string()),
        ("b".to_string(), "2".to_string()),
        ("a".to_string(), "3".to_string()),
    ];
    let a = Action::with_pairs(CounterTag::Increment, &pairs);
    assert_eq!(a.tag, CounterTag::Increment);
    assert_eq!(
        a.associated,
        vec![("a".to_string(), "3".to_string()), ("b".to_string(), "2".to_string())]
    );
}

#[test]
fn rebuilt_action_has_same_data_in_any_order() {
    let a = Action::new(CounterTag::Decrement)
        .associate("x".to_string(), "1".to_string())
        .associate("y".to_string(), "2".to_string());
    let mut reversed = a.associated.clone();
    reversed.reverse();
    let b = Action::with_pairs(a.tag, &reversed);
    let mut left = a.associated.clone();
    let mut right = b.associated.clone();
    left.sort();
    right.sort();
    assert_eq!(left, right);
    assert_eq!(b.tag, CounterTag::Decrement);
}
