use drawguess::events::{Circle, Delivery, EventError, InboundWsEvent, OutboundWsEvent};
use drawguess::handler::name_from_event;
use drawguess::registry::Registry;

fn room_with_players(names: &[&str]) -> (Registry, usize, Vec<String>) {
    let mut registry = Registry::new();
    let code = registry.create_room().expect("code space exhausted");
    let i = registry.room_index(&code).expect("room exists");
    let mut out: Vec<Delivery> = Vec::new();
    let mut ids = Vec::new();
    for name in names {
        ids.push(registry.room_at_mut(i).admit_player(name.to_string(), &mut out));
    }
    (registry, i, ids)
}

fn host_names(registry: &Registry, i: usize) -> Vec<String> {
    registry
        .room_at(i)
        .players
        .iter()
        .filter(|p| p.info.is_host)
        .map(|p| p.info.name.clone())
        .collect()
}

fn start_round(registry: &mut Registry, i: usize, host: &String, answer: &str) {
    let mut out: Vec<Delivery> = Vec::new();
    let event = InboundWsEvent::NewImage {
        dimensions: (100, 200),
        answer: answer.to_string(),
    };
    registry
        .room_at_mut(i)
        .handle_inbound_ws_event(host, event, &mut out)
        .expect("host starts a round");
}

#[test]
fn test_first_player_is_host_later_are_not() {
    let (registry, i, _) = room_with_players(&["Alice", "Bob", "Carol"]);
    let room = registry.room_at(i);
    assert!(room.players[0].info.is_host);
    assert!(!room.players[1].info.is_host);
    assert!(!room.players[2].info.is_host);
}

#[test]
fn test_exactly_one_host_through_joins_and_leaves() {
    let (mut registry, i, ids) = room_with_players(&["Alice", "Bob", "Carol"]);
    assert_eq!(host_names(&registry, i).len(), 1);

    let mut out: Vec<Delivery> = Vec::new();
    registry.room_at_mut(i).handle_disconnect(&ids[1], &mut out);
    assert_eq!(host_names(&registry, i).len(), 1);

    registry.room_at_mut(i).handle_disconnect(&ids[0], &mut out);
    assert_eq!(host_names(&registry, i).len(), 1);

    registry.room_at_mut(i).handle_disconnect(&ids[2], &mut out);
    assert_eq!(host_names(&registry, i).len(), 0);
    assert_eq!(registry.room_at(i).players.len(), 0);
}

#[test]
fn test_remove_host_promotes_next_in_join_order() {
    let (mut registry, i, ids) = room_with_players(&["Alice", "Bob", "Carol"]);
    let mut out: Vec<Delivery> = Vec::new();
    registry.room_at_mut(i).handle_disconnect(&ids[0], &mut out);
    assert_eq!(host_names(&registry, i), vec!["Bob".to_string()]);
}

#[test]
fn test_remove_last_slot_host_wraps_to_first() {
    let (mut registry, i, ids) = room_with_players(&["Alice", "Bob", "Carol"]);
    let mut out: Vec<Delivery> = Vec::new();
    // Rotate the host to Carol (the last slot) with two passes.
    registry
        .room_at_mut(i)
        .handle_inbound_ws_event(&ids[0], InboundWsEvent::Pass, &mut out)
        .expect("host passes");
    registry
        .room_at_mut(i)
        .handle_inbound_ws_event(&ids[1], InboundWsEvent::Pass, &mut out)
        .expect("host passes");
    assert_eq!(host_names(&registry, i), vec!["Carol".to_string()]);

    registry.room_at_mut(i).handle_disconnect(&ids[2], &mut out);
    assert_eq!(host_names(&registry, i), vec!["Alice".to_string()]);
}

#[test]
fn test_start_round_fails_while_round_active() {
    let (mut registry, i, ids) = room_with_players(&["Alice", "Bob"]);
    start_round(&mut registry, i, &ids[0], "foo");
    let answer_before = registry.room_at(i).round.as_ref().unwrap().answer.clone();

    let mut out: Vec<Delivery> = Vec::new();
    let again = InboundWsEvent::NewImage {
        dimensions: (7, 7),
        answer: "bar".to_string(),
    };
    let r = registry.room_at_mut(i).handle_inbound_ws_event(&ids[0], again, &mut out);
    assert_eq!(r, Err(EventError::RoundAlreadyActive));
    assert_eq!(registry.room_at(i).round.as_ref().unwrap().answer, answer_before);
    assert!(out.is_empty());
}

#[test]
fn test_end_round_clears_round_and_answers() {
    let (mut registry, i, ids) = room_with_players(&["Alice", "Bob"]);
    start_round(&mut registry, i, &ids[0], "foo");

    let mut out: Vec<Delivery> = Vec::new();
    registry
        .room_at_mut(i)
        .handle_inbound_ws_event(&ids[1], InboundWsEvent::ChatMessage("foo".to_string()), &mut out)
        .expect("guess is accepted");

    let room = registry.room_at(i);
    assert!(room.round.is_none());
    assert!(room.players.iter().all(|p| !p.info.has_answer));
}

#[test]
fn test_round_ends_exactly_when_all_guessers_answered() {
    let (mut registry, i, ids) = room_with_players(&["Alice", "Bob", "Carol"]);
    start_round(&mut registry, i, &ids[0], "foo");

    let mut out: Vec<Delivery> = Vec::new();
    registry
        .room_at_mut(i)
        .handle_inbound_ws_event(&ids[1], InboundWsEvent::ChatMessage("foo".to_string()), &mut out)
        .expect("guess is accepted");
    // Carol is still guessing, so the round goes on.
    assert!(registry.room_at(i).round.is_some());
    assert!(registry.room_at(i).players[1].info.has_answer);

    registry
        .room_at_mut(i)
        .handle_inbound_ws_event(&ids[2], InboundWsEvent::GiveUp, &mut out)
        .expect("give-up is accepted");
    // Now every non-host player has the answer: the round ends and the host
    // rotates exactly once, from Alice to Bob.
    assert!(registry.room_at(i).round.is_none());
    assert_eq!(host_names(&registry, i), vec!["Bob".to_string()]);
}

#[test]
fn test_full_round_scenario() {
    let mut registry = Registry::new();
    let code = registry.create_room().expect("code space exhausted");
    let i = registry.room_index(&code).expect("room exists");

    let mut out: Vec<Delivery> = Vec::new();
    let alice = registry.room_at_mut(i).admit_player("Alice".to_string(), &mut out);
    assert!(registry.room_at(i).players[0].info.is_host);
    let bob = registry.room_at_mut(i).admit_player("Bob".to_string(), &mut out);
    assert!(!registry.room_at(i).players[1].info.is_host);

    // Alice uploads a round.
    out.clear();
    let upload = InboundWsEvent::NewImage {
        dimensions: (100, 200),
        answer: "foo".to_string(),
    };
    registry
        .room_at_mut(i)
        .handle_inbound_ws_event(&alice, upload, &mut out)
        .expect("host starts a round");
    {
        let round = registry.room_at(i).round.as_ref().unwrap();
        assert_eq!(round.answer, "foo");
        assert!(round.circles.is_empty());
    }
    // Everyone is told the dimensions and the masked hint.
    assert!(out.iter().any(|d| matches!(
        d,
        Delivery::ToAll {
            event: OutboundWsEvent::NewImage { dimensions: (100, 200), answer_hint }
        } if answer_hint.as_str() == "___"
    )));

    // Alice draws a circle; it reaches the whole room.
    out.clear();
    let circle = Circle {
        imgx: 100,
        imgy: 200,
        center: (10, 10),
        radius: 5,
        color: (1, 2, 3, 255),
    };
    registry
        .room_at_mut(i)
        .handle_inbound_ws_event(&alice, InboundWsEvent::Circle(circle), &mut out)
        .expect("host draws");
    assert_eq!(registry.room_at(i).round.as_ref().unwrap().circles.len(), 1);
    assert!(out
        .iter()
        .any(|d| matches!(d, Delivery::ToAll { event: OutboundWsEvent::Circle(c) } if *c == circle)));

    // Bob guesses the answer; the round ends and Bob becomes host.
    out.clear();
    registry
        .room_at_mut(i)
        .handle_inbound_ws_event(&bob, InboundWsEvent::ChatMessage("foo".to_string()), &mut out)
        .expect("guess is accepted");
    assert!(registry.room_at(i).round.is_none());
    assert_eq!(host_names(&registry, i), vec!["Bob".to_string()]);
    // Bob was privately shown the answer.
    assert!(out.iter().any(|d| matches!(
        d,
        Delivery::ToPlayer { player: 1, event: OutboundWsEvent::Answer(a) } if a.as_str() == "foo"
    )));
}

#[test]
fn test_circle_from_non_host_is_dropped() {
    let (mut registry, i, ids) = room_with_players(&["Alice", "Bob"]);
    start_round(&mut registry, i, &ids[0], "foo");

    let mut out: Vec<Delivery> = Vec::new();
    let circle = Circle {
        imgx: 100,
        imgy: 200,
        center: (1, 1),
        radius: 2,
        color: (0, 0, 0, 255),
    };
    let r = registry
        .room_at_mut(i)
        .handle_inbound_ws_event(&ids[1], InboundWsEvent::Circle(circle), &mut out);
    assert_eq!(r, Err(EventError::NotHost));
    assert_eq!(registry.room_at(i).round.as_ref().unwrap().circles.len(), 0);
    assert!(out.is_empty());
}

#[test]
fn test_circle_without_round_is_ignored() {
    let (mut registry, i, ids) = room_with_players(&["Alice", "Bob"]);
    let mut out: Vec<Delivery> = Vec::new();
    let circle = Circle {
        imgx: 1,
        imgy: 1,
        center: (0, 0),
        radius: 1,
        color: (0, 0, 0, 0),
    };
    let r = registry
        .room_at_mut(i)
        .handle_inbound_ws_event(&ids[0], InboundWsEvent::Circle(circle), &mut out);
    assert_eq!(r, Ok(()));
    assert!(registry.room_at(i).round.is_none());
    assert!(out.is_empty());
}

#[test]
fn test_empty_chat_rejected() {
    let (mut registry, i, ids) = room_with_players(&["Alice"]);
    let mut out: Vec<Delivery> = Vec::new();
    let r = registry
        .room_at_mut(i)
        .handle_inbound_ws_event(&ids[0], InboundWsEvent::ChatMessage(String::new()), &mut out);
    assert_eq!(r, Err(EventError::EmptyMessage));
    assert!(out.is_empty());
}

#[test]
fn test_unknown_sender_rejected() {
    let (mut registry, i, _) = room_with_players(&["Alice"]);
    let mut out: Vec<Delivery> = Vec::new();
    let ghost_id = "nobody-here".to_string();
    let r = registry
        .room_at_mut(i)
        .handle_inbound_ws_event(&ghost_id, InboundWsEvent::ChatMessage("hi".to_string()), &mut out);
    assert_eq!(r, Err(EventError::PlayerNotFound));
    assert!(out.is_empty());
}

#[test]
fn test_give_up_requires_active_round() {
    let (mut registry, i, ids) = room_with_players(&["Alice", "Bob"]);
    let mut out: Vec<Delivery> = Vec::new();
    let r = registry
        .room_at_mut(i)
        .handle_inbound_ws_event(&ids[1], InboundWsEvent::GiveUp, &mut out);
    assert_eq!(r, Err(EventError::NoActiveRound));
}

#[test]
fn test_host_cannot_give_up() {
    let (mut registry, i, ids) = room_with_players(&["Alice", "Bob"]);
    start_round(&mut registry, i, &ids[0], "foo");
    let mut out: Vec<Delivery> = Vec::new();
    let r = registry
        .room_at_mut(i)
        .handle_inbound_ws_event(&ids[0], InboundWsEvent::GiveUp, &mut out);
    assert_eq!(r, Err(EventError::HostCannotGiveUp));
}

#[test]
fn test_pass_rejected_during_round_and_for_non_host() {
    let (mut registry, i, ids) = room_with_players(&["Alice", "Bob"]);
    let mut out: Vec<Delivery> = Vec::new();
    let r = registry
        .room_at_mut(i)
        .handle_inbound_ws_event(&ids[1], InboundWsEvent::Pass, &mut out);
    assert_eq!(r, Err(EventError::NotHost));

    start_round(&mut registry, i, &ids[0], "foo");
    let r = registry
        .room_at_mut(i)
        .handle_inbound_ws_event(&ids[0], InboundWsEvent::Pass, &mut out);
    assert_eq!(r, Err(EventError::RoundInProgress));
}

#[test]
fn test_player_name_after_handshake_unsupported() {
    let (mut registry, i, ids) = room_with_players(&["Alice"]);
    let mut out: Vec<Delivery> = Vec::new();
    let r = registry.room_at_mut(i).handle_inbound_ws_event(
        &ids[0],
        InboundWsEvent::PlayerName("Zoe".to_string()),
        &mut out,
    );
    assert_eq!(r, Err(EventError::Unsupported));
}

#[test]
fn test_guess_normalization_trims_and_lowercases() {
    let (mut registry, i, ids) = room_with_players(&["Alice", "Bob"]);
    // The stored answer is lowercased even when uploaded with capitals.
    start_round(&mut registry, i, &ids[0], "FooBar");
    assert_eq!(registry.room_at(i).round.as_ref().unwrap().answer, "foobar");

    let mut out: Vec<Delivery> = Vec::new();
    registry
        .room_at_mut(i)
        .handle_inbound_ws_event(&ids[1], InboundWsEvent::ChatMessage("  FOOBAR ".to_string()), &mut out)
        .expect("normalized guess is accepted");
    assert!(registry.room_at(i).round.is_none());
}

#[test]
fn test_wrong_guess_is_broadcast_as_chat() {
    let (mut registry, i, ids) = room_with_players(&["Alice", "Bob"]);
    start_round(&mut registry, i, &ids[0], "foo");
    let mut out: Vec<Delivery> = Vec::new();
    registry
        .room_at_mut(i)
        .handle_inbound_ws_event(&ids[1], InboundWsEvent::ChatMessage("bar".to_string()), &mut out)
        .expect("chat goes through");
    assert!(registry.room_at(i).round.is_some());
    assert!(!registry.room_at(i).players[1].info.has_answer);
    assert!(out.iter().any(|d| matches!(
        d,
        Delivery::ToAll { event: OutboundWsEvent::ChatMessage { name, text } }
            if name.as_str() == "Bob" && text.as_str() == "bar"
    )));
}

#[test]
fn test_secret_chat_routed_to_answered_and_host_only() {
    let (mut registry, i, ids) = room_with_players(&["Alice", "Bob", "Carol"]);
    start_round(&mut registry, i, &ids[0], "foo");
    let mut out: Vec<Delivery> = Vec::new();
    registry
        .room_at_mut(i)
        .handle_inbound_ws_event(&ids[1], InboundWsEvent::ChatMessage("foo".to_string()), &mut out)
        .expect("guess is accepted");

    // Bob has answered; a line from Bob now goes only to Alice (host) and
    // Bob, never to Carol, and it carries Bob's name.
    out.clear();
    registry
        .room_at_mut(i)
        .handle_inbound_ws_event(&ids[1], InboundWsEvent::ChatMessage("psst".to_string()), &mut out)
        .expect("secret chat goes through");
    let mut recipients = Vec::new();
    for d in &out {
        match d {
            Delivery::ToPlayer {
                player,
                event: OutboundWsEvent::SecretChatMessage { name, text },
            } => {
                assert_eq!(name.as_str(), "Bob");
                assert_eq!(text.as_str(), "psst");
                recipients.push(*player);
            }
            other => panic!("unexpected delivery {:?}", std::mem::discriminant(other)),
        }
    }
    assert_eq!(recipients, vec![0, 1]);
}

#[test]
fn test_chat_without_round_is_plain_broadcast() {
    let (mut registry, i, ids) = room_with_players(&["Alice", "Bob"]);
    let mut out: Vec<Delivery> = Vec::new();
    registry
        .room_at_mut(i)
        .handle_inbound_ws_event(&ids[0], InboundWsEvent::ChatMessage("hello".to_string()), &mut out)
        .expect("chat goes through");
    assert_eq!(out.len(), 1);
    assert!(matches!(
        &out[0],
        Delivery::ToAll { event: OutboundWsEvent::ChatMessage { name, text } }
            if name.as_str() == "Alice" && text.as_str() == "hello"
    ));
}

#[test]
fn test_admission_deliveries_in_order() {
    let mut registry = Registry::new();
    let code = registry.create_room().expect("code space exhausted");
    let i = registry.room_index(&code).expect("room exists");
    let mut out: Vec<Delivery> = Vec::new();
    let alice = registry.room_at_mut(i).admit_player("Alice".to_string(), &mut out);

    assert_eq!(out.len(), 3);
    assert!(matches!(
        &out[0],
        Delivery::ToPlayer { player: 0, event: OutboundWsEvent::PrivateInfo { private_id, info } }
            if *private_id == alice && info.name == "Alice"
    ));
    assert!(matches!(
        &out[1],
        Delivery::ToAll { event: OutboundWsEvent::PlayerList(ps) } if ps.len() == 1
    ));
    assert!(matches!(
        &out[2],
        Delivery::ToAll { event: OutboundWsEvent::ServerMessage(t) } if t.as_str() == "Alice joined"
    ));
}

#[test]
fn test_late_joiner_catches_up_on_round() {
    let (mut registry, i, ids) = room_with_players(&["Alice", "Bob"]);
    start_round(&mut registry, i, &ids[0], "cat dog");
    let circle = Circle {
        imgx: 100,
        imgy: 200,
        center: (3, 4),
        radius: 9,
        color: (9, 8, 7, 255),
    };
    let mut out: Vec<Delivery> = Vec::new();
    registry
        .room_at_mut(i)
        .handle_inbound_ws_event(&ids[0], InboundWsEvent::Circle(circle), &mut out)
        .expect("host draws");

    out.clear();
    registry.room_at_mut(i).admit_player("Carol".to_string(), &mut out);
    assert!(matches!(
        &out[1],
        Delivery::ToPlayer { player: 2, event: OutboundWsEvent::NewImage { dimensions: (100, 200), answer_hint } }
            if answer_hint.as_str() == "___ ___"
    ));
    assert!(matches!(
        &out[2],
        Delivery::ToPlayer { player: 2, event: OutboundWsEvent::CircleSequence(cs) }
            if cs.len() == 1 && cs[0] == circle
    ));
}

#[test]
fn test_handshake_accepts_only_player_name() {
    assert_eq!(
        name_from_event(InboundWsEvent::PlayerName("Zoe".to_string())),
        Some("Zoe".to_string())
    );
    assert_eq!(name_from_event(InboundWsEvent::GiveUp), None);
    assert_eq!(
        name_from_event(InboundWsEvent::ChatMessage("hi".to_string())),
        None
    );
}

#[test]
fn test_disconnect_notifies_remaining_players() {
    let (mut registry, i, ids) = room_with_players(&["Alice", "Bob"]);
    let mut out: Vec<Delivery> = Vec::new();
    let armed = registry.room_at_mut(i).handle_disconnect(&ids[1], &mut out);
    assert!(!armed);
    assert!(out.iter().any(|d| matches!(
        d,
        Delivery::ToAll { event: OutboundWsEvent::ServerMessage(t) } if t.as_str() == "Bob left"
    )));
    assert!(out.iter().any(|d| matches!(
        d,
        Delivery::ToAll { event: OutboundWsEvent::PlayerList(ps) } if ps.len() == 1
    )));
}

#[test]
fn test_round_end_reveals_answer_to_room() {
    let (mut registry, i, ids) = room_with_players(&["Alice", "Bob"]);
    start_round(&mut registry, i, &ids[0], "foo");
    let mut out: Vec<Delivery> = Vec::new();
    registry
        .room_at_mut(i)
        .handle_inbound_ws_event(&ids[1], InboundWsEvent::ChatMessage("foo".to_string()), &mut out)
        .expect("guess is accepted");
    assert!(out.iter().any(|d| matches!(
        d,
        Delivery::ToAll { event: OutboundWsEvent::ServerMessage(t) }
            if t.as_str() == "The answer was \"foo\""
    )));
    assert!(out.iter().any(|d| matches!(
        d,
        Delivery::ToAll { event: OutboundWsEvent::ServerMessage(t) } if t.as_str() == "Bob got it right"
    )));
}
