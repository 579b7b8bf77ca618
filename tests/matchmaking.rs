use dice_server::{
    handle_in_game, handle_match_making, handle_packet, start_1v1_match, DiceError, DicePacket,
    DiceSession, Games, GameMode, OneVOneArena, Response,
};

fn request(mode: Option<GameMode>) -> DicePacket {
    DicePacket { action: 0, game_mode: mode }
}

fn session(id: &str) -> DiceSession {
    DiceSession::new(id.to_string())
}

fn is_game_id(s: &str) -> bool {
    s.len() == 16 && s.chars().all(|c| c.is_ascii_digit())
}

#[test]
fn scenario_a_two_sessions_are_matched() {
    let mut games: Games<u32> = Games::new();
    let mut alice = session("alice");
    let mut bob = session("bob");
    let req = request(Some(GameMode::OneVOneNormal));
    assert_eq!(handle_match_making(&mut games, &mut alice, &req, 1), Response::Queued);
    assert_eq!(handle_match_making(&mut games, &mut bob, &req, 2), Response::Queued);
    assert!(alice.in_match_making && bob.in_match_making);

    let pairs = games.take_1v1_matches();
    assert_eq!(pairs.len(), 1);
    assert_eq!(pairs[0].0, ("alice".to_string(), 1));
    assert_eq!(pairs[0].1, ("bob".to_string(), 2));
    assert_eq!(games.queue_len(), 0);

    let found = start_1v1_match(&mut games, &mut alice, &mut bob).unwrap();
    assert_eq!(found.mode, GameMode::OneVOneNormal);
    assert!(!found.snapshot.is_empty());
    assert!(is_game_id(&found.game_id));
    assert!(alice.in_match && bob.in_match);
    assert!(!alice.in_match_making && !bob.in_match_making);
    assert_eq!(alice.game_id, Some(found.game_id.clone()));
    assert_eq!(alice.game_id, bob.game_id);
    assert_eq!(games.game_count(), 1);
    assert_eq!(games.get_1v1_game(found.game_id.clone()), Some(OneVOneArena::new()));
}

#[test]
fn scenario_b_missing_mode_is_rejected() {
    let mut games: Games<u32> = Games::new();
    let mut carol = session("carol");
    let r = handle_match_making(&mut games, &mut carol, &request(None), 7);
    assert_eq!(r, Response::Rejected(DiceError::MatchmakingNoGamemode));
    assert_eq!(games.queue_len(), 0);
    assert!(!carol.in_match_making && !carol.in_match);
}

#[test]
fn scenario_c_already_in_match_is_rejected() {
    let mut games: Games<u32> = Games::new();
    let mut dave = session("dave");
    dave.in_match = true;
    dave.game_id = Some("0123456789012345".to_string());
    let r = handle_match_making(&mut games, &mut dave, &request(Some(GameMode::OneVOneNormal)), 3);
    assert_eq!(
        r,
        Response::Rejected(DiceError::JoinMatchMakingWhileInMatch("dave".to_string()))
    );
    assert!(dave.in_match);
    assert!(!dave.in_match_making);
    assert_eq!(dave.game_id, Some("0123456789012345".to_string()));
    assert_eq!(games.queue_len(), 0);
    assert!(!games.is_queued(&"dave".to_string()));
}

#[test]
fn scenario_d_earliest_two_are_paired() {
    let mut games: Games<u32> = Games::new();
    games.send_1v1_matchmaking("a".to_string(), 1);
    games.send_1v1_matchmaking("b".to_string(), 2);
    games.send_1v1_matchmaking("c".to_string(), 3);
    let (p1, p2) = games.return_next_1v1_pair().unwrap();
    assert_eq!(p1.0, "a");
    assert_eq!(p2.0, "b");
    assert_eq!(games.queue_len(), 1);
    assert!(games.is_queued(&"c".to_string()));
    assert!(games.return_next_1v1_pair().is_none());
    assert_eq!(games.queue_len(), 1);
}

#[test]
fn no_identity_is_matched_twice() {
    let mut games: Games<u32> = Games::new();
    for (i, name) in ["p0", "p1", "p2", "p3", "p1", "p4"].iter().enumerate() {
        games.send_1v1_matchmaking(name.to_string(), i as u32);
    }
    let mut seen: Vec<String> = Vec::new();
    while let Some((a, b)) = games.return_next_1v1_pair() {
        for id in [a.0, b.0] {
            assert!(!seen.contains(&id));
            seen.push(id);
        }
    }
    assert_eq!(seen.len(), 4);
    assert_eq!(games.queue_len(), 1);
}

#[test]
fn draining_loses_no_entry() {
    let mut games: Games<u32> = Games::new();
    let names = ["u1", "u2", "u3", "u4", "u5"];
    for (i, name) in names.iter().enumerate() {
        games.send_1v1_matchmaking(name.to_string(), i as u32);
    }
    let pairs = games.take_1v1_matches();
    assert_eq!(pairs.len(), 2);
    assert_eq!((pairs[0].0 .0.as_str(), pairs[0].1 .0.as_str()), ("u1", "u2"));
    assert_eq!((pairs[1].0 .0.as_str(), pairs[1].1 .0.as_str()), ("u3", "u4"));
    assert_eq!(pairs[1].1 .1, 3);
    assert_eq!(games.queue_len(), 1);
    assert!(games.is_queued(&"u5".to_string()));
    games.send_1v1_matchmaking("u6".to_string(), 6);
    let more = games.take_1v1_matches();
    assert_eq!(more.len(), 1);
    assert_eq!(more[0].0 .0, "u5");
    assert_eq!(more[0].1 .0, "u6");
    assert_eq!(games.queue_len(), 0);
}

#[test]
fn pairing_removes_both_in_one_step() {
    let mut games: Games<u32> = Games::new();
    games.send_1v1_matchmaking("x".to_string(), 1);
    games.send_1v1_matchmaking("y".to_string(), 2);
    games.send_1v1_matchmaking("z".to_string(), 3);
    assert_eq!(games.queue_len(), 3);
    assert!(games.return_next_1v1_pair().is_some());
    assert_eq!(games.queue_len(), 1);
    assert!(!games.is_queued(&"x".to_string()));
    assert!(!games.is_queued(&"y".to_string()));
}

#[test]
fn session_state_follows_queue_and_arena() {
    let mut games: Games<u32> = Games::new();
    let mut s1 = session("s1");
    let mut s2 = session("s2");
    let req = request(Some(GameMode::OneVOneNormal));
    handle_packet(&mut games, &mut s1, &req, 1);
    assert_eq!(s1.in_match_making, games.is_queued(&s1.id));
    assert_eq!(s1.in_match, s1.game_id.is_some());
    handle_packet(&mut games, &mut s2, &req, 2);
    let pair = games.return_next_1v1_pair().unwrap();
    assert_eq!(pair.0 .0, "s1");
    start_1v1_match(&mut games, &mut s1, &mut s2).unwrap();
    for s in [&s1, &s2] {
        assert_eq!(s.in_match_making, games.is_queued(&s.id));
        assert_eq!(s.in_match, s.game_id.is_some());
        assert!(s.in_match);
    }
    assert_eq!(handle_packet(&mut games, &mut s1, &req, 9), Response::Acknowledged);
    assert_eq!(games.queue_len(), 0);
}

#[test]
fn registry_grows_with_each_arena() {
    let mut games: Games<u32> = Games::new();
    let mut ids: Vec<String> = Vec::new();
    for n in 1..=5usize {
        let id = games.new_1v1_game().unwrap();
        assert!(is_game_id(&id));
        assert_eq!(games.game_count(), n);
        assert!(!ids.contains(&id));
        ids.push(id);
    }
    for id in &ids {
        assert_eq!(games.get_1v1_game(id.clone()), Some(OneVOneArena::new()));
    }
}

#[test]
fn taken_identifier_is_not_overwritten() {
    let mut games: Games<u32> = Games::new();
    let mut arena = OneVOneArena::new();
    assert!(games.insert_1v1_game("1111111111111111".to_string(), arena));
    arena.round = 4;
    assert!(!games.insert_1v1_game("1111111111111111".to_string(), arena));
    assert_eq!(games.game_count(), 1);
    assert_eq!(
        games.get_1v1_game("1111111111111111".to_string()),
        Some(OneVOneArena::new())
    );
}

#[test]
fn unknown_arena_is_not_found() {
    let games: Games<u32> = Games::new();
    assert_eq!(games.get_1v1_game("0000000000000000".to_string()), None);
}

#[test]
fn rejection_leaves_queue_untouched() {
    let mut games: Games<u32> = Games::new();
    games.send_1v1_matchmaking("other".to_string(), 5);
    let mut dave = session("dave");
    dave.in_match = true;
    dave.game_id = Some("5555555555555555".to_string());
    let r = handle_match_making(&mut games, &mut dave, &request(Some(GameMode::OneVOneNormal)), 6);
    assert!(matches!(r, Response::Rejected(DiceError::JoinMatchMakingWhileInMatch(_))));
    let mut carol = session("carol");
    let r = handle_match_making(&mut games, &mut carol, &request(None), 7);
    assert_eq!(r, Response::Rejected(DiceError::MatchmakingNoGamemode));
    assert_eq!(games.queue_len(), 1);
    assert!(games.is_queued(&"other".to_string()));
    assert!(!games.is_queued(&"carol".to_string()));
}

#[test]
fn unknown_action_closes_connection() {
    let mut games: Games<u32> = Games::new();
    let mut eve = session("eve");
    let packet = DicePacket { action: 3, game_mode: Some(GameMode::OneVOneNormal) };
    assert_eq!(handle_packet(&mut games, &mut eve, &packet, 1), Response::Closed);
    assert_eq!(games.queue_len(), 0);
    assert!(!eve.in_match_making);
}

#[test]
fn in_match_without_arena_is_closed() {
    let mut s = session("mallory");
    s.in_match = true;
    assert_eq!(handle_in_game(&s, &request(None)), Response::Closed);
    s.game_id = Some("1234123412341234".to_string());
    assert_eq!(handle_in_game(&s, &request(None)), Response::Acknowledged);
}

#[test]
fn requeue_replaces_connection_in_place() {
    let mut games: Games<u32> = Games::new();
    games.send_1v1_matchmaking("a".to_string(), 1);
    games.send_1v1_matchmaking("b".to_string(), 2);
    games.send_1v1_matchmaking("a".to_string(), 10);
    assert_eq!(games.queue_len(), 2);
    let (p1, p2) = games.return_next_1v1_pair().unwrap();
    assert_eq!(p1, ("a".to_string(), 10));
    assert_eq!(p2, ("b".to_string(), 2));
}

#[test]
fn cancel_removes_only_that_entry() {
    let mut games: Games<u32> = Games::new();
    games.send_1v1_matchmaking("a".to_string(), 1);
    games.send_1v1_matchmaking("b".to_string(), 2);
    games.send_1v1_matchmaking("c".to_string(), 3);
    games.remove_1v1_matchmaking("a".to_string());
    games.remove_1v1_matchmaking("zzz".to_string());
    assert_eq!(games.queue_len(), 2);
    let (p1, p2) = games.return_next_1v1_pair().unwrap();
    assert_eq!((p1.0.as_str(), p2.0.as_str()), ("b", "c"));
}

#[test]
fn snapshot_encoding_is_exact() {
    let arena = OneVOneArena { mode: GameMode::OneVOneNormal, round: 258, p1_score: 1, p2_score: 0x01020304 };
    assert_eq!(
        arena.encode(),
        vec![0, 2, 1, 0, 0, 1, 0, 0, 0, 4, 3, 2, 1]
    );
    assert_eq!(OneVOneArena::new().encode(), vec![0; 13]);
}

#[test]
fn routed_request_queues_this_connection_in_order() {
    let mut games: Games<u32> = Games::new();
    let mut first = session("first");
    let mut second = session("second");
    let req = request(Some(GameMode::OneVOneNormal));
    assert_eq!(handle_packet(&mut games, &mut first, &req, 41), Response::Queued);
    assert_eq!(handle_packet(&mut games, &mut second, &req, 42), Response::Queued);
    assert_eq!(handle_packet(&mut games, &mut first, &req, 43), Response::Queued);
    assert_eq!(games.queue_len(), 2);
    let (p1, p2) = games.return_next_1v1_pair().unwrap();
    assert_eq!(p1, ("first".to_string(), 43));
    assert_eq!(p2, ("second".to_string(), 42));
    assert_eq!(games.game_count(), 0);
}
