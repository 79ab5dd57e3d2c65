use tic_tac_toe::contract::{
    execute, execute_join_game, execute_new_game, execute_play_game, instantiate, migrate, query,
    query_completed_games, query_game_info_by_id, query_new_games, query_playing_games,
    QueryAnswer,
};
use tic_tac_toe::fairness::first_turn;
use tic_tac_toe::msgs::{ExecuteMsg, GameError, InstantiateMsg, MigrateMsg, QueryMsg};
use tic_tac_toe::state::GameStore;

fn bytes(s: &str) -> Vec<u8> {
    s.as_bytes().to_vec()
}

fn fresh_joined_game(hoster: &str, joiner: &str) -> (GameStore, Vec<u8>, Vec<u8>) {
    let mut store = instantiate(InstantiateMsg {});
    let h = bytes(hoster);
    let j = bytes(joiner);
    execute_new_game(&mut store, &h);
    assert_eq!(execute_join_game(&mut store, &j, 0), Ok(()));
    (store, h, j)
}

#[test]
fn new_game_ids_start_at_zero_and_increase() {
    let mut store = instantiate(InstantiateMsg {});
    let alice = bytes("alice");
    assert_eq!(execute_new_game(&mut store, &alice), 0);
    assert_eq!(execute_new_game(&mut store, &alice), 1);
    assert_eq!(execute_new_game(&mut store, &alice), 2);
    assert_eq!(query_new_games(&store, None, None), vec![0, 1, 2]);
}

#[test]
fn fresh_game_record_is_empty_and_open() {
    let mut store = instantiate(InstantiateMsg {});
    let alice = bytes("alice");
    execute_new_game(&mut store, &alice);
    let rec = query_game_info_by_id(&store, 0).unwrap();
    assert_eq!(rec.hoster, bytes("alice"));
    assert!(rec.joiner.is_empty());
    assert_eq!(rec.turn, 0);
    assert_eq!(rec.winner, 0);
    assert_eq!(rec.board, [[0; 3]; 3]);
}

#[test]
fn full_game_to_row_win() {
    let (mut store, h, j) = fresh_joined_game("alice", "bob");
    let rec = query_game_info_by_id(&store, 0).unwrap();
    assert!(rec.turn == 1 || rec.turn == 2);
    let (first, second, first_mark) = if rec.turn == 1 {
        (h.clone(), j.clone(), 1u16)
    } else {
        (j.clone(), h.clone(), 2u16)
    };
    let second_mark = 3 - first_mark;

    assert_eq!(execute_play_game(&mut store, &first, 0, 0, 0), Ok(()));
    let rec = query_game_info_by_id(&store, 0).unwrap();
    assert_eq!(rec.board[0][0], first_mark);
    assert_eq!(rec.turn, second_mark);

    assert_eq!(execute_play_game(&mut store, &second, 0, 1, 1), Ok(()));
    assert_eq!(execute_play_game(&mut store, &first, 0, 0, 1), Ok(()));
    assert_eq!(execute_play_game(&mut store, &second, 0, 2, 2), Ok(()));
    assert_eq!(execute_play_game(&mut store, &first, 0, 0, 2), Ok(()));

    let rec = query_game_info_by_id(&store, 0).unwrap();
    assert_eq!(rec.winner, first_mark);
    assert_eq!(rec.turn, 0);
    assert!(query_new_games(&store, None, None).is_empty());
    assert!(query_playing_games(&store, None, None).is_empty());
    assert_eq!(query_completed_games(&store, None, None), vec![0]);
}

#[test]
fn turn_alternates_after_every_move() {
    let (mut store, h, j) = fresh_joined_game("alice", "bob");
    let rec = query_game_info_by_id(&store, 0).unwrap();
    let (first, second) = if rec.turn == 1 { (h, j) } else { (j, h) };
    let first_turn_mark = rec.turn;

    assert_eq!(execute_play_game(&mut store, &first, 0, 1, 1), Ok(()));
    let rec = query_game_info_by_id(&store, 0).unwrap();
    assert_eq!(rec.turn, 3 - first_turn_mark);

    assert_eq!(execute_play_game(&mut store, &second, 0, 0, 1), Ok(()));
    let rec = query_game_info_by_id(&store, 0).unwrap();
    assert_eq!(rec.turn, first_turn_mark);
}

#[test]
fn join_assignment_is_deterministic() {
    let (store_a, _, _) = fresh_joined_game("alice", "bob");
    let (store_b, _, _) = fresh_joined_game("alice", "bob");
    let rec_a = query_game_info_by_id(&store_a, 0).unwrap();
    let rec_b = query_game_info_by_id(&store_b, 0).unwrap();
    assert_eq!(rec_a.turn, rec_b.turn);
    assert_eq!(first_turn(&bytes("alice"), &bytes("bob")), rec_a.turn);
    assert_eq!(
        first_turn(&bytes("alice"), &bytes("bob")),
        first_turn(&bytes("alice"), &bytes("bob"))
    );
}

#[test]
fn join_errors() {
    let mut store = instantiate(InstantiateMsg {});
    let alice = bytes("alice");
    let bob = bytes("bob");
    let carol = bytes("carol");

    // Never-allocated id.
    assert_eq!(
        execute_join_game(&mut store, &bob, 0),
        Err(GameError::InvalidGameId)
    );

    execute_new_game(&mut store, &alice);
    // The hoster cannot join the game they host.
    assert_eq!(
        execute_join_game(&mut store, &alice, 0),
        Err(GameError::CannotJoinOwnGame)
    );

    assert_eq!(execute_join_game(&mut store, &bob, 0), Ok(()));
    // A game already in its playing stage is not joinable.
    assert_eq!(
        execute_join_game(&mut store, &carol, 0),
        Err(GameError::GameNotJoinable)
    );
}

#[test]
fn play_position_out_of_range_is_rejected_first() {
    let mut store = instantiate(InstantiateMsg {});
    let alice = bytes("alice");
    execute_new_game(&mut store, &alice);
    // Row out of range: rejected regardless of the game's stage, even
    // though the game is still open.
    assert_eq!(
        execute_play_game(&mut store, &alice, 0, 3, 0),
        Err(GameError::InvalidPosition)
    );
    assert_eq!(
        execute_play_game(&mut store, &alice, 0, 0, 3),
        Err(GameError::InvalidPosition)
    );
}

#[test]
fn play_errors() {
    let mut store = instantiate(InstantiateMsg {});
    let alice = bytes("alice");
    let bob = bytes("bob");
    let carol = bytes("carol");

    assert_eq!(
        execute_play_game(&mut store, &alice, 7, 0, 0),
        Err(GameError::InvalidGameId)
    );

    execute_new_game(&mut store, &alice);
    // Nobody has joined yet.
    assert_eq!(
        execute_play_game(&mut store, &alice, 0, 0, 0),
        Err(GameError::GameNotInProgress)
    );

    assert_eq!(execute_join_game(&mut store, &bob, 0), Ok(()));
    let rec = query_game_info_by_id(&store, 0).unwrap();
    let (mover, waiter) = if rec.turn == 1 {
        (alice.clone(), bob.clone())
    } else {
        (bob.clone(), alice.clone())
    };

    // The participant whose turn it is not, and a stranger, are both turned
    // away.
    assert_eq!(
        execute_play_game(&mut store, &waiter, 0, 0, 0),
        Err(GameError::NotYourTurn)
    );
    assert_eq!(
        execute_play_game(&mut store, &carol, 0, 0, 0),
        Err(GameError::NotYourTurn)
    );

    assert_eq!(execute_play_game(&mut store, &mover, 0, 0, 0), Ok(()));
    assert_eq!(
        execute_play_game(&mut store, &waiter, 0, 0, 0),
        Err(GameError::PositionOccupied)
    );
}

#[test]
fn completed_game_rejects_further_moves() {
    let (mut store, h, j) = fresh_joined_game("alice", "bob");
    let rec = query_game_info_by_id(&store, 0).unwrap();
    let (first, second) = if rec.turn == 1 { (h, j) } else { (j, h) };

    assert_eq!(execute_play_game(&mut store, &first, 0, 0, 0), Ok(()));
    assert_eq!(execute_play_game(&mut store, &second, 0, 1, 0), Ok(()));
    assert_eq!(execute_play_game(&mut store, &first, 0, 0, 1), Ok(()));
    assert_eq!(execute_play_game(&mut store, &second, 0, 1, 1), Ok(()));
    assert_eq!(execute_play_game(&mut store, &first, 0, 0, 2), Ok(()));

    let rec = query_game_info_by_id(&store, 0).unwrap();
    assert_ne!(rec.winner, 0);
    // Once a winner is set, every further move fails and changes nothing.
    assert_eq!(
        execute_play_game(&mut store, &second, 0, 2, 2),
        Err(GameError::GameNotInProgress)
    );
    let after = query_game_info_by_id(&store, 0).unwrap();
    assert_eq!(after.board, rec.board);
    assert_eq!(after.winner, rec.winner);
    assert_eq!(query_completed_games(&store, None, None), vec![0]);
}

#[test]
fn lifecycle_lists_partition_the_games() {
    let mut store = instantiate(InstantiateMsg {});
    let alice = bytes("alice");
    let bob = bytes("bob");
    for _ in 0..3 {
        execute_new_game(&mut store, &alice);
    }
    assert_eq!(execute_join_game(&mut store, &bob, 1), Ok(()));
    assert_eq!(query_new_games(&store, None, None), vec![0, 2]);
    assert_eq!(query_playing_games(&store, None, None), vec![1]);
    assert!(query_completed_games(&store, None, None).is_empty());
}

/// Every existing id must sit in exactly one of the three lists, and no
/// unallocated id in any.
fn assert_partition(store: &GameStore, total: u128) {
    let open = query_new_games(store, None, Some(30));
    let playing = query_playing_games(store, None, Some(30));
    let completed = query_completed_games(store, None, Some(30));
    for id in 0..total {
        let hits = open.contains(&id) as u32
            + playing.contains(&id) as u32
            + completed.contains(&id) as u32;
        assert_eq!(hits, 1, "id {} must be in exactly one list", id);
    }
    assert_eq!(open.len() + playing.len() + completed.len(), total as usize);
}

#[test]
fn partition_holds_after_every_call() {
    let mut store = instantiate(InstantiateMsg {});
    let alice = bytes("alice");
    let bob = bytes("bob");
    assert_partition(&store, 0);

    for expected in 1..=4u128 {
        execute_new_game(&mut store, &alice);
        assert_partition(&store, expected);
    }

    assert_eq!(execute_join_game(&mut store, &bob, 2), Ok(()));
    assert_partition(&store, 4);
    // Failed calls leave the partition untouched too.
    assert_eq!(
        execute_join_game(&mut store, &bob, 2),
        Err(GameError::GameNotJoinable)
    );
    assert_partition(&store, 4);

    let rec = query_game_info_by_id(&store, 2).unwrap();
    let (first, second) = if rec.turn == 1 {
        (alice.clone(), bob.clone())
    } else {
        (bob.clone(), alice.clone())
    };
    for (mover, x, y) in [
        (&first, 0u16, 0u16),
        (&second, 1, 0),
        (&first, 0, 1),
        (&second, 1, 1),
        (&first, 0, 2),
    ] {
        assert_eq!(execute_play_game(&mut store, mover, 2, x, y), Ok(()));
        assert_partition(&store, 4);
    }
    assert_eq!(query_completed_games(&store, None, None), vec![2]);
    // A completed game can be joined by nobody.
    assert_eq!(
        execute_join_game(&mut store, &bytes("carol"), 2),
        Err(GameError::GameNotJoinable)
    );
    assert_partition(&store, 4);
}

#[test]
fn pagination_returns_all_when_fewer_than_limit() {
    let mut store = instantiate(InstantiateMsg {});
    let alice = bytes("alice");
    for _ in 0..5 {
        execute_new_game(&mut store, &alice);
    }
    let ids = query_new_games(&store, None, Some(30));
    assert_eq!(ids, vec![0, 1, 2, 3, 4]);
}

#[test]
fn pagination_default_and_cap() {
    let mut store = instantiate(InstantiateMsg {});
    let alice = bytes("alice");
    for _ in 0..35 {
        execute_new_game(&mut store, &alice);
    }
    // Default page size.
    let ids = query_new_games(&store, None, None);
    assert_eq!(ids.len(), 10);
    assert_eq!(ids, (0u128..10).collect::<Vec<u128>>());
    // A requested limit above the hard cap is clipped to it.
    let ids = query_new_games(&store, None, Some(50));
    assert_eq!(ids.len(), 30);
    assert_eq!(ids, (0u128..30).collect::<Vec<u128>>());
}

#[test]
fn pagination_start_after_is_exclusive() {
    let mut store = instantiate(InstantiateMsg {});
    let alice = bytes("alice");
    for _ in 0..6 {
        execute_new_game(&mut store, &alice);
    }
    let ids = query_new_games(&store, Some(2), Some(2));
    assert_eq!(ids, vec![3, 4]);
}

#[test]
fn query_game_info_unknown_id() {
    let store = instantiate(InstantiateMsg {});
    assert_eq!(
        query_game_info_by_id(&store, 0).unwrap_err(),
        GameError::InvalidGameId
    );
}

#[test]
fn dispatch_execute_and_query() {
    let mut store = instantiate(InstantiateMsg {});
    let alice = bytes("alice");
    let bob = bytes("bob");
    assert_eq!(execute(&mut store, &alice, ExecuteMsg::NewGame {}), Ok(()));
    assert_eq!(
        execute(&mut store, &bob, ExecuteMsg::JoinGame { game_id: 0 }),
        Ok(())
    );
    assert_eq!(
        execute(
            &mut store,
            &alice,
            ExecuteMsg::Play {
                game_id: 0,
                x_pos: 3,
                y_pos: 0
            }
        ),
        Err(GameError::InvalidPosition)
    );

    match query(&store, QueryMsg::GameInfoById { game_id: 0 }) {
        Ok(QueryAnswer::Game(rec)) => {
            assert_eq!(rec.hoster, bytes("alice"));
            assert_eq!(rec.joiner, bytes("bob"));
        }
        _ => panic!("expected the game record"),
    }
    match query(
        &store,
        QueryMsg::PlayingGames {
            start_after: None,
            limit: None,
        },
    ) {
        Ok(QueryAnswer::GameIds(ids)) => assert_eq!(ids, vec![0]),
        _ => panic!("expected a page of ids"),
    }
}

#[test]
fn migrate_preserves_everything() {
    let mut store = instantiate(InstantiateMsg {});
    let alice = bytes("alice");
    execute_new_game(&mut store, &alice);
    migrate(&mut store, MigrateMsg {});
    assert_eq!(query_new_games(&store, None, None), vec![0]);
    let rec = query_game_info_by_id(&store, 0).unwrap();
    assert_eq!(rec.hoster, bytes("alice"));
}

#[test]
fn error_messages() {
    assert_eq!(GameError::InvalidGameId.message(), "Invalid Game ID");
    assert_eq!(
        GameError::GameNotJoinable.message(),
        "The game is already in progress or completed."
    );
    assert_eq!(
        GameError::CannotJoinOwnGame.message(),
        "You can't join the game you hosted."
    );
    assert_eq!(GameError::InvalidPosition.message(), "Invalid Position");
    assert_eq!(
        GameError::GameNotInProgress.message(),
        "The game is not in progress now."
    );
    assert_eq!(GameError::NotYourTurn.message(), "It's not your turn.");
    assert_eq!(
        GameError::PositionOccupied.message(),
        "This position was already filled."
    );
}
