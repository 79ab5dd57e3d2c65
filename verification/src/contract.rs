//! The transition controller and the query surface.
//!
//! Three operations drive every game through its lifecycle: creating a game,
//! joining one, and playing a move. Each operation validates before it
//! mutates, commits either all of its writes or none, and moves the game's
//! id across exactly one lifecycle-list boundary. The queries are read-only.

use vstd::prelude::*;
use crate::board::{board_set, board_view, calculate_winner, empty_board, set_cell, verdict,
    MARK_HOSTER, MARK_JOINER, MARK_NONE};
use crate::fairness::{first_turn, spec_first_turn};
use crate::idset::{above, effective_limit, insert_sorted, lemma_page_len, lemma_page_members,
    page_of, paginate_ids, remove_sorted};
use crate::msgs::{ExecuteMsg, GameError, InstantiateMsg, MigrateMsg, QueryMsg};
use crate::state::{bytes_eq, clone_bytes, clone_record, fresh_record, sorted_strict, GameInfo,
    GameStore, RecordView, Stage, StoreView};

verus! {

/// The answer to a read-only request: one record, or a page of ids.
pub enum QueryAnswer {
    Game(GameInfo),
    GameIds(Vec<u128>),
}

/// How creating a game changes the store: the counter's old value is the new
/// id, the counter advances by one, the fresh record is appended, and the id
/// enters the open list; nothing else moves.
pub open spec fn new_game_transition(
    pre: StoreView,
    post: StoreView,
    sender: Seq<u8>,
    game_id: u128,
) -> bool {
    &&& game_id == pre.last_game_id
    &&& post.last_game_id == pre.last_game_id + 1
    &&& post.games == pre.games.push(fresh_record(sender))
    &&& post.new_games == pre.new_games.push(game_id)
    &&& post.playing_games == pre.playing_games
    &&& post.completed_games == pre.completed_games
}

/// The record after a successful join: the joiner is recorded and the first
/// mover is assigned deterministically from the two identities.
pub open spec fn joined_record(g: RecordView, sender: Seq<u8>) -> RecordView {
    RecordView {
        hoster: g.hoster,
        joiner: sender,
        turn: spec_first_turn(g.hoster, sender),
        board: g.board,
        winner: g.winner,
    }
}

/// How joining changes the store, including exactly which error comes back
/// on which input; a failed join changes nothing.
pub open spec fn join_transition(
    pre: StoreView,
    post: StoreView,
    sender: Seq<u8>,
    game_id: u128,
    r: Result<(), GameError>,
) -> bool {
    if game_id >= pre.last_game_id {
        r == Err::<(), GameError>(GameError::InvalidGameId) && post == pre
    } else if pre.stage_of(game_id) != Stage::Open {
        r == Err::<(), GameError>(GameError::GameNotJoinable) && post == pre
    } else if sender == pre.games[game_id as int].hoster {
        r == Err::<(), GameError>(GameError::CannotJoinOwnGame) && post == pre
    } else {
        &&& r == Ok::<(), GameError>(())
        &&& post.last_game_id == pre.last_game_id
        &&& post.games == pre.games.update(
            game_id as int,
            joined_record(pre.games[game_id as int], sender),
        )
        &&& sorted_strict(post.new_games)
        &&& post.new_games.len() + 1 == pre.new_games.len()
        &&& (forall|x: u128|
            post.new_games.contains(x) <==> pre.new_games.contains(x) && x != game_id)
        &&& sorted_strict(post.playing_games)
        &&& post.playing_games.len() == pre.playing_games.len() + 1
        &&& (forall|x: u128|
            post.playing_games.contains(x) <==> pre.playing_games.contains(x) || x == game_id)
        &&& post.completed_games == pre.completed_games
    }
}

/// The caller's role in a game: the hoster's mark, the joiner's mark, or
/// `MARK_NONE` for a stranger.
pub open spec fn role_of(g: RecordView, sender: Seq<u8>) -> u16 {
    if sender == g.hoster {
        MARK_HOSTER
    } else if sender == g.joiner {
        MARK_JOINER
    } else {
        MARK_NONE
    }
}

/// The record after a successful move: the cell takes the mover's mark; if
/// the move settles the game the winner is recorded and the turn cleared,
/// otherwise the turn flips to the other participant.
pub open spec fn played_record(g: RecordView, x: int, y: int) -> RecordView {
    let nb = board_set(g.board, x, y, g.turn);
    let w = verdict(nb, x, y);
    if w == MARK_NONE {
        RecordView {
            hoster: g.hoster,
            joiner: g.joiner,
            turn: if g.turn == MARK_HOSTER {
                MARK_JOINER
            } else {
                MARK_HOSTER
            },
            board: nb,
            winner: MARK_NONE,
        }
    } else {
        RecordView { hoster: g.hoster, joiner: g.joiner, turn: MARK_NONE, board: nb, winner: w }
    }
}

/// How playing a move changes the store, including exactly which error
/// comes back on which input; a failed move changes nothing.
pub open spec fn play_transition(
    pre: StoreView,
    post: StoreView,
    sender: Seq<u8>,
    game_id: u128,
    x_pos: u16,
    y_pos: u16,
    r: Result<(), GameError>,
) -> bool {
    if game_id >= pre.last_game_id {
        r == Err::<(), GameError>(GameError::InvalidGameId) && post == pre
    } else if x_pos >= 3 || y_pos >= 3 {
        r == Err::<(), GameError>(GameError::InvalidPosition) && post == pre
    } else if pre.stage_of(game_id) != Stage::Playing {
        r == Err::<(), GameError>(GameError::GameNotInProgress) && post == pre
    } else if role_of(pre.games[game_id as int], sender) != pre.games[game_id as int].turn {
        r == Err::<(), GameError>(GameError::NotYourTurn) && post == pre
    } else if pre.games[game_id as int].board[x_pos as int][y_pos as int] != MARK_NONE {
        r == Err::<(), GameError>(GameError::PositionOccupied) && post == pre
    } else {
        let g2 = played_record(pre.games[game_id as int], x_pos as int, y_pos as int);
        &&& r == Ok::<(), GameError>(())
        &&& post.last_game_id == pre.last_game_id
        &&& post.games == pre.games.update(game_id as int, g2)
        &&& post.new_games == pre.new_games
        &&& if g2.winner == MARK_NONE {
            post.playing_games == pre.playing_games && post.completed_games == pre.completed_games
        } else {
            &&& sorted_strict(post.playing_games)
            &&& post.playing_games.len() + 1 == pre.playing_games.len()
            &&& (forall|x: u128|
                post.playing_games.contains(x) <==> pre.playing_games.contains(x) && x != game_id)
            &&& sorted_strict(post.completed_games)
            &&& post.completed_games.len() == pre.completed_games.len() + 1
            &&& (forall|x: u128|
                post.completed_games.contains(x) <==> pre.completed_games.contains(x) || x
                    == game_id)
        }
    }
}

/// Builds the all-empty grid.
fn empty_grid() -> (b: [[u16; 3]; 3])
    ensures
        board_view(b) == empty_board(),
{
    let b: [[u16; 3]; 3] = [[MARK_NONE, MARK_NONE, MARK_NONE], [MARK_NONE, MARK_NONE, MARK_NONE], [
        MARK_NONE,
        MARK_NONE,
        MARK_NONE,
    ]];
    proof {
        assert forall|i: int| 0 <= i < 3 implies board_view(b)[i] =~= empty_board()[i] by {
            assert forall|j: int| 0 <= j < 3 implies board_view(b)[i][j] == MARK_NONE by {
                assert(b@[i]@[j] == MARK_NONE);
            }
        }
        assert(board_view(b) =~~= empty_board());
    }
    b
}

/// Sets up the store: the id counter starts at zero and no game exists.
pub fn instantiate(_msg: InstantiateMsg) -> (store: GameStore)
    ensures
        store@.inv(),
        store@.last_game_id == 0,
        store@.games.len() == 0,
        store@.new_games.len() == 0,
        store@.playing_games.len() == 0,
        store@.completed_games.len() == 0,
{
    let store = GameStore {
        last_game_id: 0,
        games: Vec::new(),
        new_games: Vec::new(),
        playing_games: Vec::new(),
        completed_games: Vec::new(),
    };
    proof {
        assert forall|id: u128| store@.index_ok(id) by {
            assert(!store@.new_games.contains(id));
            assert(!store@.playing_games.contains(id));
            assert(!store@.completed_games.contains(id));
        }
    }
    store
}

/// Migration is a no-op: every bit of existing state is preserved.
pub fn migrate(store: &mut GameStore, _msg: MigrateMsg)
    ensures
        *final(store) == *old(store),
{
}

/// Creates a game for the caller and returns its freshly allocated id.
///
/// The caller becomes the hoster, the board starts empty, nobody has joined
/// yet, and the game enters the open list. The call cannot fail; the id
/// counter advances by exactly one.
pub fn execute_new_game(store: &mut GameStore, sender: &Vec<u8>) -> (game_id: u128)
    requires
        old(store)@.inv(),
        sender@.len() > 0,
    ensures
        final(store)@.inv(),
        new_game_transition(old(store)@, final(store)@, sender@, game_id),
{
    let ghost pre = store@;
    let game_id = store.last_game_id;
    let record = GameInfo {
        hoster: clone_bytes(sender),
        joiner: Vec::new(),
        turn: MARK_NONE,
        board: empty_grid(),
        winner: MARK_NONE,
    };
    proof {
        assert(record@ =~~= fresh_record(sender@));
        assert forall|k: int| 0 <= k < pre.new_games.len() implies pre.new_games[k] < game_id by {
            assert(pre.new_games.contains(pre.new_games[k])) by {
                assert(pre.new_games[k] == pre.new_games[k]);
            }
            assert(pre.index_ok(pre.new_games[k]));
        }
    }
    let n: usize = store.games.len();
    proof {
        assert(n == store.games@.len());
        assert(store.games@.len() <= usize::MAX);
    }
    store.games.push(record);
    store.new_games.push(game_id);
    store.last_game_id = store.last_game_id + 1;
    proof {
        let post = store@;
        assert(post.games =~= pre.games.push(fresh_record(sender@)));
        assert(post.new_games =~= pre.new_games.push(game_id));
        assert forall|i: int| 0 <= i < post.games.len() implies (#[trigger] post.games[i]).wf() by {
            if i < pre.games.len() {
                assert(pre.games[i].wf());
            }
        }
        assert forall|id: u128| post.index_ok(id) by {
            assert(pre.index_ok(id));
            assert(post.new_games.contains(id) <==> pre.new_games.contains(id) || id == game_id)
                by {
                if post.new_games.contains(id) {
                    let k = choose|k: int| 0 <= k < post.new_games.len() && post.new_games[k] == id;
                    if k < pre.new_games.len() {
                        assert(pre.new_games[k] == id);
                    }
                }
                if pre.new_games.contains(id) {
                    let k = choose|k: int| 0 <= k < pre.new_games.len() && pre.new_games[k] == id;
                    assert(post.new_games[k] == id);
                }
                assert(post.new_games[pre.new_games.len() as int] == game_id);
            }
            if id < pre.last_game_id {
                assert(post.stage_of(id) == pre.stage_of(id));
            }
        }
        assert(sorted_strict(post.new_games));
    }
    game_id
}

/// Joins the caller into an open game.
///
/// Fails with `InvalidGameId` for an id that was never allocated, with
/// `GameNotJoinable` for a game past its open stage, and with
/// `CannotJoinOwnGame` when the caller hosts the game; a failed call
/// changes nothing. On success the caller becomes the joiner, the first
/// mover is assigned deterministically from the two identities, and the id
/// moves from the open list to the playing list.
pub fn execute_join_game(store: &mut GameStore, sender: &Vec<u8>, game_id: u128) -> (r: Result<
    (),
    GameError,
>)
    requires
        old(store)@.inv(),
        sender@.len() > 0,
    ensures
        final(store)@.inv(),
        join_transition(old(store)@, final(store)@, sender@, game_id, r),
{
    let ghost pre = store@;
    if game_id >= store.last_game_id {
        return Err(GameError::InvalidGameId);
    }
    let n: usize = store.games.len();
    proof {
        assert(n == pre.games.len());
        assert(game_id < n as u128);
    }
    let gi: usize = game_id as usize;
    let open_now: bool = store.games[gi].turn == MARK_NONE && store.games[gi].winner == MARK_NONE;
    proof {
        assert(store.games@[gi as int]@ == pre.games[game_id as int]);
        assert(open_now <==> pre.stage_of(game_id) == Stage::Open);
    }
    if !open_now {
        return Err(GameError::GameNotJoinable);
    }
    if bytes_eq(&store.games[gi].hoster, sender) {
        return Err(GameError::CannotJoinOwnGame);
    }
    let turn = first_turn(&store.games[gi].hoster, sender);
    let updated = GameInfo {
        hoster: clone_bytes(&store.games[gi].hoster),
        joiner: clone_bytes(sender),
        turn,
        board: store.games[gi].board,
        winner: store.games[gi].winner,
    };
    proof {
        assert(updated@ =~~= joined_record(pre.games[game_id as int], sender@));
        assert(pre.index_ok(game_id));
    }
    store.games[gi] = updated;
    remove_sorted(&mut store.new_games, game_id);
    insert_sorted(&mut store.playing_games, game_id);
    proof {
        let post = store@;
        let g2 = joined_record(pre.games[game_id as int], sender@);
        assert(post.games =~= pre.games.update(game_id as int, g2));
        assert(g2.wf()) by {
            assert(pre.games[game_id as int].wf());
            assert(g2.stage() == Stage::Playing);
        }
        assert forall|i: int| 0 <= i < post.games.len() implies (#[trigger] post.games[i]).wf() by {
            assert(pre.games[i].wf());
            if i != game_id as int {
                assert(post.games[i] == pre.games[i]);
            }
        }
        assert forall|id: u128| post.index_ok(id) by {
            assert(pre.index_ok(id));
            if id != game_id && id < pre.last_game_id {
                assert(post.stage_of(id) == pre.stage_of(id));
            }
            assert(post.stage_of(game_id) == Stage::Playing);
        }
    }
    Ok(())
}

/// Plays one move in a game the caller participates in.
///
/// Fails with `InvalidGameId` for an id that was never allocated, with
/// `InvalidPosition` for a coordinate outside the board, with
/// `GameNotInProgress` for a game not in its playing stage, with
/// `NotYourTurn` unless the caller is the participant whose turn it is, and
/// with `PositionOccupied` for a filled cell; a failed call changes
/// nothing. On success the cell takes the mover's mark; a move that settles
/// the game records the winner, clears the turn and moves the id from the
/// playing list to the completed list, and any other move flips the turn.
pub fn execute_play_game(
    store: &mut GameStore,
    sender: &Vec<u8>,
    game_id: u128,
    x_pos: u16,
    y_pos: u16,
) -> (r: Result<(), GameError>)
    requires
        old(store)@.inv(),
    ensures
        final(store)@.inv(),
        play_transition(old(store)@, final(store)@, sender@, game_id, x_pos, y_pos, r),
{
    let ghost pre = store@;
    if game_id >= store.last_game_id {
        return Err(GameError::InvalidGameId);
    }
    if x_pos >= 3 || y_pos >= 3 {
        return Err(GameError::InvalidPosition);
    }
    let n: usize = store.games.len();
    proof {
        assert(n == pre.games.len());
        assert(game_id < n as u128);
    }
    let gi: usize = game_id as usize;
    let ghost g = pre.games[game_id as int];
    proof {
        assert(store.games@[gi as int]@ == g);
    }
    let playing_now: bool = store.games[gi].winner == MARK_NONE && store.games[gi].turn
        != MARK_NONE;
    proof {
        assert(playing_now <==> pre.stage_of(game_id) == Stage::Playing);
    }
    if !playing_now {
        return Err(GameError::GameNotInProgress);
    }
    let role: u16 = if bytes_eq(&store.games[gi].hoster, sender) {
        MARK_HOSTER
    } else if bytes_eq(&store.games[gi].joiner, sender) {
        MARK_JOINER
    } else {
        MARK_NONE
    };
    proof {
        assert(role == role_of(g, sender@));
    }
    if role != store.games[gi].turn {
        return Err(GameError::NotYourTurn);
    }
    let xi: usize = x_pos as usize;
    let yi: usize = y_pos as usize;
    let occupied: bool = store.games[gi].board[xi][yi] != MARK_NONE;
    proof {
        assert(store.games@[gi as int].board@[xi as int]@[yi as int] == g.board[x_pos as int][y_pos as int]);
    }
    if occupied {
        return Err(GameError::PositionOccupied);
    }
    let t: u16 = store.games[gi].turn;
    let grid: [[u16; 3]; 3] = store.games[gi].board;
    let nb = set_cell(grid, xi, yi, t);
    let w = calculate_winner(nb, xi, yi);
    let ghost g2 = played_record(g, x_pos as int, y_pos as int);
    proof {
        assert(board_view(nb) == board_set(g.board, x_pos as int, y_pos as int, g.turn));
        assert(w == verdict(g2.board, x_pos as int, y_pos as int));
        assert(g.wf());
        assert forall|i: int, j: int|
            0 <= i < 3 && 0 <= j < 3 implies #[trigger] g2.board[i][j] <= MARK_JOINER by {
            if i == x_pos as int && j == y_pos as int {
                assert(g2.board[i][j] == g.turn);
            } else if i == x_pos as int {
                assert(g2.board[i][j] == g.board[i][j]);
            } else {
                assert(g2.board[i][j] == g.board[i][j]);
            }
        }
        assert(w <= 3) by {
            let bv = g2.board;
            let x = x_pos as int;
            let y = y_pos as int;
            if crate::board::row_won(bv, x) {
                assert(verdict(bv, x, y) == bv[x][0]);
            } else if crate::board::col_won(bv, y) {
                assert(verdict(bv, x, y) == bv[0][y]);
            } else if x == y && crate::board::diag_won(bv) {
                assert(verdict(bv, x, y) == bv[0][0]);
            } else if x + y == 2 && crate::board::anti_diag_won(bv) {
                assert(verdict(bv, x, y) == bv[0][2]);
            }
        }
        assert(pre.index_ok(game_id));
    }
    let updated = GameInfo {
        hoster: clone_bytes(&store.games[gi].hoster),
        joiner: clone_bytes(&store.games[gi].joiner),
        turn: if w == MARK_NONE {
            if t == MARK_HOSTER {
                MARK_JOINER
            } else {
                MARK_HOSTER
            }
        } else {
            MARK_NONE
        },
        board: nb,
        winner: w,
    };
    proof {
        assert(updated@ =~~= g2);
        assert(g2.wf()) by {
            if w == MARK_NONE {
                assert(g2.stage() == Stage::Playing);
            } else {
                assert(g2.stage() == Stage::Completed);
            }
        }
    }
    store.games[gi] = updated;
    if w != MARK_NONE {
        remove_sorted(&mut store.playing_games, game_id);
        insert_sorted(&mut store.completed_games, game_id);
    }
    proof {
        let post = store@;
        assert(post.games =~= pre.games.update(game_id as int, g2));
        assert forall|i: int| 0 <= i < post.games.len() implies (#[trigger] post.games[i]).wf() by {
            assert(pre.games[i].wf());
            if i != game_id as int {
                assert(post.games[i] == pre.games[i]);
            }
        }
        assert forall|id: u128| post.index_ok(id) by {
            assert(pre.index_ok(id));
            if id != game_id && id < pre.last_game_id {
                assert(post.stage_of(id) == pre.stage_of(id));
            }
        }
    }
    Ok(())
}

/// Returns the full record of a game, or `InvalidGameId` for an id that was
/// never allocated.
pub fn query_game_info_by_id(store: &GameStore, game_id: u128) -> (r: Result<GameInfo, GameError>)
    requires
        store@.inv(),
    ensures
        match r {
            Ok(g) => game_id < store@.last_game_id && g@ == store@.games[game_id as int],
            Err(e) => game_id >= store@.last_game_id && e == GameError::InvalidGameId,
        },
{
    if game_id >= store.last_game_id {
        return Err(GameError::InvalidGameId);
    }
    let n: usize = store.games.len();
    proof {
        assert(n == store@.games.len());
        assert(game_id < n as u128);
    }
    let gi: usize = game_id as usize;
    let g = clone_record(&store.games[gi]);
    proof {
        assert(g@ == store@.games[game_id as int]);
    }
    Ok(g)
}

/// Lists one ascending page of open games: at most the effective limit of
/// ids, each strictly greater than `start_after` when it is given.
pub fn query_new_games(store: &GameStore, start_after: Option<u128>, limit: Option<u32>) -> (ids:
    Vec<u128>)
    requires
        store@.inv(),
    ensures
        ids@ == page_of(store@.new_games, start_after, effective_limit(limit) as nat),
        sorted_strict(ids@),
        ids@.len() <= effective_limit(limit),
        forall|k: int|
            0 <= k < ids@.len() ==> store@.new_games.contains(#[trigger] ids@[k]) && above(
                start_after,
                ids@[k],
            ),
{
    let ids = paginate_ids(&store.new_games, start_after, limit);
    proof {
        lemma_page_len(store@.new_games, start_after, effective_limit(limit) as nat);
        lemma_page_members(store@.new_games, start_after, effective_limit(limit) as nat);
    }
    ids
}

/// Lists one ascending page of games in progress, as `query_new_games` does
/// for open games.
pub fn query_playing_games(
    store: &GameStore,
    start_after: Option<u128>,
    limit: Option<u32>,
) -> (ids: Vec<u128>)
    requires
        store@.inv(),
    ensures
        ids@ == page_of(store@.playing_games, start_after, effective_limit(limit) as nat),
        sorted_strict(ids@),
        ids@.len() <= effective_limit(limit),
        forall|k: int|
            0 <= k < ids@.len() ==> store@.playing_games.contains(#[trigger] ids@[k]) && above(
                start_after,
                ids@[k],
            ),
{
    let ids = paginate_ids(&store.playing_games, start_after, limit);
    proof {
        lemma_page_len(store@.playing_games, start_after, effective_limit(limit) as nat);
        lemma_page_members(store@.playing_games, start_after, effective_limit(limit) as nat);
    }
    ids
}

/// Lists one ascending page of completed games, as `query_new_games` does
/// for open games.
pub fn query_completed_games(
    store: &GameStore,
    start_after: Option<u128>,
    limit: Option<u32>,
) -> (ids: Vec<u128>)
    requires
        store@.inv(),
    ensures
        ids@ == page_of(store@.completed_games, start_after, effective_limit(limit) as nat),
        sorted_strict(ids@),
        ids@.len() <= effective_limit(limit),
        forall|k: int|
            0 <= k < ids@.len() ==> store@.completed_games.contains(#[trigger] ids@[k]) && above(
                start_after,
                ids@[k],
            ),
{
    let ids = paginate_ids(&store.completed_games, start_after, limit);
    proof {
        lemma_page_len(store@.completed_games, start_after, effective_limit(limit) as nat);
        lemma_page_members(store@.completed_games, start_after, effective_limit(limit) as nat);
    }
    ids
}

/// Dispatches one state-changing request to the operation it names.
pub fn execute(store: &mut GameStore, sender: &Vec<u8>, msg: ExecuteMsg) -> (r: Result<
    (),
    GameError,
>)
    requires
        old(store)@.inv(),
        sender@.len() > 0,
    ensures
        final(store)@.inv(),
        match msg {
            ExecuteMsg::NewGame {} => r == Ok::<(), GameError>(()) && new_game_transition(
                old(store)@,
                final(store)@,
                sender@,
                old(store)@.last_game_id,
            ),
            ExecuteMsg::JoinGame { game_id } => join_transition(
                old(store)@,
                final(store)@,
                sender@,
                game_id,
                r,
            ),
            ExecuteMsg::Play { game_id, x_pos, y_pos } => play_transition(
                old(store)@,
                final(store)@,
                sender@,
                game_id,
                x_pos,
                y_pos,
                r,
            ),
        },
{
    match msg {
        ExecuteMsg::NewGame {} => {
            let _game_id = execute_new_game(store, sender);
            Ok(())
        },
        ExecuteMsg::JoinGame { game_id } => execute_join_game(store, sender, game_id),
        ExecuteMsg::Play { game_id, x_pos, y_pos } => execute_play_game(
            store,
            sender,
            game_id,
            x_pos,
            y_pos,
        ),
    }
}

/// Dispatches one read-only request to the query it names.
pub fn query(store: &GameStore, msg: QueryMsg) -> (r: Result<QueryAnswer, GameError>)
    requires
        store@.inv(),
    ensures
        match msg {
            QueryMsg::GameInfoById { game_id } => match r {
                Ok(QueryAnswer::Game(g)) => game_id < store@.last_game_id && g@
                    == store@.games[game_id as int],
                Err(e) => game_id >= store@.last_game_id && e == GameError::InvalidGameId,
                _ => false,
            },
            QueryMsg::NewGames { start_after, limit } => match r {
                Ok(QueryAnswer::GameIds(ids)) => ids@ == page_of(
                    store@.new_games,
                    start_after,
                    effective_limit(limit) as nat,
                ),
                _ => false,
            },
            QueryMsg::PlayingGames { start_after, limit } => match r {
                Ok(QueryAnswer::GameIds(ids)) => ids@ == page_of(
                    store@.playing_games,
                    start_after,
                    effective_limit(limit) as nat,
                ),
                _ => false,
            },
            QueryMsg::CompletedGames { start_after, limit } => match r {
                Ok(QueryAnswer::GameIds(ids)) => ids@ == page_of(
                    store@.completed_games,
                    start_after,
                    effective_limit(limit) as nat,
                ),
                _ => false,
            },
        },
{
    match msg {
        QueryMsg::GameInfoById { game_id } => match query_game_info_by_id(store, game_id) {
            Ok(g) => Ok(QueryAnswer::Game(g)),
            Err(e) => Err(e),
        },
        QueryMsg::NewGames { start_after, limit } => Ok(
            QueryAnswer::GameIds(query_new_games(store, start_after, limit)),
        ),
        QueryMsg::PlayingGames { start_after, limit } => Ok(
            QueryAnswer::GameIds(query_playing_games(store, start_after, limit)),
        ),
        QueryMsg::CompletedGames { start_after, limit } => Ok(
            QueryAnswer::GameIds(query_completed_games(store, start_after, limit)),
        ),
    }
}

} // verus!
