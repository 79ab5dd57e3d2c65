//! The laws the store is accountable to, stated over the transition
//! relations and proved from what the operations' contracts say.
//!
//! Win-detection correctness lives with the board engine
//! (`board::lemma_win_detection`) and the determinism of the first-mover
//! assignment with the fairness module (`fairness::lemma_join_fairness`).

use vstd::prelude::*;
use crate::board::{MARK_HOSTER, MARK_JOINER, MARK_NONE};
use crate::contract::{new_game_transition, play_transition};
use crate::msgs::GameError;
use crate::state::{Stage, StoreView};

verus! {

/// Lifecycle partition: under the store invariant every allocated id lies
/// in exactly one of the three lifecycle lists, and an id that was never
/// allocated lies in none of them.
pub proof fn lemma_lifecycle_partition(s: StoreView, game_id: u128)
    requires
        s.inv(),
    ensures
        s.membership_count(game_id) == if game_id < s.last_game_id {
            1int
        } else {
            0int
        },
{
    assert(s.index_ok(game_id));
}

/// Monotonic ids: a creation hands out the counter's value, so two
/// successive creations hand out strictly increasing ids.
pub proof fn lemma_monotonic_ids(
    s0: StoreView,
    s1: StoreView,
    s2: StoreView,
    a: Seq<u8>,
    b: Seq<u8>,
    id1: u128,
    id2: u128,
)
    requires
        new_game_transition(s0, s1, a, id1),
        new_game_transition(s1, s2, b, id2),
    ensures
        id1 == s0.last_game_id,
        id2 == id1 + 1,
        id2 > id1,
{
}

/// Turn alternation: a successful move that does not finish the game hands
/// the turn to the other participant, so the same role never moves twice in
/// a row.
pub proof fn lemma_turn_alternation(
    pre: StoreView,
    post: StoreView,
    sender: Seq<u8>,
    game_id: u128,
    x_pos: u16,
    y_pos: u16,
)
    requires
        pre.inv(),
        play_transition(pre, post, sender, game_id, x_pos, y_pos, Ok(())),
        post.games[game_id as int].winner == MARK_NONE,
    ensures
        post.games[game_id as int].turn != pre.games[game_id as int].turn,
        pre.games[game_id as int].turn == MARK_HOSTER ==> post.games[game_id as int].turn
            == MARK_JOINER,
        pre.games[game_id as int].turn == MARK_JOINER ==> post.games[game_id as int].turn
            == MARK_HOSTER,
{
    assert(pre.games[game_id as int].wf());
}

/// Immutability after completion: once a game has a winner, a further move
/// on it fails with `GameNotInProgress` and changes nothing.
pub proof fn lemma_completed_immutable(
    pre: StoreView,
    post: StoreView,
    sender: Seq<u8>,
    game_id: u128,
    x_pos: u16,
    y_pos: u16,
    r: Result<(), GameError>,
)
    requires
        pre.inv(),
        game_id < pre.last_game_id,
        x_pos < 3,
        y_pos < 3,
        pre.games[game_id as int].winner != MARK_NONE,
        play_transition(pre, post, sender, game_id, x_pos, y_pos, r),
    ensures
        r == Err::<(), GameError>(GameError::GameNotInProgress),
        post == pre,
{
    assert(pre.games[game_id as int].stage() == Stage::Completed);
}

} // verus!
