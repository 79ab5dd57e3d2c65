//! The game record, the store that owns every record, and their invariants.
//!
//! A caller identity is the byte form of the identifier that the host
//! supplies; the empty byte string is the sentinel for "no participant yet".

use vstd::prelude::*;
use crate::board::{board_view, empty_board, BoardView, MARK_NONE, MARK_JOINER, MARK_DRAW};

verus! {

/// The lifecycle stage of one game. Every game is in exactly one stage and
/// only ever advances `Open -> Playing -> Completed`.
#[derive(Clone, Copy, Debug, PartialEq, Eq, Structural)]
pub enum Stage {
    Open,
    Playing,
    Completed,
}

/// The full mutable state of one game.
#[derive(Debug)]
pub struct GameInfo {
    /// Identity of the creator. Immutable after creation.
    pub hoster: Vec<u8>,
    /// Identity of the second participant; empty until somebody joins.
    pub joiner: Vec<u8>,
    /// Whose turn it is: `MARK_HOSTER`, `MARK_JOINER`, or `MARK_NONE` once
    /// the game has completed.
    pub turn: u16,
    /// The 3x3 grid of marks.
    pub board: [[u16; 3]; 3],
    /// `MARK_NONE` until the game completes, then the winning mark or
    /// `MARK_DRAW`. Immutable thereafter.
    pub winner: u16,
}

/// Mathematical model of a game record.
#[verifier::ext_equal]
pub struct RecordView {
    pub hoster: Seq<u8>,
    pub joiner: Seq<u8>,
    pub turn: u16,
    pub board: BoardView,
    pub winner: u16,
}

impl View for GameInfo {
    type V = RecordView;

    open spec fn view(&self) -> RecordView {
        RecordView {
            hoster: self.hoster@,
            joiner: self.joiner@,
            turn: self.turn,
            board: board_view(self.board),
            winner: self.winner,
        }
    }
}

impl RecordView {
    /// The stage is fully determined by the record itself.
    pub open spec fn stage(self) -> Stage {
        if self.winner != MARK_NONE {
            Stage::Completed
        } else if self.turn != MARK_NONE {
            Stage::Playing
        } else {
            Stage::Open
        }
    }

    /// Well-formedness of one record.
    pub open spec fn wf(self) -> bool {
        &&& self.turn <= MARK_JOINER
        &&& self.winner <= MARK_DRAW
        &&& self.hoster.len() > 0
        &&& self.board.len() == 3
        &&& (forall|i: int| 0 <= i < 3 ==> (#[trigger] self.board[i]).len() == 3)
        &&& (forall|i: int, j: int|
            0 <= i < 3 && 0 <= j < 3 ==> #[trigger] self.board[i][j] <= MARK_JOINER)
        &&& (self.winner != MARK_NONE ==> self.turn == MARK_NONE)
        &&& (self.stage() == Stage::Open ==> self.joiner.len() == 0 && self.board
            =~~= empty_board())
        &&& (self.stage() != Stage::Open ==> self.joiner.len() > 0 && self.joiner != self.hoster)
    }
}

/// The record a freshly created game starts with.
pub open spec fn fresh_record(hoster: Seq<u8>) -> RecordView {
    RecordView {
        hoster,
        joiner: Seq::empty(),
        turn: MARK_NONE,
        board: empty_board(),
        winner: MARK_NONE,
    }
}

/// The whole replicated state: the id counter, one record per game, and the
/// three ordered id lists that partition the games by stage.
pub struct GameStore {
    /// The next id to allocate; every id below it exists, none above it does.
    pub last_game_id: u128,
    /// Record of game `i` at position `i`.
    pub games: Vec<GameInfo>,
    /// Ids of the games in `Stage::Open`, strictly ascending.
    pub new_games: Vec<u128>,
    /// Ids of the games in `Stage::Playing`, strictly ascending.
    pub playing_games: Vec<u128>,
    /// Ids of the games in `Stage::Completed`, strictly ascending.
    pub completed_games: Vec<u128>,
}

/// Mathematical model of the whole store.
#[verifier::ext_equal]
pub struct StoreView {
    pub last_game_id: u128,
    pub games: Seq<RecordView>,
    pub new_games: Seq<u128>,
    pub playing_games: Seq<u128>,
    pub completed_games: Seq<u128>,
}

impl View for GameStore {
    type V = StoreView;

    open spec fn view(&self) -> StoreView {
        StoreView {
            last_game_id: self.last_game_id,
            games: self.games@.map_values(|g: GameInfo| g@),
            new_games: self.new_games@,
            playing_games: self.playing_games@,
            completed_games: self.completed_games@,
        }
    }
}

/// A sequence of ids in strictly ascending order.
pub open spec fn sorted_strict(s: Seq<u128>) -> bool {
    forall|i: int, j: int| 0 <= i < j < s.len() ==> s[i] < s[j]
}

impl StoreView {
    /// The stage of the game `id`.
    pub open spec fn stage_of(self, id: u128) -> Stage {
        self.games[id as int].stage()
    }

    /// Each lifecycle list holds exactly the existing ids of its stage.
    pub open spec fn index_ok(self, id: u128) -> bool {
        &&& (self.new_games.contains(id) <==> id < self.last_game_id && self.stage_of(id)
            == Stage::Open)
        &&& (self.playing_games.contains(id) <==> id < self.last_game_id && self.stage_of(id)
            == Stage::Playing)
        &&& (self.completed_games.contains(id) <==> id < self.last_game_id && self.stage_of(id)
            == Stage::Completed)
    }

    /// The store's invariant: the counter covers the record table, every
    /// record is well-formed, and the three lifecycle lists are ordered and
    /// consistent with the records.
    pub open spec fn inv(self) -> bool {
        &&& self.games.len() == self.last_game_id
        &&& (forall|i: int| 0 <= i < self.games.len() ==> (#[trigger] self.games[i]).wf())
        &&& sorted_strict(self.new_games)
        &&& sorted_strict(self.playing_games)
        &&& sorted_strict(self.completed_games)
        &&& (forall|id: u128| #[trigger] self.index_ok(id))
    }

    /// In how many of the three lifecycle lists the id occurs.
    pub open spec fn membership_count(self, id: u128) -> int {
        (if self.new_games.contains(id) {
            1int
        } else {
            0int
        }) + (if self.playing_games.contains(id) {
            1int
        } else {
            0int
        }) + (if self.completed_games.contains(id) {
            1int
        } else {
            0int
        })
    }
}

/// Copies a byte string.
pub fn clone_bytes(v: &Vec<u8>) -> (r: Vec<u8>)
    ensures
        r@ == v@,
{
    let mut r: Vec<u8> = Vec::new();
    let mut i: usize = 0;
    while i < v.len()
        invariant
            i <= v@.len(),
            r@ == v@.take(i as int),
        decreases v@.len() - i,
    {
        r.push(v[i]);
        proof {
            assert(v@.take(i as int).push(v@[i as int]) =~= v@.take(i as int + 1));
        }
        i += 1;
    }
    proof {
        assert(v@.take(v@.len() as int) =~= v@);
    }
    r
}

/// Compares two byte strings for equality.
pub fn bytes_eq(a: &Vec<u8>, b: &Vec<u8>) -> (r: bool)
    ensures
        r == (a@ == b@),
{
    if a.len() != b.len() {
        return false;
    }
    let mut i: usize = 0;
    while i < a.len()
        invariant
            i <= a@.len(),
            a@.len() == b@.len(),
            forall|k: int| 0 <= k < i ==> a@[k] == b@[k],
        decreases a@.len() - i,
    {
        if a[i] != b[i] {
            return false;
        }
        i += 1;
    }
    proof {
        assert(a@ =~= b@);
    }
    true
}

/// Copies a game record.
pub fn clone_record(g: &GameInfo) -> (r: GameInfo)
    ensures
        r@ == g@,
{
    let r = GameInfo {
        hoster: clone_bytes(&g.hoster),
        joiner: clone_bytes(&g.joiner),
        turn: g.turn,
        board: g.board,
        winner: g.winner,
    };
    proof {
        assert(r@ =~~= g@);
    }
    r
}

} // verus!
