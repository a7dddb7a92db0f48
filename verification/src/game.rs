//! The rules of the two-player grid game: seating, turns and winning rows.

use vstd::prelude::*;

verus! {

/// A move as a client submits it: `position[0]` is the column, `position[1]` the row.
#[derive(Debug)]
pub struct GameTurnMessage {
    pub position: Vec<usize>,
}

/// The state of one match. A cell holds 0 when empty, 1 for the first
/// player's mark and 2 for the second player's.
#[derive(Debug)]
pub struct TicTacToeGame {
    pub player1: Option<usize>,
    pub player2: Option<usize>,
    pub current_player_turn: Option<usize>,
    pub grid: Vec<Vec<usize>>,
    pub winner: Option<usize>,
}

/// The mathematical value of a match.
pub struct GameView {
    pub player1: Option<usize>,
    pub player2: Option<usize>,
    pub current_player_turn: Option<usize>,
    pub grid: Seq<Seq<usize>>,
    pub winner: Option<usize>,
}

/// What the rules say of a submitted move.
#[derive(Clone, Copy, Debug, PartialEq, Eq, Structural)]
pub enum TurnVerdict {
    /// The move is played.
    Accepted,
    /// Nobody has the turn: the match has not had two players yet.
    NotStarted,
    /// The turn belongs to somebody else.
    NotYourTurn,
    /// The mover holds the turn but neither seat, or a seat is empty.
    NotAPlayer,
    /// The position has fewer than two coordinates, or one outside 0..3.
    OutOfRange,
}

impl View for TicTacToeGame {
    type V = GameView;

    open spec fn view(&self) -> GameView {
        GameView {
            player1: self.player1,
            player2: self.player2,
            current_player_turn: self.current_player_turn,
            grid: self.grid@.map_values(|row: Vec<usize>| row@),
            winner: self.winner,
        }
    }
}

impl GameView {
    /// The grid has three rows of three cells, each 0, 1 or 2.
    pub open spec fn wf(self) -> bool {
        &&& self.grid.len() == 3
        &&& forall|r: int| 0 <= r < 3 ==> (#[trigger] self.grid[r]).len() == 3
        &&& forall|r: int, c: int| 0 <= r < 3 && 0 <= c < 3 ==> #[trigger] self.grid[r][c] <= 2
    }

    /// Once both seats are taken, the turn belongs to one of the two players.
    pub open spec fn turn_is_seated(self) -> bool {
        self.player1 is Some && self.player2 is Some ==> self.current_player_turn is Some && (
        self.current_player_turn == self.player1 || self.current_player_turn == self.player2)
    }

    /// The two seats are not held by one and the same player.
    pub open spec fn seats_differ(self) -> bool {
        self.player1 is Some ==> self.player1 != self.player2
    }

    /// A match with both seats and every cell empty.
    pub open spec fn empty() -> GameView {
        GameView {
            player1: None,
            player2: None,
            current_player_turn: None,
            grid: seq![seq![0usize, 0usize, 0usize], seq![0usize, 0usize, 0usize], seq![0usize, 0usize, 0usize]],
            winner: None,
        }
    }

    /// `id` takes the first free seat, if there is one; with both seats
    /// taken the first player has the turn.
    pub open spec fn add_player(self, id: usize) -> GameView {
        let seated = if self.player1 is None {
            GameView { player1: Some(id), ..self }
        } else if self.player2 is None {
            GameView { player2: Some(id), ..self }
        } else {
            self
        };
        if seated.player1 is Some && seated.player2 is Some {
            GameView { current_player_turn: seated.player1, ..seated }
        } else {
            seated
        }
    }

    /// `id` leaves the first seat that it holds; turn and winner stay as they are.
    pub open spec fn remove_player(self, id: usize) -> GameView {
        if self.player1 == Some(id) {
            GameView { player1: None, ..self }
        } else if self.player2 == Some(id) {
            GameView { player2: None, ..self }
        } else {
            self
        }
    }

    /// Row `r` holds three equal marks of a player.
    pub open spec fn winning_row(self, r: int) -> bool {
        &&& 0 <= r < self.grid.len()
        &&& self.grid[r].len() == 3
        &&& self.grid[r][0] != 0
        &&& self.grid[r][0] == self.grid[r][1]
        &&& self.grid[r][1] == self.grid[r][2]
    }

    /// Who sits in the seat that `mark` stands for.
    pub open spec fn owner(self, mark: usize) -> Option<usize> {
        if mark == 1 {
            self.player1
        } else if mark == 2 {
            self.player2
        } else {
            None
        }
    }

    /// The occupant of the seat whose mark fills the topmost winning row.
    /// Only rows count: columns and diagonals never win.
    pub open spec fn row_winner(self) -> Option<usize> {
        if self.winning_row(0) {
            self.owner(self.grid[0][0])
        } else if self.winning_row(1) {
            self.owner(self.grid[1][0])
        } else if self.winning_row(2) {
            self.owner(self.grid[2][0])
        } else {
            None
        }
    }

    /// The verdict on a move by `mover` at `position`. The turn is tested
    /// first, then the seats, then the coordinates.
    pub open spec fn verdict(self, mover: usize, position: Seq<usize>) -> TurnVerdict {
        if self.current_player_turn is None {
            TurnVerdict::NotStarted
        } else if self.current_player_turn != Some(mover) {
            TurnVerdict::NotYourTurn
        } else if self.player1 is None || self.player2 is None || (self.player1 != Some(mover)
            && self.player2 != Some(mover)) {
            TurnVerdict::NotAPlayer
        } else if position.len() < 2 || position[0] >= 3 || position[1] >= 3 {
            TurnVerdict::OutOfRange
        } else {
            TurnVerdict::Accepted
        }
    }

    /// The mark of `mover`: 1 in the first seat, else 2.
    pub open spec fn mark_of(self, mover: usize) -> usize {
        if self.player1 == Some(mover) {
            1
        } else {
            2
        }
    }

    /// The player who gets the turn once `mover` has played.
    pub open spec fn after(self, mover: usize) -> Option<usize> {
        if self.player2 == Some(mover) {
            self.player1
        } else {
            self.player2
        }
    }

    /// The match after `mover` has submitted `position`: an accepted move
    /// writes the mover's mark at column `position[0]` of row `position[1]`
    /// (over whatever stood there), passes the turn on and recomputes the
    /// winner; any other move leaves the match as it was.
    pub open spec fn advance(self, mover: usize, position: Seq<usize>) -> GameView {
        if self.verdict(mover, position) == TurnVerdict::Accepted {
            let x = position[0] as int;
            let y = position[1] as int;
            let placed = GameView {
                grid: self.grid.update(y, self.grid[y].update(x, self.mark_of(mover))),
                current_player_turn: self.after(mover),
                ..self
            };
            GameView { winner: placed.row_winner(), ..placed }
        } else {
            self
        }
    }
}

impl Clone for TicTacToeGame {
    fn clone(&self) -> (res: Self)
        ensures
            res@ == self@,
    {
        let mut grid: Vec<Vec<usize>> = Vec::new();
        let mut r: usize = 0;
        while r < self.grid.len()
            invariant
                r <= self.grid.len(),
                grid@.len() == r,
                forall|k: int| 0 <= k < r ==> (#[trigger] grid@[k])@ == self.grid@[k]@,
            decreases self.grid.len() - r,
        {
            let row = self.grid[r].clone();
            assert(row@ =~= self.grid@[r as int]@);
            grid.push(row);
            r += 1;
        }
        let res = TicTacToeGame {
            player1: self.player1,
            player2: self.player2,
            current_player_turn: self.current_player_turn,
            grid,
            winner: self.winner,
        };
        assert(res@.grid =~= self@.grid);
        res
    }
}

impl TicTacToeGame {
    /// A match with no players and an empty grid.
    pub fn new() -> (g: Self)
        ensures
            g@ == GameView::empty(),
            g@.wf(),
    {
        let g = TicTacToeGame {
            player1: None,
            player2: None,
            current_player_turn: None,
            grid: vec![vec![0, 0, 0], vec![0, 0, 0], vec![0, 0, 0]],
            winner: None,
        };
        assert(g@.grid =~~= GameView::empty().grid);
        g
    }

    /// Whether the grid has three rows of three cells, each 0, 1 or 2:
    /// what `advance_turn` and `get_winner` ask of a match.
    pub fn is_well_formed(&self) -> (ok: bool)
        ensures
            ok == self@.wf(),
    {
        if self.grid.len() != 3 {
            return false;
        }
        let mut r: usize = 0;
        while r < 3
            invariant
                r <= 3,
                self.grid@.len() == 3,
                forall|k: int| 0 <= k < r ==> (#[trigger] self@.grid[k]).len() == 3,
                forall|k: int, c: int| 0 <= k < r && 0 <= c < 3 ==> #[trigger] self@.grid[k][c] <= 2,
            decreases 3 - r,
        {
            let row = &self.grid[r];
            if row.len() != 3 {
                assert(self@.grid[r as int].len() != 3);
                return false;
            }
            if row[0] > 2 || row[1] > 2 || row[2] > 2 {
                assert(self@.grid[r as int][0] > 2 || self@.grid[r as int][1] > 2
                    || self@.grid[r as int][2] > 2);
                return false;
            }
            r += 1;
        }
        true
    }

    /// Seats `id` in the first free seat; with both seats taken, whether or
    /// not `id` got one, the first player has the turn.
    pub fn add_player(&mut self, id: usize)
        ensures
            final(self)@ == old(self)@.add_player(id),
            final(self)@.turn_is_seated(),
            old(self)@.wf() ==> final(self)@.wf(),
    {
        if self.player1.is_none() {
            self.player1 = Some(id);
        } else if self.player2.is_none() {
            self.player2 = Some(id);
        }
        match (self.player1, self.player2) {
            (Some(a), Some(_)) => {
                self.current_player_turn = Some(a);
            },
            (_, _) => {},
        }
    }

    /// Clears the first seat that `id` holds. The turn and the winner are
    /// left alone, so either may go on naming the player who left.
    pub fn remove_player(&mut self, id: usize)
        ensures
            final(self)@ == old(self)@.remove_player(id),
            old(self)@.turn_is_seated() ==> final(self)@.turn_is_seated(),
            old(self)@.wf() ==> final(self)@.wf(),
    {
        if self.player1 == Some(id) {
            self.player1 = None;
        } else if self.player2 == Some(id) {
            self.player2 = None;
        }
    }
}

/// The verdict on a move by `player_id`, without playing it.
pub fn judge_turn(player_id: usize, cm: &GameTurnMessage, game_state: &TicTacToeGame) -> (v:
    TurnVerdict)
    ensures
        v == game_state@.verdict(player_id, cm.position@),
{
    match game_state.current_player_turn {
        None => TurnVerdict::NotStarted,
        Some(current) => {
            if current != player_id {
                return TurnVerdict::NotYourTurn;
            }
            let seated = match (game_state.player1, game_state.player2) {
                (Some(a), Some(b)) => player_id == a || player_id == b,
                (_, _) => false,
            };
            if !seated {
                TurnVerdict::NotAPlayer
            } else if cm.position.len() < 2 || cm.position[0] >= 3 || cm.position[1] >= 3 {
                TurnVerdict::OutOfRange
            } else {
                TurnVerdict::Accepted
            }
        },
    }
}

/// Plays the move `cm` for `player_id`, if the rules accept it.
///
/// An accepted move writes the mover's mark into the cell, hands the turn
/// to the other player and sets the winner from the rows of the new grid.
/// A move that `judge_turn` does not accept returns the match as it came,
/// winner included.
pub fn advance_turn(player_id: usize, cm: GameTurnMessage, game_state: TicTacToeGame) -> (next:
    TicTacToeGame)
    requires
        game_state@.wf(),
    ensures
        next@ == game_state@.advance(player_id, cm.position@),
        next@.wf(),
        game_state@.turn_is_seated() ==> next@.turn_is_seated(),
        game_state@.current_player_turn != Some(player_id) ==> next@ == game_state@,
        game_state@.verdict(player_id, cm.position@) == TurnVerdict::Accepted ==> {
            let x = cm.position@[0] as int;
            let y = cm.position@[1] as int;
            &&& next@.grid[y][x] == game_state@.mark_of(player_id)
            &&& forall|r: int, c: int|
                0 <= r < 3 && 0 <= c < 3 && !(r == y && c == x) ==> next@.grid[r][c]
                    == game_state@.grid[r][c]
            &&& next@.current_player_turn == game_state@.after(player_id)
            &&& game_state@.player1 != game_state@.player2 ==> next@.current_player_turn is Some
                && next@.current_player_turn != Some(player_id)
            &&& next@.player1 == game_state@.player1
            &&& next@.player2 == game_state@.player2
        },
{
    match judge_turn(player_id, &cm, &game_state) {
        TurnVerdict::Accepted => {},
        _ => {
            return game_state;
        },
    }
    let ghost before = game_state@;
    let mut gm = game_state;
    let x = cm.position[0];
    let y = cm.position[1];
    let symbol: usize = if gm.player1 == Some(player_id) {
        1
    } else {
        2
    };
    assert(before.grid[y as int].len() == 3);
    let row = &gm.grid[y];
    let played: Vec<usize> = vec![
        if x == 0 { symbol } else { row[0] },
        if x == 1 { symbol } else { row[1] },
        if x == 2 { symbol } else { row[2] },
    ];
    assert(played@ =~= before.grid[y as int].update(x as int, symbol));
    gm.grid[y] = played;
    gm.current_player_turn = if gm.player2 == Some(player_id) {
        gm.player1
    } else {
        gm.player2
    };
    assert(gm@.grid =~= before.grid.update(y as int, before.grid[y as int].update(x as int, symbol)));
    assert(gm@.wf()) by {
        assert forall|r: int| 0 <= r < 3 implies (#[trigger] gm@.grid[r]).len() == 3 by {
            assert(before.grid[r].len() == 3);
        }
        assert forall|r: int, c: int| 0 <= r < 3 && 0 <= c < 3 implies #[trigger] gm@.grid[r][c]
            <= 2 by {
            assert(before.grid[r][c] <= 2);
        }
    }
    gm.winner = get_winner(&gm);
    gm
}

/// The player who has won, if someone has: the occupant of the seat whose
/// mark fills the topmost row of three equal marks. Columns and diagonals
/// are not looked at.
pub fn get_winner(game_state: &TicTacToeGame) -> (winner: Option<usize>)
    requires
        game_state@.wf(),
    ensures
        winner == game_state@.row_winner(),
{
    let mut row: usize = 0;
    while row < 3
        invariant
            row <= 3,
            game_state@.wf(),
            forall|r: int| 0 <= r < row ==> !game_state@.winning_row(r),
        decreases 3 - row,
    {
        assert(game_state@.grid[row as int].len() == 3);
        let this_row = &game_state.grid[row];
        let mark = this_row[0];
        if mark != 0 && mark == this_row[1] && this_row[1] == this_row[2] {
            assert(game_state@.winning_row(row as int));
            assert(game_state@.grid[row as int][0] <= 2);
            if mark == 1 {
                return game_state.player1;
            } else {
                return game_state.player2;
            }
        }
        row += 1;
    }
    None
}

/// A seat that a player gave up is free again: whoever asks next for a
/// seat gets one.
pub proof fn lemma_vacated_seat_is_reusable(game: GameView, id: usize, newcomer: usize)
    requires
        game.player1 == Some(id) || game.player2 == Some(id),
    ensures
        ({
            let after = game.remove_player(id).add_player(newcomer);
            after.player1 == Some(newcomer) || after.player2 == Some(newcomer)
        }),
{
}

/// A move by anyone but the holder of the turn changes nothing in the match.
pub proof fn lemma_out_of_turn_changes_nothing(game: GameView, mover: usize, position: Seq<usize>)
    requires
        game.current_player_turn != Some(mover),
    ensures
        game.advance(mover, position) == game,
{
}

/// An accepted move writes the mover's mark into the cell it names, leaves
/// every other cell as it was, and gives the turn to the other player.
pub proof fn lemma_accepted_move_writes_one_mark(game: GameView, mover: usize, position: Seq<usize>)
    requires
        game.wf(),
        game.verdict(mover, position) == TurnVerdict::Accepted,
    ensures
        ({
            let next = game.advance(mover, position);
            let x = position[0] as int;
            let y = position[1] as int;
            &&& next.wf()
            &&& next.grid[y][x] == game.mark_of(mover)
            &&& 1 <= game.mark_of(mover) <= 2
            &&& game.owner(game.mark_of(mover)) == Some(mover)
            &&& forall|r: int, c: int|
                0 <= r < 3 && 0 <= c < 3 && !(r == y && c == x) ==> next.grid[r][c] == game.grid[r][c]
            &&& next.current_player_turn == game.after(mover)
            &&& game.player1 != game.player2 ==> next.current_player_turn == if game.player1 == Some(
                mover,
            ) {
                game.player2
            } else {
                game.player1
            }
        }),
{
    let next = game.advance(mover, position);
    assert forall|r: int| 0 <= r < 3 implies (#[trigger] next.grid[r]).len() == 3 by {
        assert(game.grid[r].len() == 3);
    }
    assert forall|r: int, c: int| 0 <= r < 3 && 0 <= c < 3 implies #[trigger] next.grid[r][c]
        <= 2 by {
        assert(game.grid[r][c] <= 2);
    }
}

} // verus!
