use vstd::prelude::*;
use rand::rngs::StdRng;
use crate::ai::{can_move, is_best_move, select_move};
use crate::board::{
    apply_move, board_after_move, capture_cost, count, count_cells, count_from, has_legal_move,
    in_bounds, index_of, is_legal, is_legal_move, lemma_count_skip, lemma_count_total, move_cost,
    MoveError,
};
use crate::cell::{Cell, PlayerTurn};

verus! {

/// Who plays the two sides.
#[derive(PartialEq, Eq, Structural, Clone, Copy, Debug)]
pub enum GameMode {
    /// Two people share the board.
    PvP,
    /// A person plays Black against the automated opponent on White, which
    /// errs with the given chance, in millionths (see `ai::ERROR_SCALE`).
    PvE(u32),
}

/// Whether the game goes on, and if not, who won (`None` on a tie).
#[derive(PartialEq, Eq, Structural, Clone, Copy, Debug)]
pub enum GameStatus {
    Active,
    Finished(Option<PlayerTurn>),
}

/// What became of a submitted move.
#[derive(Debug)]
pub enum MoveOutcome {
    /// The move was played; the coordinates of the discs it turned over.
    Applied(Vec<(usize, usize)>),
    /// The move was refused and nothing changed.
    Rejected(MoveError),
    /// The game is over and nothing changed.
    GameOver,
}

/// The abstract state of a game.
pub struct GameView {
    pub board: Seq<Cell>,
    pub turn: PlayerTurn,
    pub mode: GameMode,
    pub status: GameStatus,
    pub black_score: nat,
    pub white_score: nat,
}

/// A game session: the board, the side to move, the mode, and the random
/// source of the automated opponent.
pub struct Reversi {
    mode: GameMode,
    player_turn: PlayerTurn,
    field: Vec<Cell>,
    rng: StdRng,
    status: GameStatus,
    black_score: u32,
    white_score: u32,
}

impl View for Reversi {
    type V = GameView;

    closed spec fn view(&self) -> GameView {
        GameView {
            board: self.field@,
            turn: self.player_turn,
            mode: self.mode,
            status: self.status,
            black_score: self.black_score as nat,
            white_score: self.white_score as nat,
        }
    }
}

/// The canonical opening: White on (3,3) and (4,4), Black on (4,3) and (3,4).
pub open spec fn opening() -> Seq<Cell> {
    Seq::new(
        64,
        |i: int|
            if i == 27 || i == 36 {
                Cell::White
            } else if i == 28 || i == 35 {
                Cell::Black
            } else {
                Cell::Free
            },
    )
}

/// The side with strictly more discs, or `None` on a tie.
pub open spec fn winner_of(b: Seq<Cell>) -> Option<PlayerTurn> {
    if count(b, Cell::Black) > count(b, Cell::White) {
        Some(PlayerTurn::Black)
    } else if count(b, Cell::White) > count(b, Cell::Black) {
        Some(PlayerTurn::White)
    } else {
        None
    }
}

/// The status of a game where `t` is to move: over when `t` cannot move.
pub open spec fn status_for(b: Seq<Cell>, t: PlayerTurn) -> GameStatus {
    if has_legal_move(b, t) {
        GameStatus::Active
    } else {
        GameStatus::Finished(winner_of(b))
    }
}

/// Whether side `t` is played by the automated opponent.
pub open spec fn is_automated(mode: GameMode, t: PlayerTurn) -> bool {
    mode is PvE && t == PlayerTurn::White
}

/// The state once the turn passes to the other side: scores counted anew
/// and the game over if that side has no legal move.
pub open spec fn pass_turn(v: GameView) -> GameView {
    GameView {
        board: v.board,
        turn: v.turn.other(),
        mode: v.mode,
        status: status_for(v.board, v.turn.other()),
        black_score: count(v.board, Cell::Black),
        white_score: count(v.board, Cell::White),
    }
}

/// The state after the side to move plays at (x, y).
pub open spec fn after_turn(v: GameView, x: int, y: int) -> GameView {
    pass_turn(
        GameView {
            board: board_after_move(v.board, v.turn, x, y),
            turn: v.turn,
            mode: v.mode,
            status: v.status,
            black_score: v.black_score,
            white_score: v.white_score,
        },
    )
}

/// `fin` is what follows state `s` once the automated opponent has had its
/// say: `s` itself where the game is over or a person is to move; otherwise
/// `s` after one legal reply, the best one where the opponent never errs.
pub open spec fn replied(s: GameView, fin: GameView) -> bool {
    if s.status == GameStatus::Active && is_automated(s.mode, s.turn) {
        exists|ax: int, ay: int|
            {
                &&& #[trigger] is_legal(s.board, s.turn, ax, ay)
                &&& fin == after_turn(s, ax, ay)
                &&& s.mode == GameMode::PvE(0) ==> is_best_move(s.board, s.turn, ax, ay)
            }
    } else {
        fin == s
    }
}

/// The status of a game where `t` is to move and the scores are as given.
fn status_after(field: &Vec<Cell>, t: PlayerTurn, black: u32, white: u32) -> (r: GameStatus)
    requires
        field@.len() == 64,
        black == count(field@, Cell::Black),
        white == count(field@, Cell::White),
    ensures
        r == status_for(field@, t),
{
    if can_move(field, t) {
        GameStatus::Active
    } else if black > white {
        GameStatus::Finished(Some(PlayerTurn::Black))
    } else if white > black {
        GameStatus::Finished(Some(PlayerTurn::White))
    } else {
        GameStatus::Finished(None)
    }
}

/// The discs in `rep` were the opponent's before the move of `t` and are
/// `t`'s after it, and there are as many as the move captures.
pub open spec fn is_flip_report(
    before: Seq<Cell>,
    after: Seq<Cell>,
    t: PlayerTurn,
    x: int,
    y: int,
    rep: Seq<(usize, usize)>,
) -> bool {
    &&& after[index_of(x, y)] == t.disc()
    &&& rep.len() == capture_cost(before, t, x, y)
    &&& rep.len() >= 1
    &&& forall|i: int|
        0 <= i < rep.len() ==> {
            let (fx, fy) = #[trigger] rep[i];
            &&& in_bounds(fx as int, fy as int)
            &&& before[index_of(fx as int, fy as int)] == t.other().disc()
            &&& after[index_of(fx as int, fy as int)] == t.disc()
        }
    &&& forall|i: int, j: int| 0 <= i < j < rep.len() ==> rep[i] != rep[j]
}

impl Reversi {
    /// The scores agree with the board, which has 64 cells.
    pub open spec fn wf(&self) -> bool {
        &&& self@.board.len() == 64
        &&& self@.black_score == count(self@.board, Cell::Black)
        &&& self@.white_score == count(self@.board, Cell::White)
    }

    /// A new two-player game from the canonical opening.
    pub fn new(rng: StdRng) -> (r: Reversi)
        ensures
            r.wf(),
            r@.board == opening(),
            r@.turn == PlayerTurn::Black,
            r@.mode == GameMode::PvP,
            r@.status == GameStatus::Active,
            r@.black_score == 2,
            r@.white_score == 2,
    {
        Self::new_game(GameMode::PvP, rng)
    }

    /// A new game in `mode` from the canonical opening, Black to move.
    pub fn new_game(mode: GameMode, rng: StdRng) -> (r: Reversi)
        ensures
            r.wf(),
            r@.board == opening(),
            r@.turn == PlayerTurn::Black,
            r@.mode == mode,
            r@.status == GameStatus::Active,
            r@.black_score == 2,
            r@.white_score == 2,
    {
        let mut field: Vec<Cell> = Vec::new();
        let mut i: usize = 0;
        while i < 64
            invariant
                i <= 64,
                field@.len() == i,
                forall|j: int| 0 <= j < i ==> field@[j] == Cell::Free,
            decreases 64 - i,
        {
            field.push(Cell::Free);
            i += 1;
        }
        field.set(27, Cell::White);
        field.set(28, Cell::Black);
        field.set(35, Cell::Black);
        field.set(36, Cell::White);
        proof {
            assert(field@ =~= opening());
            lemma_opening_counts();
        }
        Reversi {
            mode,
            player_turn: PlayerTurn::Black,
            field,
            rng,
            status: GameStatus::Active,
            black_score: 2,
            white_score: 2,
        }
    }

    /// A game from a given position with `turn` to move, or `None` where
    /// `field` does not hold exactly 64 cells (row-major). The game is over
    /// at once where `turn` has no legal move.
    pub fn from_position(field: Vec<Cell>, turn: PlayerTurn, mode: GameMode, rng: StdRng) -> (r:
        Option<Reversi>)
        ensures
            r is None <==> field@.len() != 64,
            r is Some ==> {
                let g = r.unwrap();
                &&& g.wf()
                &&& g@.board == field@
                &&& g@.turn == turn
                &&& g@.mode == mode
                &&& g@.status == status_for(field@, turn)
            },
    {
        if field.len() != 64 {
            return None;
        }
        let black_score = count_cells(&field, Cell::Black);
        let white_score = count_cells(&field, Cell::White);
        let status = status_after(&field, turn, black_score, white_score);
        Some(Reversi { mode, player_turn: turn, field, rng, status, black_score, white_score })
    }

    /// Hands the move to the other side: counts the scores anew and ends the
    /// game if that side has no legal move.
    fn hand_over(&mut self)
        requires
            old(self)@.board.len() == 64,
        ensures
            final(self).wf(),
            final(self)@ == pass_turn(old(self)@),
    {
        self.player_turn = self.player_turn.opponent();
        self.black_score = count_cells(&self.field, Cell::Black);
        self.white_score = count_cells(&self.field, Cell::White);
        self.status = status_after(&self.field, self.player_turn, self.black_score, self.white_score);
    }

    /// Passes the turn to the other side, once the side to move has played:
    /// counts the scores anew and ends the game, with the side holding more
    /// discs as winner, if the side now to move has no legal move. Where the
    /// automated opponent is then to move, it plays its reply at once and the
    /// turn comes back.
    pub fn switch_turn(&mut self)
        requires
            old(self)@.board.len() == 64,
        ensures
            final(self).wf(),
            replied(pass_turn(old(self)@), final(self)@),
            final(self)@.status == GameStatus::Active ==> has_legal_move(
                final(self)@.board,
                final(self)@.turn,
            ),
            final(self)@.status == GameStatus::Active ==> !is_automated(
                final(self)@.mode,
                final(self)@.turn,
            ),
    {
        self.hand_over();
        let ghost s1 = self@;
        let mut rounds: u32 = 0;
        while rounds < 64 && self.status == GameStatus::Active && self.automated_to_move()
            invariant
                self.wf(),
                rounds <= 64,
                s1.status == GameStatus::Active ==> has_legal_move(s1.board, s1.turn),
                s1.mode == self@.mode,
                rounds == 0 ==> self@ == s1,
                rounds > 0 ==> s1.status == GameStatus::Active && is_automated(s1.mode, s1.turn),
                rounds > 0 ==> self@.turn == PlayerTurn::Black,
                rounds > 0 ==> replied(s1, self@),
            decreases 64 - rounds,
        {
            let chance = match self.mode {
                GameMode::PvE(e) => e,
                GameMode::PvP => 0,
            };
            match select_move(&self.field, self.player_turn, chance, &mut self.rng) {
                Some((ax, ay)) => {
                    let _ = apply_move(&mut self.field, self.player_turn, ax, ay);
                    self.hand_over();
                    assert(is_legal(s1.board, s1.turn, ax as int, ay as int));
                },
                None => {},
            }
            rounds += 1;
        }
    }

    /// Whether the side to move may play at (x, y); false off the board.
    pub fn is_valid_cell(&self, x: usize, y: usize) -> (r: bool)
        requires
            self.wf(),
        ensures
            r == is_legal(self@.board, self@.turn, x as int, y as int),
    {
        is_legal_move(&self.field, self.player_turn, x, y)
    }

    /// Whether the side to move may play at (x, y); if so, `cost` receives
    /// the number of discs the move turns over, and is left alone otherwise.
    pub fn is_valid_cell_cost(&self, x: usize, y: usize, cost: &mut usize) -> (r: bool)
        requires
            self.wf(),
        ensures
            r == is_legal(self@.board, self@.turn, x as int, y as int),
            r ==> *final(cost) == capture_cost(self@.board, self@.turn, x as int, y as int),
            !r ==> *final(cost) == *old(cost),
    {
        match move_cost(&self.field, self.player_turn, x, y) {
            Some(c) => {
                *cost = c as usize;
                true
            },
            None => false,
        }
    }

    /// The cell at (x, y), or `OutOfBounds` off the board.
    pub fn cell_at(&self, x: usize, y: usize) -> (r: Result<Cell, MoveError>)
        requires
            self.wf(),
        ensures
            !in_bounds(x as int, y as int) ==> r == Err::<Cell, MoveError>(MoveError::OutOfBounds),
            in_bounds(x as int, y as int) ==> r == Ok::<Cell, MoveError>(
                self@.board[index_of(x as int, y as int)],
            ),
    {
        if x >= 8 || y >= 8 {
            return Err(MoveError::OutOfBounds);
        }
        Ok(self.field[y * 8 + x])
    }

    /// A copy of the board, row by row.
    pub fn board_snapshot(&self) -> (r: Vec<Cell>)
        ensures
            r@ == self@.board,
    {
        let mut r: Vec<Cell> = Vec::new();
        let mut i: usize = 0;
        while i < self.field.len()
            invariant
                i <= self.field@.len(),
                r@ == self.field@.take(i as int),
            decreases self.field@.len() - i,
        {
            r.push(self.field[i]);
            i += 1;
            assert(r@ =~= self.field@.take(i as int));
        }
        assert(r@ =~= self.field@);
        r
    }

    /// The discs of Black and of White.
    pub fn scores(&self) -> (r: (u32, u32))
        ensures
            r.0 == self@.black_score,
            r.1 == self@.white_score,
    {
        (self.black_score, self.white_score)
    }

    /// The side to move.
    pub fn current_turn(&self) -> (r: PlayerTurn)
        ensures
            r == self@.turn,
    {
        self.player_turn
    }

    /// Whether the game goes on, or who won.
    pub fn status(&self) -> (r: GameStatus)
        ensures
            r == self@.status,
    {
        self.status
    }

    /// Who plays the two sides.
    pub fn mode(&self) -> (r: GameMode)
        ensures
            r == self@.mode,
    {
        self.mode
    }

    fn automated_to_move(&self) -> (r: bool)
        ensures
            r == is_automated(self@.mode, self@.turn),
    {
        match self.mode {
            GameMode::PvE(_) => self.player_turn == PlayerTurn::White,
            GameMode::PvP => false,
        }
    }

    /// Submits a move of the side to move at (x, y). An illegal or off-board
    /// move, or one after the end of the game, changes nothing. A legal move
    /// is played and the turn passes; where the automated opponent is then to
    /// move, it answers at once.
    pub fn submit_move(&mut self, x: usize, y: usize) -> (r: MoveOutcome)
        requires
            old(self).wf(),
        ensures
            final(self).wf(),
            old(self)@.status != GameStatus::Active ==> r is GameOver && final(self)@ == old(self)@,
            old(self)@.status == GameStatus::Active && !in_bounds(x as int, y as int) ==> r
                == MoveOutcome::Rejected(MoveError::OutOfBounds) && final(self)@ == old(self)@,
            old(self)@.status == GameStatus::Active && in_bounds(x as int, y as int) && !is_legal(
                old(self)@.board,
                old(self)@.turn,
                x as int,
                y as int,
            ) ==> r == MoveOutcome::Rejected(MoveError::IllegalMove) && final(self)@ == old(self)@,
            old(self)@.status == GameStatus::Active && is_legal(
                old(self)@.board,
                old(self)@.turn,
                x as int,
                y as int,
            ) ==> {
                &&& r is Applied
                &&& is_flip_report(
                    old(self)@.board,
                    board_after_move(old(self)@.board, old(self)@.turn, x as int, y as int),
                    old(self)@.turn,
                    x as int,
                    y as int,
                    r->Applied_0@,
                )
                &&& replied(after_turn(old(self)@, x as int, y as int), final(self)@)
            },
    {
        if self.status != GameStatus::Active {
            return MoveOutcome::GameOver;
        }
        if x >= 8 || y >= 8 {
            return MoveOutcome::Rejected(MoveError::OutOfBounds);
        }
        if !is_legal_move(&self.field, self.player_turn, x, y) {
            return MoveOutcome::Rejected(MoveError::IllegalMove);
        }
        let rep = match apply_move(&mut self.field, self.player_turn, x, y) {
            Ok(rep) => rep,
            Err(e) => {
                return MoveOutcome::Rejected(e);
            },
        };
        self.switch_turn();
        MoveOutcome::Applied(rep)
    }

    /// The click handler of a board view: submits a move at (x, y).
    pub fn clicked(&mut self, x: usize, y: usize)
        requires
            old(self).wf(),
        ensures
            final(self).wf(),
            !(old(self)@.status == GameStatus::Active && is_legal(
                old(self)@.board,
                old(self)@.turn,
                x as int,
                y as int,
            )) ==> final(self)@ == old(self)@,
            old(self)@.status == GameStatus::Active && is_legal(
                old(self)@.board,
                old(self)@.turn,
                x as int,
                y as int,
            ) ==> replied(after_turn(old(self)@, x as int, y as int), final(self)@),
    {
        let _ = self.submit_move(x, y);
    }
}

/// The opening holds two black discs, two white discs and sixty free cells.
pub proof fn lemma_opening_counts()
    ensures
        count(opening(), Cell::Black) == 2,
        count(opening(), Cell::White) == 2,
        count(opening(), Cell::Free) == 60,
{
    let s = opening();
    lemma_count_skip(s, Cell::Black, 0, 28);
    lemma_count_skip(s, Cell::Black, 29, 35);
    lemma_count_skip(s, Cell::Black, 36, 64);
    assert(count_from(s, Cell::Black, 28) == 1 + count_from(s, Cell::Black, 29));
    assert(count_from(s, Cell::Black, 35) == 1 + count_from(s, Cell::Black, 36));
    lemma_count_skip(s, Cell::White, 0, 27);
    lemma_count_skip(s, Cell::White, 28, 36);
    lemma_count_skip(s, Cell::White, 37, 64);
    assert(count_from(s, Cell::White, 27) == 1 + count_from(s, Cell::White, 28));
    assert(count_from(s, Cell::White, 36) == 1 + count_from(s, Cell::White, 37));
    lemma_count_total(s, 0);
}

/// In every well-formed state, and so in every state that the game reaches,
/// the two scores and the free cells add up to the 64 cells of the board.
pub proof fn lemma_scores_fill_board(g: &Reversi)
    requires
        g.wf(),
    ensures
        g@.black_score + g@.white_score + count(g@.board, Cell::Free) == 64,
{
    lemma_count_total(g@.board, 0);
}

} // verus!
