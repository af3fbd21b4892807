//! A game in progress: the playfield, the falling piece, the piece to come
//! and the piece set aside, and what each input and each tick of gravity
//! does to them.

use crate::color::Color;
use crate::geometry::Pos;
use crate::grid::lemma_compacted_wf;
use crate::grid::lemma_emplaced_wf;
use crate::grid::lemma_view_wf;
use crate::grid::Board;
use crate::grid::Grid;
use crate::piece::lemma_clear_piece_in_bounds;
use crate::piece::lemma_top_slot_is_clear;
use crate::piece::lemma_turns_in_range;
use crate::piece::Piece;
use crate::shape::Shape;
use vstd::prelude::*;

verus! {

/// What the player can ask for.
#[derive(Debug, Clone, Copy, PartialEq, Eq, Structural)]
pub enum Event {
    MoveLeft,
    MoveRight,
    SoftDrop,
    HardDrop,
    RotateCW,
    RotateCCW,
    Rotate180,
    Hold,
    Quit,
}

/// Whether the game goes on after an input.
#[derive(Debug, Clone, Copy, PartialEq, Eq, Structural)]
pub enum Flow {
    Continue,
    Quit,
}

/// A game in progress as a mathematical value.
pub struct State {
    pub board: Board,
    pub piece: Piece,
    pub next_piece: Piece,
    pub hold_piece: Option<Piece>,
    pub delta_ms: int,
    pub last_move_ms: int,
}

impl State {
    /// The board is a board and every piece is well formed.
    pub open spec fn wf(self) -> bool {
        &&& self.board.wf()
        &&& self.piece.wf()
        &&& self.next_piece.wf()
        &&& (self.hold_piece matches Some(held) ==> held.wf())
        &&& self.delta_ms >= 0
        &&& self.last_move_ms >= 0
    }

    /// The game is well formed and its falling piece stands clear of the
    /// walls, the floor and every taken cell.
    pub open spec fn in_play(self) -> bool {
        &&& self.wf()
        &&& self.piece.fits(self.board)
    }

    /// One step down.
    pub open spec fn down() -> Pos {
        Pos(0, 1)
    }

    /// The state a game starts in: a blank board, `first` in the top slot,
    /// `next` waiting, nothing set aside, and both clocks at zero.
    pub open spec fn initial(first: Piece, next: Piece) -> State {
        State {
            board: Board::blank(),
            piece: Piece { pos: Piece::top_slot(), ..first },
            next_piece: next,
            hold_piece: None,
            delta_ms: 0,
            last_move_ms: 0,
        }
    }

    /// The state after the player has asked for a move by `value` at time
    /// `now`: a move that stands clear is made and noted as the last one, any
    /// other changes nothing.
    pub open spec fn shifted(self, value: Pos, now: int) -> State {
        if self.piece.can_move(self.board, value) {
            State { piece: self.piece.moved(value), last_move_ms: now, ..self }
        } else {
            self
        }
    }

    /// The state after the player has asked for a turn to `rotation` at time
    /// `now`: a turn that stands clear, in place or one column aside, is made
    /// and noted as the last move, any other changes nothing.
    pub open spec fn turned(self, rotation: usize, now: int) -> State {
        match self.piece.kick(self.board, rotation) {
            Some(dx) => State { piece: self.piece.turned(rotation, dx), last_move_ms: now, ..self },
            None => self,
        }
    }

    /// The state after the falling piece has been locked at time `now`: it
    /// is written into the board, the full rows leave, the next piece starts
    /// to fall from the top slot, `fresh` waits in its place, and the lock
    /// delay starts anew.
    pub open spec fn locked(self, fresh: Piece, now: int) -> State {
        State {
            board: self.board.emplaced(
                self.piece.mask(),
                self.piece.pos.0 as int,
                self.piece.pos.1 as int,
                self.piece.color,
            ).compacted(),
            piece: Piece { pos: Piece::top_slot(), ..self.next_piece },
            next_piece: fresh,
            last_move_ms: now,
            ..self
        }
    }

    /// The state after a hard drop at time `now`: the piece falls as far as
    /// it can and is locked at once.
    pub open spec fn hard_dropped(self, fresh: Piece, now: int) -> State {
        (State { piece: self.piece.landed(self.board), ..self }).locked(fresh, now)
    }

    /// The falling piece as it is shown while set aside.
    pub open spec fn shelved(self) -> Piece {
        Piece { pos: Piece::hold_slot(), ..self.piece }
    }

    /// The state after the falling piece has been set aside. Where a piece
    /// was set aside before, the two change places; where none was, the next
    /// piece starts to fall and `fresh` waits in its place. Either way the
    /// piece that falls now starts from the top slot.
    pub open spec fn held(self, fresh: Piece) -> State {
        match self.hold_piece {
            Some(held) => State {
                piece: Piece { pos: Piece::top_slot(), ..held },
                hold_piece: Some(self.shelved()),
                ..self
            },
            None => State {
                piece: Piece { pos: Piece::top_slot(), ..self.next_piece },
                next_piece: fresh,
                hold_piece: Some(self.shelved()),
                ..self
            },
        }
    }

    /// Whether `event` calls for a new piece to be drawn.
    pub open spec fn draws(self, event: Event) -> bool {
        event == Event::HardDrop || (event == Event::Hold && self.hold_piece.is_none())
    }

    /// The state after `event` at time `now`, where `fresh` is the piece
    /// drawn if the event calls for one.
    pub open spec fn after(self, event: Event, now: int, fresh: Piece) -> State {
        match event {
            Event::MoveLeft => self.shifted(Pos(-1i16, 0), now),
            Event::MoveRight => self.shifted(Pos(1, 0), now),
            Event::SoftDrop => self.shifted(State::down(), now),
            Event::HardDrop => self.hard_dropped(fresh, now),
            Event::RotateCW => self.turned(self.piece.clockwise(), now),
            Event::RotateCCW => self.turned(self.piece.anti_clockwise(), now),
            Event::Rotate180 => self.turned(self.piece.flipped(), now),
            Event::Hold => self.held(fresh),
            Event::Quit => self,
        }
    }

    /// Whether, at time `now`, the lock delay has run out: more than
    /// `LOCK_DELAY_MS` have passed since the last move that succeeded.
    pub open spec fn lock_due(self, now: int) -> bool {
        now - self.last_move_ms > Session::LOCK_DELAY_MS
    }

    /// The state after gravity has pulled once: the piece has gone one row
    /// down if it could.
    pub open spec fn fallen(self) -> State {
        if self.piece.can_move(self.board, State::down()) {
            State { piece: self.piece.moved(State::down()), ..self }
        } else {
            self
        }
    }

    /// The state after one tick of gravity at time `now`. A piece that can
    /// go one row down does. One that cannot is locked if the lock delay has
    /// run out, `fresh` being the piece drawn then, and is left alone if not.
    /// The tick is taken off the time that has gathered.
    pub open spec fn ticked(self, now: int, fresh: Piece) -> State {
        let pulled = if self.piece.can_move(self.board, State::down()) {
            self.fallen()
        } else if self.lock_due(now) {
            self.locked(fresh, now)
        } else {
            self
        };
        State { delta_ms: pulled.delta_ms - Session::GRAVITY_MS, ..pulled }
    }

    /// The state after as many ticks of gravity at time `now` as `fresh` has
    /// pieces, the piece at each place being the one drawn at that tick if
    /// it locks.
    pub open spec fn after_ticks(self, now: int, fresh: Seq<Piece>) -> State
        decreases fresh.len(),
    {
        if fresh.len() == 0 {
            self
        } else {
            self.after_ticks(now, fresh.drop_last()).ticked(now, fresh.last())
        }
    }

    /// How many ticks of gravity the gathered time holds: one for each full
    /// `GRAVITY_MS` that can be taken off while more than that is left.
    pub open spec fn ticks_due(self) -> int {
        if self.delta_ms > Session::GRAVITY_MS {
            (self.delta_ms - 1) / (Session::GRAVITY_MS as int)
        } else {
            0
        }
    }
}

/// A game in progress.
#[derive(Debug, Clone, Copy, PartialEq, Eq)]
pub struct Session {
    /// The playfield with the pieces locked so far.
    pub grid: Grid,
    /// The piece that falls.
    pub piece: Piece,
    /// The piece that falls next.
    pub next_piece: Piece,
    /// The piece set aside, if any.
    pub hold_piece: Option<Piece>,
    /// The time gathered towards the next ticks of gravity, in milliseconds.
    pub delta_ms: u64,
    /// When the last move succeeded, in milliseconds on the caller's clock.
    pub last_move_ms: u64,
}

impl View for Session {
    type V = State;

    open spec fn view(&self) -> State {
        State {
            board: self.grid@,
            piece: self.piece,
            next_piece: self.next_piece,
            hold_piece: self.hold_piece,
            delta_ms: self.delta_ms as int,
            last_move_ms: self.last_move_ms as int,
        }
    }
}

impl Session {
    /// The time between two ticks of gravity, in milliseconds.
    pub const GRAVITY_MS: u64 = 500;

    /// How long after the last move a piece that cannot fall is left
    /// unlocked, in milliseconds.
    pub const LOCK_DELAY_MS: u64 = 500;

    /// How long to wait for an input before going on without one, in
    /// milliseconds.
    pub const POLL_MS: u64 = 100;

    /// Every piece of the game is well formed.
    pub open spec fn wf(self) -> bool {
        self@.wf()
    }

    /// Whether every piece of the game is well formed.
    pub fn is_valid(&self) -> (valid: bool)
        ensures
            valid == self.wf(),
    {
        proof {
            lemma_view_wf(self.grid);
        }
        let held = match self.hold_piece {
            Some(piece) => piece.is_valid(),
            None => true,
        };
        held && self.piece.is_valid() && self.next_piece.is_valid()
    }

    /// Starts a game with `first` as the falling piece and `next` as the
    /// piece to come.
    pub fn start(first: Piece, next: Piece) -> (session: Session)
        requires
            first.wf(),
            next.wf(),
        ensures
            session@ == State::initial(first, next),
            session@.in_play(),
    {
        let mut piece = first;
        piece.move_top();
        let session = Session {
            grid: Grid::default(),
            piece,
            next_piece: next,
            hold_piece: None,
            delta_ms: 0,
            last_move_ms: 0,
        };
        proof {
            lemma_initial_in_play(first, next);
        }
        session
    }

    /// Starts a game with two pieces drawn at random.
    pub fn new() -> (session: Session)
        ensures
            session@.in_play(),
            exists|first: Piece, next: Piece|
                first.wf() && first.is_staged() && next.wf() && next.is_staged() && session@
                    == #[trigger] State::initial(first, next),
    {
        let first = Piece::new();
        let next = Piece::new();
        Session::start(first, next)
    }

    /// Moves the falling piece by `value` if it stands clear there, notes
    /// the time of a move that succeeded, and says whether it did.
    pub fn shift(&mut self, value: Pos, now_ms: u64) -> (moved: bool)
        requires
            old(self).wf(),
            old(self).piece.pos.1 + value.1 >= i16::MIN,
        ensures
            final(self).wf(),
            final(self)@ == old(self)@.shifted(value, now_ms as int),
            moved == old(self).piece.can_move(old(self).grid@, value),
    {
        let moved = self.piece.try_move(&self.grid, value);
        if moved {
            self.last_move_ms = now_ms;
        }
        moved
    }

    /// Turns the falling piece to `rotation`, in place or one column aside,
    /// if it stands clear so, notes the time of a turn that succeeded, and
    /// says whether it did.
    pub fn turn(&mut self, rotation: usize, now_ms: u64) -> (turned: bool)
        requires
            old(self).wf(),
            rotation < old(self).piece.shape.len(),
        ensures
            final(self).wf(),
            final(self)@ == old(self)@.turned(rotation, now_ms as int),
            turned == old(self).piece.kick(old(self).grid@, rotation).is_some(),
    {
        let turned = self.piece.try_rotate_with_bounce(&self.grid, rotation);
        if turned {
            self.last_move_ms = now_ms;
        }
        turned
    }

    /// Locks the falling piece where it is: it is written into the grid,
    /// the full rows leave, the next piece starts to fall from the top slot,
    /// and `fresh` waits in its place.
    pub fn lock(&mut self, fresh: Piece, now_ms: u64)
        requires
            old(self).wf(),
            fresh.wf(),
        ensures
            final(self).wf(),
            final(self)@ == old(self)@.locked(fresh, now_ms as int),
    {
        self.grid.emplace(&self.piece);
        self.grid.remove_full_lines();
        self.piece = self.next_piece;
        self.piece.move_top();
        self.next_piece = fresh;
        self.last_move_ms = now_ms;
        proof {
            lemma_view_wf(self.grid);
        }
    }

    /// Drops the falling piece as far as it goes and locks it at once.
    pub fn hard_drop(&mut self, fresh: Piece, now_ms: u64)
        requires
            old(self).wf(),
            fresh.wf(),
        ensures
            final(self).wf(),
            final(self)@ == old(self)@.hard_dropped(fresh, now_ms as int),
    {
        self.piece.drop(&self.grid);
        self.lock(fresh, now_ms);
    }

    /// Sets the falling piece aside where none is set aside yet: the next
    /// piece starts to fall from the top slot and `fresh` waits in its place.
    pub fn stash(&mut self, fresh: Piece)
        requires
            old(self).wf(),
            old(self).hold_piece.is_none(),
            fresh.wf(),
        ensures
            final(self).wf(),
            final(self)@ == old(self)@.held(fresh),
    {
        let mut shelved = self.piece;
        shelved.pos = Piece::hold_piece_pos();
        self.hold_piece = Some(shelved);
        self.piece = self.next_piece;
        self.next_piece = fresh;
        self.piece.move_top();
    }

    /// Sets the falling piece aside in exchange for the one set aside
    /// before, which starts to fall from the top slot.
    pub fn swap_held(&mut self)
        requires
            old(self).wf(),
            old(self).hold_piece.is_some(),
        ensures
            final(self).wf(),
            forall|fresh: Piece| final(self)@ == #[trigger] old(self)@.held(fresh),
    {
        let mut shelved = self.piece;
        shelved.pos = Piece::hold_piece_pos();
        match self.hold_piece {
            Some(held) => {
                self.piece = held;
                self.hold_piece = Some(shelved);
            },
            None => {},
        }
        self.piece.move_top();
    }

    /// Where the falling piece would come to rest if it were dropped now,
    /// as a gray piece to be shown in its place.
    pub fn shadow(&self) -> (ghost_piece: Piece)
        requires
            self.wf(),
        ensures
            ghost_piece == (Piece { color: Color::Gray, ..self.piece }).landed(self.grid@),
    {
        let mut ghost_piece = self.piece;
        ghost_piece.color = Color::Gray;
        ghost_piece.drop(&self.grid);
        ghost_piece
    }

    /// Does what the player asked for at time `now_ms`, and says whether the
    /// game goes on. A move or a turn that is barred changes nothing. A new
    /// piece is drawn at random where the event calls for one.
    pub fn handle(&mut self, event: Event, now_ms: u64) -> (flow: Flow)
        requires
            old(self).wf(),
        ensures
            final(self).wf(),
            flow == if event == Event::Quit {
                Flow::Quit
            } else {
                Flow::Continue
            },
            event == Event::Quit ==> *final(self) == *old(self),
            old(self)@.in_play() ==> final(self)@.in_play(),
            exists|fresh: Piece|
                fresh.wf() && fresh.is_staged() && final(self)@ == #[trigger] old(self)@.after(
                    event,
                    now_ms as int,
                    fresh,
                ),
    {
        let ghost unused = Piece::spawned(Shape::I, Color::White);
        proof {
            if self@.in_play() {
                assert forall|fresh: Piece| fresh.wf() implies #[trigger] self@.after(
                    event,
                    now_ms as int,
                    fresh,
                ).in_play() by {
                    lemma_event_keeps_in_play(self@, event, now_ms as int, fresh);
                }
            }
        }
        match event {
            Event::MoveLeft => {
                self.shift(Pos(-1, 0), now_ms);
                assert(self@ == old(self)@.after(event, now_ms as int, unused));
            },
            Event::MoveRight => {
                self.shift(Pos(1, 0), now_ms);
                assert(self@ == old(self)@.after(event, now_ms as int, unused));
            },
            Event::SoftDrop => {
                self.shift(Pos(0, 1), now_ms);
                assert(self@ == old(self)@.after(event, now_ms as int, unused));
            },
            Event::HardDrop => {
                let fresh = Piece::new();
                self.hard_drop(fresh, now_ms);
                assert(self@ == old(self)@.after(event, now_ms as int, fresh));
            },
            Event::RotateCW => {
                let rotation = self.piece.clockwise();
                self.turn(rotation, now_ms);
                assert(self@ == old(self)@.after(event, now_ms as int, unused));
            },
            Event::RotateCCW => {
                let rotation = self.piece.anti_clockwise();
                self.turn(rotation, now_ms);
                assert(self@ == old(self)@.after(event, now_ms as int, unused));
            },
            Event::Rotate180 => {
                let rotation = self.piece.flipped();
                self.turn(rotation, now_ms);
                assert(self@ == old(self)@.after(event, now_ms as int, unused));
            },
            Event::Hold => {
                if self.hold_piece.is_some() {
                    self.swap_held();
                    assert(self@ == old(self)@.after(event, now_ms as int, unused));
                } else {
                    let fresh = Piece::new();
                    self.stash(fresh);
                    assert(self@ == old(self)@.after(event, now_ms as int, fresh));
                }
            },
            Event::Quit => {
                assert(self@ == old(self)@.after(event, now_ms as int, unused));
                return Flow::Quit;
            },
        }
        Flow::Continue
    }

    /// Lets gravity pull once: the falling piece goes one row down if it
    /// stands clear there. Says whether it did.
    pub fn fall(&mut self) -> (fell: bool)
        requires
            old(self).wf(),
        ensures
            final(self).wf(),
            final(self)@ == old(self)@.fallen(),
            fell == old(self).piece.can_move(old(self).grid@, State::down()),
    {
        self.piece.try_move(&self.grid, Pos(0, 1))
    }

    /// Whether, at time `now_ms`, the lock delay has run out.
    pub fn lock_due(&self, now_ms: u64) -> (due: bool)
        ensures
            due == self@.lock_due(now_ms as int),
    {
        now_ms > self.last_move_ms && now_ms - self.last_move_ms > Session::LOCK_DELAY_MS
    }

    /// Adds `elapsed_ms` to the time gathered towards the next ticks of
    /// gravity.
    pub fn elapse(&mut self, elapsed_ms: u64)
        requires
            old(self).delta_ms + elapsed_ms <= u64::MAX,
        ensures
            *final(self) == (Session {
                delta_ms: (old(self).delta_ms + elapsed_ms) as u64,
                ..*old(self)
            }),
    {
        self.delta_ms = self.delta_ms + elapsed_ms;
    }

    /// Runs the ticks of gravity that the gathered time holds, at time
    /// `now_ms`. At each tick the falling piece goes one row down if it can;
    /// if it cannot and the lock delay has run out it is locked, and a new
    /// piece is drawn at random to wait in the next piece's place.
    pub fn gravity(&mut self, now_ms: u64)
        requires
            old(self).wf(),
        ensures
            final(self).wf(),
            final(self).delta_ms <= Session::GRAVITY_MS,
            old(self)@.in_play() ==> final(self)@.in_play(),
            exists|fresh: Seq<Piece>|
                {
                    &&& fresh.len() == old(self)@.ticks_due()
                    &&& forall|i: int|
                        0 <= i < fresh.len() ==> (#[trigger] fresh[i]).wf() && fresh[i].is_staged()
                    &&& final(self)@ == #[trigger] old(self)@.after_ticks(now_ms as int, fresh)
                },
    {
        let ghost mut drawn = Seq::<Piece>::empty();
        while self.delta_ms > Session::GRAVITY_MS
            invariant
                self.wf(),
                self@ == old(self)@.after_ticks(now_ms as int, drawn),
                self.delta_ms == old(self).delta_ms - Session::GRAVITY_MS * drawn.len(),
                drawn.len() > 0 ==> self.delta_ms > 0,
                forall|i: int| 0 <= i < drawn.len() ==> (#[trigger] drawn[i]).wf() && drawn[i].is_staged(),
            decreases self.delta_ms,
        {
            let ghost mut fresh = Piece::spawned(Shape::I, Color::White);
            let ghost before = self@;
            if !self.fall() && self.lock_due(now_ms) {
                let piece = Piece::new();
                proof {
                    fresh = piece;
                }
                self.lock(piece, now_ms);
            }
            self.delta_ms = self.delta_ms - Session::GRAVITY_MS;
            proof {
                assert(self@ == before.ticked(now_ms as int, fresh));
                assert(drawn.push(fresh).drop_last() =~= drawn);
                drawn = drawn.push(fresh);
            }
        }
        proof {
            assert(drawn.len() == old(self)@.ticks_due());
            if old(self)@.in_play() {
                lemma_ticks_keep_in_play(old(self)@, now_ms as int, drawn);
            }
        }
    }
}

/// A game starts in play: well formed, with its falling piece standing
/// clear above the board.
pub proof fn lemma_initial_in_play(first: Piece, next: Piece)
    requires
        first.wf(),
        next.wf(),
    ensures
        State::initial(first, next).in_play(),
{
    let state = State::initial(first, next);
    lemma_top_slot_is_clear(state.piece, state.board);
}

/// Locking leaves the game well formed and puts the next piece clear above
/// the board.
proof fn lemma_locked_in_play(state: State, fresh: Piece, now: int)
    requires
        state.wf(),
        fresh.wf(),
        now >= 0,
    ensures
        state.locked(fresh, now).in_play(),
{
    let after = state.locked(fresh, now);
    let written = state.board.emplaced(
        state.piece.mask(),
        state.piece.pos.0 as int,
        state.piece.pos.1 as int,
        state.piece.color,
    );
    lemma_emplaced_wf(
        state.board,
        state.piece.mask(),
        state.piece.pos.0 as int,
        state.piece.pos.1 as int,
        state.piece.color,
    );
    lemma_compacted_wf(written);
    lemma_top_slot_is_clear(after.piece, after.board);
}

/// An input leaves a game in play in play: whatever the player asks for,
/// the pieces stay well formed and the falling piece stays clear of the
/// walls, the floor and every taken cell.
pub proof fn lemma_event_keeps_in_play(state: State, event: Event, now: int, fresh: Piece)
    requires
        state.in_play(),
        fresh.wf(),
        now >= 0,
    ensures
        state.after(event, now, fresh).in_play(),
{
    let after = state.after(event, now, fresh);
    match event {
        Event::HardDrop => {
            lemma_locked_in_play(
                State { piece: state.piece.landed(state.board), ..state },
                fresh,
                now,
            );
        },
        Event::Hold => {
            lemma_top_slot_is_clear(after.piece, after.board);
        },
        Event::RotateCW => {
            lemma_turns_in_range(state.piece);
        },
        Event::RotateCCW => {
            lemma_turns_in_range(state.piece);
        },
        Event::Rotate180 => {
            lemma_turns_in_range(state.piece);
        },
        _ => {},
    }
}

/// A tick of gravity leaves a game in play in play.
pub proof fn lemma_tick_keeps_in_play(state: State, now: int, fresh: Piece)
    requires
        state.in_play(),
        state.delta_ms > Session::GRAVITY_MS,
        fresh.wf(),
        now >= 0,
    ensures
        state.ticked(now, fresh).in_play(),
{
    if !state.piece.can_move(state.board, State::down()) && state.lock_due(now) {
        lemma_locked_in_play(state, fresh, now);
    }
}

/// Ticks of gravity, as many as the gathered time holds or fewer, leave a
/// game in play in play, and each takes one period off the gathered time.
pub proof fn lemma_ticks_keep_in_play(state: State, now: int, fresh: Seq<Piece>)
    requires
        state.in_play(),
        now >= 0,
        fresh.len() <= state.ticks_due(),
        forall|i: int| 0 <= i < fresh.len() ==> (#[trigger] fresh[i]).wf(),
    ensures
        state.after_ticks(now, fresh).in_play(),
        state.after_ticks(now, fresh).delta_ms == state.delta_ms - Session::GRAVITY_MS
            * fresh.len(),
    decreases fresh.len(),
{
    if fresh.len() > 0 {
        lemma_ticks_keep_in_play(state, now, fresh.drop_last());
        lemma_tick_keeps_in_play(state.after_ticks(now, fresh.drop_last()), now, fresh.last());
    }
}

/// A game in play has every block of its falling piece in a column of the
/// board and above the floor.
pub proof fn lemma_in_play_in_bounds(state: State)
    requires
        state.in_play(),
    ensures
        forall|col: int, row: int| #[trigger]
            state.piece.covers(col, row) ==> 0 <= col < Grid::WIDTH && row < Grid::HEIGHT,
{
    lemma_clear_piece_in_bounds(state.piece, state.board);
}

} // verus!
