//! The state of a game and what one tick does to it.
//!
//! The field is `width` by `height` cells. Its outermost ring is border; the
//! snake lives in the interior, `[1, width - 2] x [1, height - 2]`, and
//! leaving it on one side means entering it on the other.

use crate::input::asked;
use crate::input::Command;
use crate::input::Key;
use crate::placement::board_full;
use crate::placement::is_free;
use crate::placement::occupied;
use crate::placement::place_random;
use crate::render::area_index;
use crate::render::area_len;
use crate::render::draw_area;
use crate::render::draw_fruit;
use crate::render::Glyph;
use crate::render::BACKGROUND;
use crate::render::FRUIT;
use crate::render::GRAY;
use crate::snake::Direction;
use crate::snake::Segment;
use vstd::prelude::*;

verus! {

/// The length a snake starts out to reach.
pub const START_LENGTH: usize = 20;

/// The cell one step from `(x, y)` in heading `d`.
pub open spec fn stepped(x: int, y: int, d: Direction) -> (int, int) {
    match d {
        Direction::Up => (x, y - 1),
        Direction::Right => (x + 1, y),
        Direction::Down => (x, y + 1),
        Direction::Left => (x - 1, y),
    }
}

/// A coordinate brought back into `[1, limit - 2]`: one that fell off the low
/// side comes in at the high side, and the other way round.
pub open spec fn wrapped(v: int, limit: int) -> int {
    if v < 1 {
        limit - 2
    } else if v > limit - 2 {
        1
    } else {
        v
    }
}

/// Whether `(x, y)` is an interior cell of a `width` by `height` field.
pub open spec fn in_interior(x: int, y: int, width: int, height: int) -> bool {
    1 <= x <= width - 2 && 1 <= y <= height - 2
}

/// The body as a list of taken cells, each with its heading's number.
pub open spec fn body_cells(body: Seq<Segment>) -> Seq<(usize, usize, i32)> {
    Seq::new(
        body.len(),
        |i: int| (body[i].x as usize, body[i].y as usize, body[i].dir.index() as i32),
    )
}

/// Whether some segment of `body` lies on `cell`.
pub open spec fn on_body(body: Seq<Segment>, cell: (int, int)) -> bool {
    exists|i: int| 0 <= i < body.len() && (#[trigger] body[i]).x == cell.0 && body[i].y == cell.1
}

/// Whether `placed` is an answer that fruit placement may give for a body on
/// a field: a free cell of the board left of and above the far border, and
/// nothing exactly when that board is full.
pub open spec fn placement_allowed(
    body: Seq<Segment>,
    width: int,
    height: int,
    placed: Option<(usize, usize)>,
) -> bool {
    let taken = body_cells(body);
    &&& placed matches Some(c) ==> is_free(taken, width - 1, height - 1, c)
    &&& placed is None <==> board_full(taken, width - 1, height - 1)
}

/// A game as plain mathematics.
pub struct GameState {
    pub width: int,
    pub height: int,
    pub head: (int, int),
    pub heading: Direction,
    /// Tail first; the last segment is the newest.
    pub body: Seq<Segment>,
    pub target_length: nat,
    pub fruit: Option<(int, int)>,
}

impl GameState {
    /// The field has an interior and its sides fit the coordinates of a
    /// segment, the head and every segment are in the interior, and the body
    /// is no longer than its target.
    pub open spec fn wf(self) -> bool {
        &&& 3 <= self.width <= i32::MAX
        &&& 3 <= self.height <= i32::MAX
        &&& in_interior(self.head.0, self.head.1, self.width, self.height)
        &&& self.body.len() <= self.target_length
        &&& forall|i: int|
            0 <= i < self.body.len() ==> in_interior(
                (#[trigger] self.body[i]).x as int,
                self.body[i].y as int,
                self.width,
                self.height,
            )
    }

    /// A fresh game: the head in the middle heading right, no body yet and
    /// no fruit.
    pub open spec fn initial(width: int, height: int) -> GameState {
        GameState {
            width,
            height,
            head: (width / 2, height / 2),
            heading: Direction::Right,
            body: Seq::empty(),
            target_length: START_LENGTH as nat,
            fruit: None,
        }
    }

    /// The game after the player's request: a turn is taken unless it points
    /// straight back; anything else leaves the heading alone.
    pub open spec fn steered(self, cmd: Command) -> GameState {
        match cmd {
            Command::Turn(d) => GameState { heading: self.heading.steered(d), ..self },
            _ => self,
        }
    }

    /// Where the head is after one step along the heading, wrapped.
    pub open spec fn next_head(self) -> (int, int) {
        let to = stepped(self.head.0, self.head.1, self.heading);
        (wrapped(to.0, self.width), wrapped(to.1, self.height))
    }

    /// The game after the head has moved: the new head is appended to the
    /// body, and the oldest segment leaves if the body is then too long.
    pub open spec fn moved(self) -> GameState {
        let head = self.next_head();
        let grown = self.body.push(
            Segment { x: head.0 as i32, y: head.1 as i32, dir: self.heading },
        );
        GameState {
            head,
            body: if grown.len() > self.target_length {
                grown.remove(0)
            } else {
                grown
            },
            ..self
        }
    }

    /// The game after fruit placement answered `placed`: the answer is taken
    /// only where no fruit lies on the field.
    pub open spec fn spawned(self, placed: Option<(usize, usize)>) -> GameState {
        match (self.fruit, placed) {
            (None, Some(c)) => GameState { fruit: Some((c.0 as int, c.1 as int)), ..self },
            _ => self,
        }
    }

    /// Whether a segment other than the newest lies on the fruit.
    pub open spec fn fruit_struck(self) -> bool {
        self.fruit matches Some(f) && exists|i: int|
            0 <= i < self.body.len() - 1 && (#[trigger] self.body[i]).x == f.0 && self.body[i].y
                == f.1
    }

    /// The game after the fruit check: a struck fruit is gone and the target
    /// length is one more.
    pub open spec fn digested(self) -> GameState {
        if self.fruit_struck() {
            GameState { fruit: None, target_length: self.target_length + 1, ..self }
        } else {
            self
        }
    }

    /// One whole tick, given the player's request and the answer of fruit
    /// placement.
    pub open spec fn ticked(self, cmd: Command, placed: Option<(usize, usize)>) -> GameState {
        self.steered(cmd).moved().spawned(placed).digested()
    }
}

/// A coordinate is inside the interior after a wrap, wherever it was before.
pub proof fn wrap_stays_inside(v: int, limit: int)
    requires
        limit >= 3,
    ensures
        1 <= wrapped(v, limit) <= limit - 2,
{
}

/// One step from the high edge of the interior wraps to the low edge, and one
/// step from the low edge to the high edge.
pub proof fn wrap_crosses_edges(limit: int)
    requires
        limit >= 3,
    ensures
        wrapped(limit - 2 + 1, limit) == 1,
        wrapped(1 - 1, limit) == limit - 2,
{
}

/// Asking for the opposite of the current heading changes nothing.
pub proof fn reversal_keeps_heading(s: GameState)
    ensures
        s.steered(Command::Turn(s.heading.reversed())) == s,
{
}

/// After a move the head and the whole body are inside the interior, and the
/// body is no longer than the target.
pub proof fn move_keeps_wf(s: GameState)
    requires
        s.wf(),
    ensures
        s.moved().wf(),
        in_interior(s.moved().head.0, s.moved().head.1, s.width, s.height),
        s.moved().body.len() <= s.target_length,
{
    let m = s.moved();
    let head = s.next_head();
    let seg = Segment { x: head.0 as i32, y: head.1 as i32, dir: s.heading };
    let grown = s.body.push(seg);
    assert forall|i: int| 0 <= i < m.body.len() implies in_interior(
        (#[trigger] m.body[i]).x as int,
        m.body[i].y as int,
        m.width,
        m.height,
    ) by {
        let k = if grown.len() > s.target_length {
            i + 1
        } else {
            i
        };
        assert(m.body[i] == grown[k]);
        if k < s.body.len() {
            assert(grown[k] == s.body[k]);
        }
    }
}

/// Taking a request, placing a fruit and eating one each leave a game a
/// game: the body stays inside the interior and within its target.
pub proof fn steps_keep_wf(s: GameState, cmd: Command, placed: Option<(usize, usize)>)
    requires
        s.wf(),
    ensures
        s.steered(cmd).wf(),
        s.spawned(placed).wf(),
        s.digested().wf(),
        s.digested().target_length >= s.target_length,
{
}

/// Over a whole tick the body never outgrows the target, the target never
/// shrinks, and it grows by exactly one where a fruit was struck and not at
/// all otherwise.
pub proof fn tick_grows_by_fruit(s: GameState, cmd: Command, placed: Option<(usize, usize)>)
    requires
        s.wf(),
    ensures
        s.ticked(cmd, placed).wf(),
        s.ticked(cmd, placed).body.len() <= s.ticked(cmd, placed).target_length,
        s.ticked(cmd, placed).target_length >= s.target_length,
        s.steered(cmd).moved().spawned(placed).fruit_struck() ==> s.ticked(
            cmd,
            placed,
        ).target_length == s.target_length + 1 && s.ticked(cmd, placed).fruit is None,
        !s.steered(cmd).moved().spawned(placed).fruit_struck() ==> s.ticked(
            cmd,
            placed,
        ).target_length == s.target_length,
{
    move_keeps_wf(s.steered(cmd));
}

/// A cell that is free of the body's cells has no segment on it.
proof fn lemma_free_cell_off_body(body: Seq<Segment>, width: int, height: int, c: (usize, usize))
    requires
        is_free(body_cells(body), width, height, c),
        forall|i: int| 0 <= i < body.len() ==> (#[trigger] body[i]).x >= 0 && body[i].y >= 0,
    ensures
        !on_body(body, (c.0 as int, c.1 as int)),
{
    if on_body(body, (c.0 as int, c.1 as int)) {
        let i = choose|i: int|
            0 <= i < body.len() && (#[trigger] body[i]).x == c.0 as int && body[i].y == c.1 as int;
        let taken = body_cells(body);
        assert(taken[i].0 == c.0 && taken[i].1 == c.1);
        assert(occupied(taken, c.0 as int, c.1 as int));
    }
}

/// A fruit under a segment other than the newest is eaten: it leaves the
/// field, the target length grows by one, however many segments lie on it,
/// and the body stays as it was. A fruit that no such segment lies on, and a
/// field without fruit, change nothing.
pub proof fn struck_fruit_is_cleared(s: GameState)
    ensures
        s.fruit_struck() ==> s.digested().fruit is None && s.digested().target_length
            == s.target_length + 1,
        !s.fruit_struck() ==> s.digested() == s,
        s.digested().body == s.body,
        !s.digested().fruit_struck(),
{
}

/// A fruit that has just been placed lies under no segment, so it is not
/// eaten in the tick that placed it.
pub proof fn placed_fruit_is_not_struck(s: GameState, placed: Option<(usize, usize)>)
    requires
        s.wf(),
        s.fruit is None,
        placement_allowed(s.body, s.width, s.height, placed),
    ensures
        !s.spawned(placed).fruit_struck(),
        s.spawned(placed).digested() == s.spawned(placed),
        s.spawned(placed).fruit is None <==> board_full(
            body_cells(s.body),
            s.width - 1,
            s.height - 1,
        ),
{
    if let Some(c) = placed {
        lemma_free_cell_off_body(s.body, s.width - 1, s.height - 1, c);
    }
}

/// A running game.
#[derive(Clone, Debug)]
pub struct Game {
    pub width: i32,
    pub height: i32,
    pub head_x: i32,
    pub head_y: i32,
    pub heading: Direction,
    /// Tail first; the last segment is the newest.
    pub body: Vec<Segment>,
    pub target_length: usize,
    pub fruit: Option<(i32, i32)>,
}

impl View for Game {
    type V = GameState;

    open spec fn view(&self) -> GameState {
        GameState {
            width: self.width as int,
            height: self.height as int,
            head: (self.head_x as int, self.head_y as int),
            heading: self.heading,
            body: self.body@,
            target_length: self.target_length as nat,
            fruit: match self.fruit {
                Some(f) => Some((f.0 as int, f.1 as int)),
                None => None,
            },
        }
    }
}

/// One step from `(x, y)` in heading `d`.
pub fn advance(x: i32, y: i32, d: Direction) -> (to: (i32, i32))
    requires
        d == Direction::Up ==> y > i32::MIN,
        d == Direction::Right ==> x < i32::MAX,
        d == Direction::Down ==> y < i32::MAX,
        d == Direction::Left ==> x > i32::MIN,
    ensures
        (to.0 as int, to.1 as int) == stepped(x as int, y as int, d),
{
    match d {
        Direction::Up => (x, y - 1),
        Direction::Right => (x + 1, y),
        Direction::Down => (x, y + 1),
        Direction::Left => (x - 1, y),
    }
}

/// Brings a coordinate back into the interior of a side of `limit` cells.
pub fn wrap(v: i32, limit: i32) -> (r: i32)
    requires
        limit - 2 >= i32::MIN,
    ensures
        r == wrapped(v as int, limit as int),
        limit >= 3 ==> 1 <= r <= limit - 2,
{
    if v < 1 {
        limit - 2
    } else if v > limit - 2 {
        1
    } else {
        v
    }
}

impl Game {
    /// A fresh game on a `width` by `height` field, where the field has an
    /// interior.
    pub fn new(width: i32, height: i32) -> (r: Option<Game>)
        ensures
            r is Some <==> width >= 3 && height >= 3,
            r matches Some(g) ==> g@ == GameState::initial(width as int, height as int) && g@.wf(),
    {
        if width < 3 || height < 3 {
            return None;
        }
        let g = Game {
            width,
            height,
            head_x: width / 2,
            head_y: height / 2,
            heading: Direction::Right,
            body: Vec::new(),
            target_length: START_LENGTH,
            fruit: None,
        };
        assert(g@.body =~= Seq::<Segment>::empty());
        Some(g)
    }

    /// Whether the state is one that a game can be in.
    pub fn is_valid(&self) -> (r: bool)
        ensures
            r == self@.wf(),
    {
        if self.width < 3 || self.height < 3 {
            return false;
        }
        if self.head_x < 1 || self.head_x > self.width - 2 || self.head_y < 1 || self.head_y
            > self.height - 2 {
            return false;
        }
        if self.body.len() > self.target_length {
            return false;
        }
        let n: usize = self.body.len();
        let mut i: usize = 0;
        while i < n
            invariant
                i <= n,
                n == self.body@.len(),
                self.width >= 3,
                self.height >= 3,
                forall|k: int|
                    0 <= k < i ==> in_interior(
                        (#[trigger] self.body@[k]).x as int,
                        self.body@[k].y as int,
                        self.width as int,
                        self.height as int,
                    ),
            decreases n - i,
        {
            let seg: Segment = self.body[i];
            if seg.x < 1 || seg.x > self.width - 2 || seg.y < 1 || seg.y > self.height - 2 {
                return false;
            }
            i += 1;
        }
        true
    }

    /// Takes the player's request.
    pub fn steer(&mut self, cmd: Command)
        ensures
            final(self)@ == old(self)@.steered(cmd),
    {
        match cmd {
            Command::Turn(d) => {
                self.heading = self.heading.steer(d);
            },
            _ => {},
        }
    }

    /// Moves the head one cell, wraps it, appends it to the body and drops
    /// the oldest segment if the body is then longer than its target.
    pub fn advance(&mut self)
        requires
            old(self)@.wf(),
        ensures
            final(self)@ == old(self)@.moved(),
            final(self)@.wf(),
    {
        proof {
            move_keeps_wf(self@);
        }
        let to: (i32, i32) = advance(self.head_x, self.head_y, self.heading);
        self.head_x = wrap(to.0, self.width);
        self.head_y = wrap(to.1, self.height);
        self.body.push(Segment { x: self.head_x, y: self.head_y, dir: self.heading });
        if self.body.len() > self.target_length {
            self.body.remove(0);
        }
    }

    /// The body as the list of taken cells that fruit placement reads.
    pub fn blacklist(&self) -> (out: Vec<(usize, usize, i32)>)
        requires
            self@.wf(),
        ensures
            out@ == body_cells(self@.body),
    {
        let mut out: Vec<(usize, usize, i32)> = Vec::new();
        let n: usize = self.body.len();
        let mut i: usize = 0;
        while i < n
            invariant
                i <= n,
                n == self.body@.len(),
                self@.wf(),
                out@.len() == i,
                forall|k: int| 0 <= k < i ==> #[trigger] out@[k] == body_cells(self@.body)[k],
            decreases n - i,
        {
            let seg: Segment = self.body[i];
            out.push((seg.x as usize, seg.y as usize, seg.dir.code()));
            i += 1;
        }
        assert(out@ =~= body_cells(self@.body));
        out
    }

    /// Puts a fruit where fruit placement said, if none lies on the field.
    pub fn spawn(&mut self, placed: Option<(usize, usize)>)
        requires
            placed matches Some(c) ==> c.0 <= i32::MAX && c.1 <= i32::MAX,
        ensures
            final(self)@ == old(self)@.spawned(placed),
    {
        if self.fruit.is_none() {
            match placed {
                Some(c) => {
                    self.fruit = Some((c.0 as i32, c.1 as i32));
                },
                None => {},
            }
        }
    }

    /// Looks for the fruit under every segment but the newest; where it is
    /// found the fruit is taken off the field and the target length grows by
    /// one.
    pub fn digest(&mut self) -> (eaten: bool)
        requires
            old(self).target_length < usize::MAX,
        ensures
            eaten == old(self)@.fruit_struck(),
            final(self)@ == old(self)@.digested(),
            final(self)@.body == old(self)@.body,
            eaten ==> final(self)@.fruit is None && final(self)@.target_length == old(self)@.target_length + 1,
            !eaten ==> final(self)@ == old(self)@,
    {
        let f: (i32, i32) = match self.fruit {
            Some(f) => f,
            None => {
                return false;
            },
        };
        let n: usize = self.body.len();
        let mut hit: bool = false;
        let mut i: usize = 0;
        while i + 1 < n
            invariant
                n == self.body@.len(),
                i + 1 <= n || i == 0,
                hit == (exists|k: int|
                    0 <= k < i && (#[trigger] self.body@[k]).x == f.0 && self.body@[k].y == f.1),
            decreases n - i,
        {
            let seg: Segment = self.body[i];
            if seg.x == f.0 && seg.y == f.1 {
                hit = true;
            }
            i += 1;
        }
        if hit {
            self.fruit = None;
            self.target_length = self.target_length + 1;
        }
        hit
    }

    /// One tick of the game: the request is taken, the head moves, a fruit is
    /// placed if none is there, and a struck fruit is eaten. `q` ends the
    /// game instead, and nothing changes. Returns whether the game goes on.
    pub fn tick(&mut self, key: Option<Key>) -> (running: bool)
        requires
            old(self)@.wf(),
            old(self).target_length < usize::MAX,
            (old(self).width - 1) * (old(self).height - 1) <= usize::MAX,
        ensures
            running == !(asked(key) is Quit),
            !running ==> final(self)@ == old(self)@,
            final(self)@.wf(),
            running && old(self)@.fruit is Some ==> final(self)@ == old(self)@.steered(
                asked(key),
            ).moved().digested(),
            running && old(self)@.fruit is None ==> exists|placed: Option<(usize, usize)>|
                placement_allowed(
                    old(self)@.steered(asked(key)).moved().body,
                    old(self)@.width,
                    old(self)@.height,
                    placed,
                ) && final(self)@ == #[trigger] old(self)@.ticked(asked(key), placed),
            running && old(self)@.fruit is None ==> (final(self)@.fruit matches Some(f) ==> 0 <= f.0
                < old(self)@.width - 1 && 0 <= f.1 < old(self)@.height - 1 && !on_body(
                final(self)@.body,
                f,
            )),
            running && old(self)@.fruit is None ==> (final(self)@.fruit is None <==> board_full(
                body_cells(final(self)@.body),
                old(self)@.width - 1,
                old(self)@.height - 1,
            )),
            final(self)@.body.len() <= final(self)@.target_length,
            running ==> final(self)@.body == old(self)@.steered(asked(key)).moved().body,
            final(self)@.target_length == old(self)@.target_length + (if running && old(self)@.steered(asked(key)).moved().fruit_struck() {
                1nat
            } else {
                0nat
            }),
            running && old(self)@.steered(asked(key)).moved().fruit_struck() ==> final(self)@.fruit is None,
    {
        let cmd: Command = match key {
            Some(k) => k.command(),
            None => Command::Nothing,
        };
        if let Command::Quit = cmd {
            return false;
        }
        self.steer(cmd);
        self.advance();
        let ghost moved = self@;
        if self.fruit.is_none() {
            let taken: Vec<(usize, usize, i32)> = self.blacklist();
            let w: usize = (self.width - 1) as usize;
            let h: usize = (self.height - 1) as usize;
            let placed: Option<(usize, usize)> = place_random(taken.as_slice(), w, h);
            self.spawn(placed);
            self.digest();
            proof {
                assert(placement_allowed(moved.body, moved.width, moved.height, placed));
                if let Some(c) = placed {
                    lemma_free_cell_off_body(moved.body, moved.width - 1, moved.height - 1, c);
                }
                assert(self@ == old(self)@.ticked(asked(key), placed));
                tick_grows_by_fruit(old(self)@, asked(key), placed);
                placed_fruit_is_not_struck(moved, placed);
            }
        } else {
            self.digest();
            proof {
                assert(moved.spawned(None) == moved);
                tick_grows_by_fruit(old(self)@, asked(key), None);
            }
        }
        true
    }
}

/// What is drawn of a game before its snake: the background over the whole
/// interior, then the fruit in `color` if one lies on the field.
pub fn frame(game: &Game, color: i32) -> (out: Vec<Glyph>)
    requires
        game.width > i32::MIN,
        game.width > 2 ==> game.height > i32::MIN,
    ensures
        out@.len() == area_len(game.width as int, game.height as int) + (if game.fruit is Some {
            1int
        } else {
            0int
        }),
        forall|x: int, y: int|
            1 <= x < game.width - 1 && 1 <= y < game.height - 1 ==> 0 <= #[trigger] area_index(
                x,
                y,
                game.height as int,
            ) < area_len(game.width as int, game.height as int) && out@[area_index(
                x,
                y,
                game.height as int,
            )] == (Glyph { x: x as i32, y: y as i32, symbol: BACKGROUND, color: GRAY }),
        game.fruit matches Some(f) ==> out@[area_len(game.width as int, game.height as int)] == (
        Glyph { x: f.0, y: f.1, symbol: FRUIT, color }),
{
    let mut out: Vec<Glyph> = draw_area(game.width, game.height, GRAY);
    match game.fruit {
        Some(f) => {
            out.push(draw_fruit(f, color));
        },
        None => {},
    }
    out
}

} // verus!
