use vstd::prelude::*;

use crate::rng::{lcg_next, Rng};
use crate::vector::Vector2d;

verus! {

/// Side of the square field, in cells.
pub const FIELD_SIZE: i32 = 20;

/// Candidates drawn for a fruit before placement gives up. The generator has
/// full period 2^31 and a candidate takes two draws, so the candidates repeat
/// after this many: a cell that is not drawn by then is never drawn.
pub const FRUIT_TRIES: u64 = 0x4000_0000;

/// A key of the keyboard, as far as the game tells keys apart.
#[derive(Clone, Copy, Debug, PartialEq, Eq, Structural)]
pub enum KeyCode {
    Up,
    Down,
    Left,
    Right,
    W,
    A,
    S,
    D,
    Other,
}

/// The state of a game, as plain values.
pub struct WorldView {
    pub head: Vector2d,
    pub body: Seq<Vector2d>,
    pub fruit: Vector2d,
    pub dir: Vector2d,
    /// The generator's state.
    pub rng: u32,
    /// The game has ended.
    pub over: bool,
    /// Fruit placement found no free cell; the game has ended.
    pub starved: bool,
}

pub open spec fn vec2(x: int, y: int) -> Vector2d {
    Vector2d { x: x as i32, y: y as i32 }
}

/// The cell lies on the field.
pub open spec fn in_field(p: Vector2d) -> bool {
    0 <= p.x < FIELD_SIZE && 0 <= p.y < FIELD_SIZE
}

/// The cell lies on the field or on the ring of cells around it.
pub open spec fn near_field(p: Vector2d) -> bool {
    -1 <= p.x <= FIELD_SIZE && -1 <= p.y <= FIELD_SIZE
}

/// A heading: one of the four unit steps, or standing still.
pub open spec fn is_direction(d: Vector2d) -> bool {
    d == vec2(0, -1) || d == vec2(-1, 0) || d == vec2(0, 1) || d == vec2(1, 0) || d == vec2(0, 0)
}

/// The heading after a key press: the four arrows and W, A, S, D steer, any
/// other key keeps the heading.
pub open spec fn direction_after(key: KeyCode, dir: Vector2d) -> Vector2d {
    match key {
        KeyCode::Up | KeyCode::W => vec2(0, -1),
        KeyCode::Left | KeyCode::A => vec2(-1, 0),
        KeyCode::Down | KeyCode::S => vec2(0, 1),
        KeyCode::Right | KeyCode::D => vec2(1, 0),
        KeyCode::Other => dir,
    }
}

/// A coordinate drawn from the generator in state `s`.
pub open spec fn coord_of(s: u32) -> i32 {
    (s % (FIELD_SIZE as u32)) as i32
}

/// The candidate cell drawn from state `s` (x first, then y), with the state after it.
pub open spec fn candidate(s: u32) -> (Vector2d, u32) {
    let s1 = lcg_next(s);
    let s2 = lcg_next(s1);
    (Vector2d { x: coord_of(s1), y: coord_of(s2) }, s2)
}

/// Fruit placement from state `s` with `tries` candidates left: the first
/// candidate that is neither the head nor a body cell, and the state after it;
/// `None` where all `tries` candidates were taken.
pub open spec fn place(s: u32, head: Vector2d, body: Seq<Vector2d>, tries: nat) -> (Option<Vector2d>, u32)
    decreases tries,
{
    if tries == 0 {
        (None, s)
    } else {
        let (c, s2) = candidate(s);
        if c != head && !body.contains(c) {
            (Some(c), s2)
        } else {
            place(s2, head, body, (tries - 1) as nat)
        }
    }
}

/// The body after one step: each segment takes the place of the one ahead of
/// it, the first that of the head.
pub open spec fn shifted(body: Seq<Vector2d>, head: Vector2d) -> Seq<Vector2d> {
    if body.len() == 0 {
        body
    } else {
        seq![head] + body.drop_last()
    }
}

/// The segment added on growth: one step behind the last segment (or behind
/// the head where there is none), against the heading.
pub open spec fn grown_tail(body: Seq<Vector2d>, head: Vector2d, dir: Vector2d) -> Vector2d {
    let last = if body.len() == 0 {
        head
    } else {
        body.last()
    };
    vec2(last.x - dir.x, last.y - dir.y)
}

/// The state in which a game starts with the generator in state `s`.
pub open spec fn initial(s: u32) -> WorldView {
    let head = vec2(FIELD_SIZE / 2, FIELD_SIZE / 2);
    let (f, s2) = place(s, head, seq![], FRUIT_TRIES as nat);
    WorldView {
        head,
        body: seq![],
        fruit: if f is Some { f->Some_0 } else { vec2(0, 0) },
        dir: vec2(0, 0),
        rng: s2,
        over: f is None,
        starved: f is None,
    }
}

/// One tick: the state after it, whether it needs a redraw, whether the game is over.
pub open spec fn tick(w: WorldView) -> (WorldView, bool, bool) {
    if w.over || w.dir == vec2(0, 0) {
        (w, false, w.over)
    } else {
        let moved = shifted(w.body, w.head);
        let head = vec2(w.head.x + w.dir.x, w.head.y + w.dir.y);
        if head == w.fruit {
            let body = moved.push(grown_tail(moved, head, w.dir));
            let (f, s) = place(w.rng, head, body, FRUIT_TRIES as nat);
            let starved = f is None;
            let over = !in_field(head) || body.contains(head) || starved;
            let fruit = if starved { w.fruit } else { f->Some_0 };
            (WorldView { head, body, fruit, rng: s, over, starved, ..w }, true, over)
        } else {
            let over = !in_field(head) || moved.contains(head);
            (WorldView { head, body: moved, over, ..w }, true, over)
        }
    }
}

/// The state invariant of a game.
pub open spec fn world_wf(w: WorldView) -> bool {
    &&& is_direction(w.dir)
    &&& near_field(w.head)
    &&& !w.over ==> in_field(w.head) && !w.body.contains(w.head)
    &&& forall|i: int| 0 <= i < w.body.len() - 1 ==> in_field(#[trigger] w.body[i])
    &&& w.body.len() > 0 ==> near_field(w.body.last())
    &&& in_field(w.fruit)
    &&& !w.starved ==> w.fruit != w.head && !w.body.contains(w.fruit)
    &&& w.starved ==> w.over
}

/// A placed fruit lies on the field, off the head and off the body.
pub proof fn lemma_place_free(s: u32, head: Vector2d, body: Seq<Vector2d>, tries: nat)
    ensures
        place(s, head, body, tries).0 is Some ==> {
            let c = place(s, head, body, tries).0->Some_0;
            in_field(c) && c != head && !body.contains(c)
        },
    decreases tries,
{
    if tries > 0 {
        let (c, s2) = candidate(s);
        if !(c != head && !body.contains(c)) {
            lemma_place_free(s2, head, body, (tries - 1) as nat);
        }
    }
}

/// Every tick keeps the state invariant.
pub proof fn lemma_tick_wf(w: WorldView)
    requires
        world_wf(w),
    ensures
        world_wf(tick(w).0),
{
    if !(w.over || w.dir == vec2(0, 0)) {
        let moved = shifted(w.body, w.head);
        let head = vec2(w.head.x + w.dir.x, w.head.y + w.dir.y);
        assert forall|i: int| 0 <= i < moved.len() implies in_field(#[trigger] moved[i]) by {
            if i > 0 {
                assert(moved[i] == w.body[i - 1]);
            }
        }
        assert forall|p: Vector2d| #[trigger] moved.contains(p) implies p == w.head
            || w.body.contains(p) by {
            let i = choose|i: int| 0 <= i < moved.len() && moved[i] == p;
            if i > 0 {
                assert(moved[i] == w.body[i - 1]);
            }
        }
        if head == w.fruit {
            let body = moved.push(grown_tail(moved, head, w.dir));
            lemma_place_free(w.rng, head, body, FRUIT_TRIES as nat);
            assert forall|i: int| 0 <= i < body.len() - 1 implies in_field(#[trigger] body[i]) by {
                assert(body[i] == moved[i]);
            }
        }
    }
}

/// An input to a game: a key press or a tick.
#[derive(Clone, Copy, Debug, PartialEq, Eq, Structural)]
pub enum Event {
    Key(KeyCode),
    Tick,
}

/// The state after one event.
pub open spec fn step(w: WorldView, e: Event) -> WorldView {
    match e {
        Event::Key(k) => WorldView { dir: direction_after(k, w.dir), ..w },
        Event::Tick => tick(w).0,
    }
}

/// The state after a sequence of events, in order.
pub open spec fn run(w: WorldView, events: Seq<Event>) -> WorldView
    decreases events.len(),
{
    if events.len() == 0 {
        w
    } else {
        run(step(w, events[0]), events.drop_first())
    }
}

/// A run through the events from index `i` on is one step followed by a run
/// through those from `i + 1` on.
pub proof fn lemma_run_skip(w: WorldView, events: Seq<Event>, i: int)
    requires
        0 <= i < events.len(),
    ensures
        run(w, events.skip(i)) == run(step(w, events[i]), events.skip(i + 1)),
{
    assert(events.skip(i).drop_first() =~= events.skip(i + 1));
}

/// Determinism: two games started from the same seed and fed the same events
/// reach the same state after every prefix of the events.
pub proof fn lemma_deterministic(s1: u32, s2: u32, events: Seq<Event>, n: nat)
    requires
        s1 == s2,
        n <= events.len(),
    ensures
        run(initial(s1), events.take(n as int)) == run(initial(s2), events.take(n as int)),
{
}

/// Every state that a game reaches from any seed and any events keeps the
/// state invariant; in particular the fruit lies off the head and the body
/// unless placement found no free cell.
pub proof fn lemma_reachable_wf(s: u32, events: Seq<Event>)
    ensures
        world_wf(run(initial(s), events)),
        !run(initial(s), events).starved ==> run(initial(s), events).fruit != run(initial(s), events).head
            && !run(initial(s), events).body.contains(run(initial(s), events).fruit),
{
    lemma_place_free(s, vec2(FIELD_SIZE / 2, FIELD_SIZE / 2), seq![], FRUIT_TRIES as nat);
    lemma_run_wf(initial(s), events);
}

/// A run from a state that keeps the invariant ends in one that keeps it.
pub proof fn lemma_run_wf(w: WorldView, events: Seq<Event>)
    requires
        world_wf(w),
    ensures
        world_wf(run(w, events)),
    decreases events.len(),
{
    if events.len() > 0 {
        lemma_tick_wf(w);
        lemma_run_wf(step(w, events[0]), events.drop_first());
    }
}

/// Growth: a tick whose move lands the head on the fruit lengthens the body
/// by exactly one segment and places a new fruit off the snake (unless no free
/// cell was drawn, which ends the game).
pub proof fn lemma_growth(w: WorldView)
    requires
        world_wf(w),
        !w.over,
        w.dir != vec2(0, 0),
        vec2(w.head.x + w.dir.x, w.head.y + w.dir.y) == w.fruit,
    ensures
        tick(w).0.body.len() == w.body.len() + 1,
        tick(w).0.starved ==> tick(w).0.over,
        !tick(w).0.starved ==> in_field(tick(w).0.fruit) && tick(w).0.fruit != tick(w).0.head
            && !tick(w).0.body.contains(tick(w).0.fruit),
{
    lemma_tick_wf(w);
}

/// Boundary: a tick whose move takes the head off the field ends the game,
/// and no later tick changes anything.
pub proof fn lemma_boundary(w: WorldView)
    requires
        world_wf(w),
        !w.over,
        w.dir != vec2(0, 0),
        !in_field(vec2(w.head.x + w.dir.x, w.head.y + w.dir.y)),
    ensures
        tick(w).0.over,
        tick(w).2,
        tick(tick(w).0) == (tick(w).0, false, true),
{
}

/// Self-collision: a tick after which the head lies on a body cell ends the game.
pub proof fn lemma_self_collision(w: WorldView)
    requires
        world_wf(w),
        tick(w).0.body.contains(tick(w).0.head),
    ensures
        tick(w).0.over,
        tick(w).2,
{
}

/// Standing still, a tick changes nothing and asks for no redraw.
pub proof fn lemma_idle(w: WorldView)
    requires
        w.dir == vec2(0, 0),
    ensures
        tick(w) == (w, false, w.over),
{
}

/// Whether `p` is one of the cells of `body`.
fn body_contains(body: &Vec<Vector2d>, p: Vector2d) -> (r: bool)
    ensures
        r == body@.contains(p),
{
    let mut i: usize = 0;
    while i < body.len()
        invariant
            0 <= i <= body@.len(),
            forall|j: int| 0 <= j < i ==> body@[j] != p,
        decreases body@.len() - i,
    {
        if body[i] == p {
            return true;
        }
        i += 1;
    }
    false
}

/// A game of snake: the snake's head and body, the fruit, the heading and the
/// generator that places fruit.
pub struct World {
    snake_head: Vector2d,
    snake_body: Vec<Vector2d>,
    fruit: Vector2d,
    dir: Vector2d,
    rng: Rng,
    over: bool,
    starved: bool,
}

impl View for World {
    type V = WorldView;

    closed spec fn view(&self) -> WorldView {
        WorldView {
            head: self.snake_head,
            body: self.snake_body@,
            fruit: self.fruit,
            dir: self.dir,
            rng: self.rng.state(),
            over: self.over,
            starved: self.starved,
        }
    }
}

impl World {
    /// The state invariant holds.
    pub closed spec fn wf(&self) -> bool {
        world_wf(self@)
    }

    /// A game with the head at the field's centre, no body, standing still,
    /// and a fruit placed by `rng`.
    pub fn new(rng: Rng) -> (r: World)
        ensures
            r@ == initial(rng.state()),
            r.wf(),
    {
        let mut me = World {
            snake_head: Vector2d::new(FIELD_SIZE / 2, FIELD_SIZE / 2),
            snake_body: Vec::new(),
            fruit: Vector2d::new(0, 0),
            dir: Vector2d::new(0, 0),
            rng,
            over: false,
            starved: false,
        };
        if !me.create_fruit() {
            me.starved = true;
            me.over = true;
        }
        proof {
            lemma_place_free(rng.state(), me.snake_head, seq![], FRUIT_TRIES as nat);
        }
        me
    }

    /// Sets the heading from a key press.
    pub fn input(&mut self, key: KeyCode)
        requires
            old(self).wf(),
        ensures
            final(self)@ == (WorldView { dir: direction_after(key, old(self)@.dir), ..old(self)@ }),
            final(self).wf(),
    {
        self.dir = match key {
            KeyCode::Up | KeyCode::W => Vector2d::new(0, -1),
            KeyCode::Left | KeyCode::A => Vector2d::new(-1, 0),
            KeyCode::Down | KeyCode::S => Vector2d::new(0, 1),
            KeyCode::Right | KeyCode::D => Vector2d::new(1, 0),
            KeyCode::Other => self.dir,
        };
    }

    /// Draws one coordinate on the field from the generator.
    fn random_pos(&mut self) -> (r: i32)
        ensures
            r == coord_of(lcg_next(old(self).rng.state())),
            final(self).rng.state() == lcg_next(old(self).rng.state()),
            final(self)@ == (WorldView { rng: final(self).rng.state(), ..old(self)@ }),
    {
        (self.rng.gen() % (FIELD_SIZE as u32)) as i32
    }

    /// Places a fruit off the snake: returns whether a free cell was drawn; the
    /// fruit stays where it was where none was.
    fn create_fruit(&mut self) -> (placed: bool)
        ensures
            ({
                let (f, s) = place(old(self)@.rng, old(self)@.head, old(self)@.body, FRUIT_TRIES as nat);
                &&& placed == f is Some
                &&& final(self)@ == (WorldView {
                    fruit: if placed { f->Some_0 } else { old(self)@.fruit },
                    rng: s,
                    ..old(self)@
                })
            }),
    {
        let mut tries: u64 = FRUIT_TRIES;
        while tries > 0
            invariant
                place(old(self)@.rng, old(self)@.head, old(self)@.body, FRUIT_TRIES as nat)
                    == place(self@.rng, self@.head, self@.body, tries as nat),
                self@ == (WorldView { rng: self@.rng, ..old(self)@ }),
            decreases tries,
        {
            let x = self.random_pos();
            let y = self.random_pos();
            let c = Vector2d::new(x, y);
            if c != self.snake_head && !body_contains(&self.snake_body, c) {
                self.fruit = c;
                return true;
            }
            tries = tries - 1;
        }
        false
    }

    /// Moves every body segment into the place of the one ahead of it, the
    /// first into the head's.
    fn shift_body(&mut self)
        ensures
            final(self)@ == (WorldView { body: shifted(old(self)@.body, old(self)@.head), ..old(self)@ }),
    {
        let n = self.snake_body.len();
        if n > 0 {
            let mut i: usize = n - 1;
            while i > 0
                invariant
                    0 <= i < n,
                    self.snake_body@.len() == n,
                    forall|j: int| 0 <= j <= i ==> self.snake_body@[j] == old(self).snake_body@[j],
                    forall|j: int| i < j < n ==> self.snake_body@[j] == old(self).snake_body@[j - 1],
                    self@ == (WorldView { body: self.snake_body@, ..old(self)@ }),
                decreases i,
            {
                let v = self.snake_body[i - 1];
                self.snake_body.set(i, v);
                i -= 1;
            }
            let h = self.snake_head;
            self.snake_body.set(0, h);
            assert(self.snake_body@ =~= shifted(old(self)@.body, old(self)@.head));
        }
    }

    /// Advances the game one tick; returns whether a redraw is needed and
    /// whether the game is over. Standing still, or after the end, nothing
    /// changes.
    pub fn update(&mut self) -> (r: (bool, bool))
        requires
            old(self).wf(),
        ensures
            (final(self)@, r.0, r.1) == tick(old(self)@),
            final(self).wf(),
    {
        proof {
            lemma_tick_wf(self@);
        }
        if self.over {
            return (false, true);
        }
        if self.dir == Vector2d::new(0, 0) {
            return (false, false);
        }
        self.shift_body();
        let d = self.dir;
        self.snake_head.add_assign(d);
        if self.snake_head == self.fruit {
            let n = self.snake_body.len();
            let last = if n == 0 {
                self.snake_head
            } else {
                self.snake_body[n - 1]
            };
            let tail = last.add(Vector2d::new(-d.x, -d.y));
            self.snake_body.push(tail);
            if !self.create_fruit() {
                self.starved = true;
            }
        }
        let h = self.snake_head;
        if !(0 <= h.x && h.x < FIELD_SIZE) || !(0 <= h.y && h.y < FIELD_SIZE)
            || body_contains(&self.snake_body, h) || self.starved {
            self.over = true;
        }
        (true, self.over)
    }

    /// The cell of the snake's head.
    pub fn head(&self) -> (r: Vector2d)
        ensures
            r == self@.head,
    {
        self.snake_head
    }

    /// The cells of the body, nearest the head first.
    pub fn body(&self) -> (r: &Vec<Vector2d>)
        ensures
            r@ == self@.body,
    {
        &self.snake_body
    }

    /// The cell of the fruit.
    pub fn fruit(&self) -> (r: Vector2d)
        ensures
            r == self@.fruit,
    {
        self.fruit
    }

    /// The current heading.
    pub fn direction(&self) -> (r: Vector2d)
        ensures
            r == self@.dir,
    {
        self.dir
    }

    /// Whether the game has ended.
    pub fn is_over(&self) -> (r: bool)
        ensures
            r == self@.over,
    {
        self.over
    }
}

/// Plays a game from `seed` through `events`, in order.
pub fn replay(seed: u32, events: &Vec<Event>) -> (r: World)
    ensures
        r@ == run(initial(seed), events@),
        r.wf(),
{
    let mut w = World::new(Rng::new(seed));
    let mut i: usize = 0;
    assert(events@.skip(0) =~= events@);
    while i < events.len()
        invariant
            0 <= i <= events@.len(),
            w.wf(),
            run(initial(seed), events@) == run(w@, events@.skip(i as int)),
        decreases events@.len() - i,
    {
        proof {
            lemma_run_skip(w@, events@, i as int);
        }
        let ghost before = w@;
        match events[i] {
            Event::Key(k) => w.input(k),
            Event::Tick => {
                w.update();
            },
        }
        assert(w@ == step(before, events@[i as int]));
        i += 1;
    }
    assert(events@.skip(i as int) =~= Seq::<Event>::empty());
    w
}

} // verus!
