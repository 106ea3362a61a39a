//! The game engine: board coordinates, directions, wall policies and the
//! tick-driven state machine.
use std::collections::VecDeque;
use vstd::prelude::*;

verus! {

/// One of the four directions the snake can travel in.
#[derive(Clone, Copy, PartialEq, Eq, Structural, Debug)]
pub enum Direction {
    UP,
    DOWN,
    LEFT,
    RIGHT,
}

/// A cell of the board. The playing field is `[0, width) x [0, height)`;
/// coordinates outside that range only arise transiently while a move is
/// being resolved against the wall policy.
#[derive(Clone, Copy, PartialEq, Eq, Structural, Debug)]
pub struct ObjectCoordinate {
    pub x: i8,
    pub y: i8,
}

/// Horizontal displacement of one step in direction `d`.
pub open spec fn dir_dx(d: Direction) -> int {
    match d {
        Direction::LEFT => -1,
        Direction::RIGHT => 1,
        _ => 0,
    }
}

/// Vertical displacement of one step in direction `d`.
pub open spec fn dir_dy(d: Direction) -> int {
    match d {
        Direction::UP => -1,
        Direction::DOWN => 1,
        _ => 0,
    }
}

impl ObjectCoordinate {
    /// Moves this coordinate one cell in the given direction.
    pub fn add_direction(self, other: Direction) -> (r: ObjectCoordinate)
        requires
            i8::MIN < self.x < i8::MAX,
            i8::MIN < self.y < i8::MAX,
        ensures
            r.x == self.x + dir_dx(other),
            r.y == self.y + dir_dy(other),
    {
        match other {
            Direction::DOWN => ObjectCoordinate { x: self.x, y: self.y + 1 },
            Direction::UP => ObjectCoordinate { x: self.x, y: self.y - 1 },
            Direction::RIGHT => ObjectCoordinate { x: self.x + 1, y: self.y },
            Direction::LEFT => ObjectCoordinate { x: self.x - 1, y: self.y },
        }
    }
}

/// What happens when the snake tries to cross a board edge.
#[derive(Clone, Copy, Debug, PartialEq, Eq, Structural)]
pub enum WallBehaviour {
    Death,
    Loop,
}

impl Default for WallBehaviour {
    fn default() -> (r: Self)
        ensures
            r == WallBehaviour::Death,
    {
        WallBehaviour::Death
    }
}

impl WallBehaviour {
    /// A human-readable label for this policy.
    pub fn name(&self) -> (r: &'static str)
        ensures
            self is Death ==> r@ == "Death"@,
            self is Loop ==> r@ == "Loop"@,
    {
        match self {
            WallBehaviour::Death => "Death",
            WallBehaviour::Loop => "Loop",
        }
    }
}

/// Board configuration: the wall policy and the board extent
/// (`size[0]` columns by `size[1]` rows).
#[derive(Clone, Copy, Debug)]
pub struct GameSettings {
    pub wall_behaviour: WallBehaviour,
    pub size: [i8; 2],
}

/// A board is usable when both dimensions are positive.
pub open spec fn valid_settings(s: GameSettings) -> bool {
    0 < s.size[0] && 0 < s.size[1]
}

/// Whether `c` lies on the playing field of `s`.
pub open spec fn in_board(c: ObjectCoordinate, s: GameSettings) -> bool {
    0 <= c.x < s.size[0] && 0 <= c.y < s.size[1]
}

impl Default for GameSettings {
    fn default() -> (r: Self)
        ensures
            r.wall_behaviour == WallBehaviour::Death,
            r.size[0] == 32,
            r.size[1] == 32,
            valid_settings(r),
    {
        GameSettings { wall_behaviour: WallBehaviour::Death, size: [32, 32] }
    }
}

/// The state machine: either a live game or a finished one. A finished game
/// only records the final score (the snake's length at death) and the
/// settings it was played under.
#[derive(Clone, Debug)]
pub enum GameState {
    GameOver { score: usize, settings: GameSettings },
    GameState {
        apple: ObjectCoordinate,
        snake: VecDeque<ObjectCoordinate>,
        direction: Direction,
        next_step: Option<u64>,
        settings: GameSettings,
    },
}

/// A direction request coming from the input layer.
#[derive(Clone, Copy, PartialEq, Eq, Structural, Debug)]
pub enum Action {
    UP,
    DOWN,
    LEFT,
    RIGHT,
}

/// The direction that an input action requests.
pub open spec fn action_direction(a: Action) -> Direction {
    match a {
        Action::UP => Direction::UP,
        Action::DOWN => Direction::DOWN,
        Action::LEFT => Direction::LEFT,
        Action::RIGHT => Direction::RIGHT,
    }
}

impl GameState {
    /// Stores a direction request. It takes effect at the next elapsed tick.
    /// A finished game ignores the request.
    pub fn perform(&mut self, action: Action)
        ensures
            match *old(self) {
                GameState::GameState { apple, snake, direction, next_step, settings } =>
                    *final(self) == (GameState::GameState {
                        apple,
                        snake,
                        direction: action_direction(action),
                        next_step,
                        settings,
                    }),
                GameState::GameOver { .. } => *final(self) == *old(self),
            },
            wf(*old(self)) ==> wf(*final(self)),
    {
        if let GameState::GameState { direction, .. } = self {
            match action {
                Action::UP => *direction = Direction::UP,
                Action::DOWN => *direction = Direction::DOWN,
                Action::LEFT => *direction = Direction::LEFT,
                Action::RIGHT => *direction = Direction::RIGHT,
            }
        }
    }
}

/// The largest per-step delay, in milliseconds: the pace of a snake of
/// length zero.
pub const MAX_DELAY_MS: u64 = 250;

/// The number of cells of the board, the length at which the delay formula
/// reaches zero.
pub open spec fn spec_max_length(s: GameSettings) -> int {
    s.size[0] * s.size[1]
}

/// The per-step delay for a snake of length `length`, in milliseconds:
/// a linear ramp from `MAX_DELAY_MS` at length zero down to zero at
/// `spec_max_length`, clamped below at zero.
pub open spec fn spec_delay(length: int, s: GameSettings) -> int {
    let scaled = MAX_DELAY_MS * length / spec_max_length(s);
    if scaled >= MAX_DELAY_MS {
        0
    } else {
        MAX_DELAY_MS - scaled
    }
}

/// The delay shrinks as the snake grows and never becomes negative.
pub proof fn lemma_delay_monotonic(l1: int, l2: int, s: GameSettings)
    requires
        valid_settings(s),
        0 <= l1 <= l2,
    ensures
        spec_delay(l2, s) <= spec_delay(l1, s),
        0 <= spec_delay(l2, s) <= MAX_DELAY_MS,
        0 <= spec_delay(l1, s) <= MAX_DELAY_MS,
{
    let m = spec_max_length(s);
    assert(0 < m) by (nonlinear_arith)
        requires
            0 < s.size[0] && 0 < s.size[1] && m == s.size[0] * s.size[1],
    ;
    assert(MAX_DELAY_MS * l1 <= MAX_DELAY_MS * l2) by (nonlinear_arith)
        requires
            0 <= l1 <= l2,
    ;
    vstd::arithmetic::div_mod::lemma_div_is_ordered(
        MAX_DELAY_MS * l1,
        MAX_DELAY_MS * l2,
        m,
    );
    vstd::arithmetic::div_mod::lemma_div_pos_is_pos(MAX_DELAY_MS * l1, m);
    vstd::arithmetic::div_mod::lemma_div_pos_is_pos(MAX_DELAY_MS * l2, m);
}

/// How long the game waits between steps once the snake has the given
/// length, in milliseconds.
pub fn delay_for_length(length: u32, settings: &GameSettings) -> (r: u64)
    requires
        valid_settings(*settings),
    ensures
        r == spec_delay(length as int, *settings),
        0 <= r <= MAX_DELAY_MS,
{
    let w: u32 = settings.size[0] as u32;
    let h: u32 = settings.size[1] as u32;
    assert(w * h == spec_max_length(*settings) && 0 < w * h <= 16129) by (nonlinear_arith)
        requires
            0 < w <= 127 && 0 < h <= 127 && w == settings.size[0] && h == settings.size[1]
                && spec_max_length(*settings) == settings.size[0] * settings.size[1],
    ;
    let max_length: u32 = w * h;
    let scaled: u64 = MAX_DELAY_MS * (length as u64) / (max_length as u64);
    if scaled >= MAX_DELAY_MS {
        0
    } else {
        MAX_DELAY_MS - scaled
    }
}

/// The head cell that a step from `c` in direction `d` leads to, under the
/// wall policy of `s`: `None` when the Death policy ends the game at the
/// edge, otherwise the (possibly wrapped) coordinate.
pub open spec fn spec_new_position(c: ObjectCoordinate, d: Direction, s: GameSettings) -> Option<
    ObjectCoordinate,
> {
    let nx = c.x + dir_dx(d);
    let ny = c.y + dir_dy(d);
    match s.wall_behaviour {
        WallBehaviour::Death => if 0 <= nx < s.size[0] && 0 <= ny < s.size[1] {
            Some(ObjectCoordinate { x: nx as i8, y: ny as i8 })
        } else {
            None
        },
        WallBehaviour::Loop => Some(
            ObjectCoordinate { x: (nx % (s.size[0] as int)) as i8, y: (ny % (s.size[1] as int)) as i8 },
        ),
    }
}

/// Under the Loop policy every step stays on the board, wherever it started.
pub proof fn lemma_loop_stays_on_board(c: ObjectCoordinate, d: Direction, s: GameSettings)
    requires
        valid_settings(s),
        s.wall_behaviour is Loop,
    ensures
        spec_new_position(c, d, s) matches Some(n) && in_board(n, s),
{
    vstd::arithmetic::div_mod::lemma_mod_bound(c.x + dir_dx(d), s.size[0] as int);
    vstd::arithmetic::div_mod::lemma_mod_bound(c.y + dir_dy(d), s.size[1] as int);
}

/// Resolves one step from `old_pos` in direction `dir` against the wall
/// policy: `None` means the move left the board under the Death policy.
pub fn new_position(old_pos: ObjectCoordinate, dir: Direction, settings: &GameSettings) -> (r:
    Option<ObjectCoordinate>)
    requires
        valid_settings(*settings),
        i8::MIN < old_pos.x < i8::MAX,
        i8::MIN < old_pos.y < i8::MAX,
    ensures
        r == spec_new_position(old_pos, dir, *settings),
{
    let mut obj = old_pos.add_direction(dir);
    let ghost nx = old_pos.x + dir_dx(dir);
    let ghost ny = old_pos.y + dir_dy(dir);
    match settings.wall_behaviour {
        WallBehaviour::Death => {
            if obj.x < 0 || obj.x >= settings.size[0] || obj.y < 0 || obj.y >= settings.size[1] {
                None
            } else {
                Some(obj)
            }
        },
        WallBehaviour::Loop => {
            let w: i8 = settings.size[0];
            let h: i8 = settings.size[1];
            while obj.x < 0
                invariant
                    0 < w <= 127,
                    (obj.x as int) % (w as int) == nx % (w as int),
                    obj.y == ny,
                decreases (if obj.x < 0 { 0 - obj.x } else { 0 }) as int,
            {
                proof {
                    vstd::arithmetic::div_mod::lemma_mod_add_multiples_vanish(
                        obj.x as int,
                        w as int,
                    );
                }
                obj.x = obj.x + w;
            }
            if obj.x >= w {
                proof {
                    vstd::arithmetic::div_mod::lemma_mod_bound(obj.x as int, w as int);
                    vstd::arithmetic::div_mod::lemma_mod_twice(obj.x as int, w as int);
                }
                obj.x = obj.x % w;
            }
            proof {
                vstd::arithmetic::div_mod::lemma_small_mod(obj.x as nat, w as nat);
            }
            assert(obj.x == nx % (w as int));
            while obj.y < 0
                invariant
                    0 < h <= 127,
                    (obj.y as int) % (h as int) == ny % (h as int),
                    obj.x == nx % (w as int),
                decreases (if obj.y < 0 { 0 - obj.y } else { 0 }) as int,
            {
                proof {
                    vstd::arithmetic::div_mod::lemma_mod_add_multiples_vanish(
                        obj.y as int,
                        h as int,
                    );
                }
                obj.y = obj.y + h;
            }
            if obj.y >= h {
                proof {
                    vstd::arithmetic::div_mod::lemma_mod_bound(obj.y as int, h as int);
                    vstd::arithmetic::div_mod::lemma_mod_twice(obj.y as int, h as int);
                }
                obj.y = obj.y % h;
            }
            proof {
                vstd::arithmetic::div_mod::lemma_small_mod(obj.y as nat, h as nat);
            }
            assert(obj.y == ny % (h as int));
            Some(obj)
        },
    }
}

/// The three cells of a fresh snake: stacked vertically at the board
/// center, head on top.
pub open spec fn spec_new_snake(s: GameSettings) -> Seq<ObjectCoordinate> {
    seq![
        ObjectCoordinate { x: (s.size[0] / 2) as i8, y: (s.size[1] / 2) as i8 },
        ObjectCoordinate { x: (s.size[0] / 2) as i8, y: (s.size[1] / 2 + 1) as i8 },
        ObjectCoordinate { x: (s.size[0] / 2) as i8, y: (s.size[1] / 2 + 2) as i8 },
    ]
}

/// On a board of at least five rows a fresh snake lies on the board and
/// occupies three distinct cells.
pub proof fn lemma_new_snake_wf(s: GameSettings)
    requires
        0 < s.size[0],
        5 <= s.size[1],
    ensures
        spec_new_snake(s).len() == 3,
        spec_new_snake(s).no_duplicates(),
        forall|i: int| 0 <= i < 3 ==> in_board(#[trigger] spec_new_snake(s)[i], s),
{
    let sn = spec_new_snake(s);
    assert(sn[0].y != sn[1].y && sn[0].y != sn[2].y && sn[1].y != sn[2].y);
    assert(forall|i: int| 0 <= i < 3 ==> in_board(#[trigger] sn[i], s)) by {
        assert(0 <= s.size[0] / 2 < s.size[0]);
        assert(0 <= s.size[1] / 2 && s.size[1] / 2 + 2 < s.size[1]);
    }
}

/// Builds the initial snake for the given board.
pub fn new_snake(settings: &GameSettings) -> (r: VecDeque<ObjectCoordinate>)
    requires
        valid_settings(*settings),
    ensures
        r@ == spec_new_snake(*settings),
{
    let cx: i8 = settings.size[0] / 2;
    let cy: i8 = settings.size[1] / 2;
    let mut snake: VecDeque<ObjectCoordinate> = VecDeque::new();
    snake.push_back(ObjectCoordinate { x: cx, y: cy });
    snake.push_back(ObjectCoordinate { x: cx, y: cy + 1 });
    snake.push_back(ObjectCoordinate { x: cx, y: cy + 2 });
    proof {
        assert(snake@ =~= spec_new_snake(*settings));
    }
    snake
}

/// Relies on rand::random_range: it draws a value uniformly from the given
/// range and panics only when the range is empty, which `0 < bound` rules
/// out.
#[verifier::external_body]
fn random_below(bound: i8) -> (r: i8)
    requires
        0 < bound,
    ensures
        0 <= r < bound,
{
    rand::random_range(0..bound)
}

/// Samples a board cell uniformly at random, paying no attention to the
/// snake.
pub fn generate_apple(settings: &GameSettings) -> (r: ObjectCoordinate)
    requires
        valid_settings(*settings),
    ensures
        in_board(r, *settings),
{
    let x: i8 = random_below(settings.size[0]);
    let y: i8 = random_below(settings.size[1]);
    ObjectCoordinate { x, y }
}

/// Whether any segment of `snake` occupies the cell `c`.
pub fn snake_contains(snake: &VecDeque<ObjectCoordinate>, c: ObjectCoordinate) -> (r: bool)
    ensures
        r == snake@.contains(c),
{
    let mut i: usize = 0;
    while i < snake.len()
        invariant
            0 <= i <= snake@.len(),
            forall|j: int| 0 <= j < i ==> snake@[j] != c,
        decreases snake@.len() - i,
    {
        if snake[i] == c {
            return true;
        }
        i = i + 1;
    }
    false
}

/// Picks a board cell that no snake segment occupies: first by sampling at
/// random, then, should that keep hitting the snake, by scanning the board
/// in row order. `None` means every cell of the board is occupied.
pub fn sample_free_cell(settings: &GameSettings, snake: &VecDeque<ObjectCoordinate>) -> (r: Option<
    ObjectCoordinate,
>)
    requires
        valid_settings(*settings),
    ensures
        match r {
            Some(c) => in_board(c, *settings) && !snake@.contains(c),
            None => forall|c: ObjectCoordinate| in_board(c, *settings) ==> snake@.contains(c),
        },
{
    let mut tries: u8 = 0;
    while tries < 64
        invariant
            valid_settings(*settings),
        decreases 64 - tries,
    {
        let c = generate_apple(settings);
        if !snake_contains(snake, c) {
            return Some(c);
        }
        tries = tries + 1;
    }
    let w: i8 = settings.size[0];
    let h: i8 = settings.size[1];
    let mut y: i8 = 0;
    while y < h
        invariant
            0 <= y <= h,
            0 < w == settings.size[0],
            0 < h == settings.size[1],
            forall|c: ObjectCoordinate| (0 <= c.x < w && 0 <= c.y < y) ==> snake@.contains(c),
        decreases h - y,
    {
        let mut x: i8 = 0;
        while x < w
            invariant
                0 <= x <= w,
                0 <= y < h,
                0 < w == settings.size[0],
                0 < h == settings.size[1],
                forall|c: ObjectCoordinate| (0 <= c.x < w && 0 <= c.y < y) ==> snake@.contains(c),
                forall|c: ObjectCoordinate| (0 <= c.x < x && c.y == y) ==> snake@.contains(c),
            decreases w - x,
        {
            let cell = ObjectCoordinate { x, y };
            if !snake_contains(snake, cell) {
                return Some(cell);
            }
            x = x + 1;
        }
        y = y + 1;
    }
    None
}

/// The cells of the first `k` columns of a board `h` rows tall.
spec fn cells_before_column(k: int, h: int) -> Set<ObjectCoordinate> {
    Set::new(|c: ObjectCoordinate| 0 <= c.x < k && 0 <= c.y < h)
}

/// The first `k` cells of the column `x`.
spec fn column_cells(x: int, k: int) -> Set<ObjectCoordinate> {
    Set::new(|c: ObjectCoordinate| c.x == x && 0 <= c.y < k)
}

proof fn lemma_column_cells_len(x: int, k: int)
    requires
        -128 <= x <= 127,
        0 <= k <= 128,
    ensures
        column_cells(x, k).finite(),
        column_cells(x, k).len() == k,
    decreases k,
{
    broadcast use vstd::set::group_set_axioms;

    if k == 0 {
        assert(column_cells(x, 0) =~= Set::empty());
    } else {
        lemma_column_cells_len(x, k - 1);
        let c = ObjectCoordinate { x: x as i8, y: (k - 1) as i8 };
        assert(!column_cells(x, k - 1).contains(c));
        assert(column_cells(x, k) =~= column_cells(x, k - 1).insert(c));
    }
}

proof fn lemma_cells_before_column_len(k: int, h: int)
    requires
        0 <= k <= 128,
        0 <= h <= 128,
    ensures
        cells_before_column(k, h).finite(),
        cells_before_column(k, h).len() == k * h,
    decreases k,
{
    broadcast use vstd::set::group_set_axioms;

    if k == 0 {
        assert(cells_before_column(0, h) =~= Set::empty());
        assert(0 * h == 0) by (nonlinear_arith);
    } else {
        lemma_cells_before_column_len(k - 1, h);
        lemma_column_cells_len(k - 1, h);
        assert(cells_before_column(k, h) =~= cells_before_column(k - 1, h) + column_cells(
            k - 1,
            h,
        ));
        assert(cells_before_column(k - 1, h).disjoint(column_cells(k - 1, h)));
        vstd::set_lib::lemma_set_disjoint_lens(
            cells_before_column(k - 1, h),
            column_cells(k - 1, h),
        );
        assert((k - 1) * h + h == k * h) by (nonlinear_arith);
    }
}

/// Distinct cells that all lie on one board cannot outnumber its cells:
/// in particular the snake never grows past `width * height`.
pub proof fn lemma_snake_fits_board(snake: Seq<ObjectCoordinate>, s: GameSettings)
    requires
        valid_settings(s),
        snake.no_duplicates(),
        forall|i: int| 0 <= i < snake.len() ==> in_board(#[trigger] snake[i], s),
    ensures
        snake.len() <= spec_max_length(s),
        spec_max_length(s) <= 16129,
{
    broadcast use vstd::set::group_set_axioms;

    let w = s.size[0] as int;
    let h = s.size[1] as int;
    snake.unique_seq_to_set();
    lemma_cells_before_column_len(w, h);
    assert forall|c: ObjectCoordinate|
        snake.to_set().contains(c) implies cells_before_column(w, h).contains(c) by {
        let i = choose|i: int| 0 <= i < snake.len() && snake[i] == c;
        assert(in_board(snake[i], s));
    }
    vstd::set_lib::lemma_len_subset(snake.to_set(), cells_before_column(w, h));
    assert(spec_max_length(s) <= 16129) by (nonlinear_arith)
        requires
            0 < s.size[0] <= 127 && 0 < s.size[1] <= 127 && spec_max_length(s) == s.size[0]
                * s.size[1],
    ;
}

/// The engine's invariant on a live game: a usable board, a non-empty
/// snake of distinct on-board cells, and an apple on a free on-board cell.
pub open spec fn wf_active(
    apple: ObjectCoordinate,
    snake: Seq<ObjectCoordinate>,
    s: GameSettings,
) -> bool {
    &&& valid_settings(s)
    &&& snake.len() >= 1
    &&& snake.no_duplicates()
    &&& (forall|i: int| 0 <= i < snake.len() ==> in_board(#[trigger] snake[i], s))
    &&& in_board(apple, s)
    &&& !snake.contains(apple)
}

/// Every state the engine hands out satisfies this: a live game is well
/// formed, and a finished one still carries a usable board.
pub open spec fn wf(g: GameState) -> bool {
    match g {
        GameState::GameOver { score, settings } => valid_settings(settings),
        GameState::GameState { apple, snake, direction, next_step, settings } => wf_active(
            apple,
            snake@,
            settings,
        ),
    }
}

/// The outcome of one discrete step taken from a live game whose deadline
/// has elapsed at `now`. Everything except the freshly sampled apple is a
/// function of the pre-state: a head that leaves the board (Death policy)
/// or lands on the snake ends the game with the pre-move length as score;
/// otherwise the head advances, and eating the apple grows the snake by
/// one while a plain move keeps its length. A board left with no free cell
/// after eating also ends the game, with the grown length as score.
pub open spec fn step_rel(
    apple: ObjectCoordinate,
    snake: Seq<ObjectCoordinate>,
    direction: Direction,
    settings: GameSettings,
    now: u64,
    post: GameState,
) -> bool {
    match spec_new_position(snake[0], direction, settings) {
        None => post == (GameState::GameOver { score: snake.len() as usize, settings }),
        Some(nh) => {
            if snake.contains(nh) {
                post == (GameState::GameOver { score: snake.len() as usize, settings })
            } else if nh == apple {
                match post {
                    GameState::GameState {
                        apple: a2,
                        snake: s2,
                        direction: d2,
                        next_step: n2,
                        settings: st2,
                    } => {
                        &&& s2@ == seq![nh] + snake
                        &&& d2 == direction
                        &&& st2 == settings
                        &&& n2 == Some((now + spec_delay(snake.len() as int + 1, settings)) as u64)
                        &&& in_board(a2, settings)
                        &&& !s2@.contains(a2)
                    },
                    GameState::GameOver { score: sc2, settings: st2 } => {
                        &&& sc2 == snake.len() + 1
                        &&& st2 == settings
                        &&& (forall|c: ObjectCoordinate|
                            in_board(c, settings) ==> (seq![nh] + snake).contains(c))
                    },
                }
            } else {
                match post {
                    GameState::GameState {
                        apple: a2,
                        snake: s2,
                        direction: d2,
                        next_step: n2,
                        settings: st2,
                    } => {
                        &&& a2 == apple
                        &&& s2@ == seq![nh] + snake.take(snake.len() - 1)
                        &&& d2 == direction
                        &&& st2 == settings
                        &&& n2 == Some((now + spec_delay(snake.len() as int, settings)) as u64)
                    },
                    _ => false,
                }
            }
        },
    }
}

/// How `step_time` relates the state after the call to the state before
/// it: a finished game and a not-yet-due tick change nothing; a game
/// without a deadline gets one primed from the current delay; a game whose
/// deadline has elapsed takes one step (`step_rel`).
pub open spec fn tick_rel(pre: GameState, post: GameState, now: u64) -> bool {
    match pre {
        GameState::GameOver { .. } => post == pre,
        GameState::GameState { apple, snake, direction, next_step, settings } => {
            match next_step {
                None => post == (GameState::GameState {
                    apple,
                    snake,
                    direction,
                    next_step: Some((now + spec_delay(snake@.len() as int, settings)) as u64),
                    settings,
                }),
                Some(deadline) => if now < deadline {
                    post == pre
                } else {
                    step_rel(apple, snake@, direction, settings, now, post)
                },
            }
        },
    }
}

impl GameState {
    /// Starts a fresh game: a three-segment snake at the board center, an
    /// apple on a free cell, direction up, and no step deadline yet. The
    /// board must be tall enough to hold the starting snake.
    pub fn new(settings: GameSettings) -> (r: GameState)
        requires
            0 < settings.size[0],
            5 <= settings.size[1],
        ensures
            (match r {
                GameState::GameState { apple, snake, direction, next_step, settings: st } => {
                    &&& snake@ == spec_new_snake(settings)
                    &&& direction == Direction::UP
                    &&& next_step is None
                    &&& st == settings
                    &&& in_board(apple, settings)
                    &&& !snake@.contains(apple)
                },
                GameState::GameOver { .. } => false,
            }),
            wf(r),
    {
        let snake = new_snake(&settings);
        proof {
            lemma_new_snake_wf(settings);
        }
        match sample_free_cell(&settings, &snake) {
            Some(apple) => GameState::GameState {
                apple,
                snake,
                direction: Direction::UP,
                next_step: None,
                settings,
            },
            None => {
                proof {
                    broadcast use vstd::set::group_set_axioms;

                    let w = settings.size[0] as int;
                    let h = settings.size[1] as int;
                    snake@.unique_seq_to_set();
                    lemma_cells_before_column_len(w, h);
                    assert forall|c: ObjectCoordinate|
                        cells_before_column(w, h).contains(c) implies snake@.to_set().contains(
                        c,
                    ) by {
                        assert(in_board(c, settings));
                    }
                    vstd::set_lib::lemma_len_subset(
                        cells_before_column(w, h),
                        snake@.to_set(),
                    );
                    assert(w * h >= 5) by (nonlinear_arith)
                        requires
                            w >= 1 && h >= 5,
                    ;
                    assert(false);
                }
                vstd::pervasive::unreached()
            },
        }
    }

    /// Advances the clock to `now`. A game without a deadline gets one
    /// primed; one whose deadline has not elapsed is left untouched; one
    /// whose deadline has elapsed takes one discrete step. A finished game
    /// ignores the call.
    pub fn step_time(&mut self, now: u64)
        requires
            wf(*old(self)),
            now <= u64::MAX - MAX_DELAY_MS,
        ensures
            tick_rel(*old(self), *final(self), now),
            wf(*final(self)),
    {
        match self {
            GameState::GameOver { .. } => {},
            GameState::GameState { apple, snake, direction, next_step, settings } => {
                let st: GameSettings = *settings;
                match *next_step {
                    None => {
                        proof {
                            lemma_snake_fits_board(snake@, st);
                        }
                        let d: u64 = delay_for_length(snake.len() as u32, &st);
                        *next_step = Some(now + d);
                    },
                    Some(deadline) => {
                        if now >= deadline {
                            let head: ObjectCoordinate = snake[0];
                            match new_position(head, *direction, &st) {
                                None => {
                                    let sc: usize = snake.len();
                                    *self = GameState::GameOver { score: sc, settings: st };
                                },
                                Some(nh) => {
                                    proof {
                                        if st.wall_behaviour is Loop {
                                            lemma_loop_stays_on_board(head, *direction, st);
                                        }
                                    }
                                    if snake_contains(snake, nh) {
                                        let sc: usize = snake.len();
                                        *self = GameState::GameOver { score: sc, settings: st };
                                    } else {
                                        let ghost snake0 = snake@;
                                        snake.push_front(nh);
                                        if *apple == nh {
                                            match sample_free_cell(&st, snake) {
                                                Some(a) => {
                                                    *apple = a;
                                                },
                                                None => {
                                                    let sc: usize = snake.len();
                                                    *self = GameState::GameOver {
                                                        score: sc,
                                                        settings: st,
                                                    };
                                                    return;
                                                },
                                            }
                                        } else {
                                            let _ = snake.pop_back();
                                            proof {
                                                assert(snake@ =~= seq![nh] + snake0.take(
                                                    snake0.len() - 1,
                                                ));
                                            }
                                        }
                                        proof {
                                            lemma_snake_fits_board(snake@, st);
                                        }
                                        let d: u64 = delay_for_length(snake.len() as u32, &st);
                                        *next_step = Some(now + d);
                                    }
                                },
                            }
                        }
                    },
                }
            },
        }
    }
}

/// The number of snake segments a state holds; a finished game holds
/// none.
pub open spec fn spec_snake_len(g: GameState) -> int {
    match g {
        GameState::GameOver { .. } => 0,
        GameState::GameState { snake, .. } => snake@.len() as int,
    }
}

/// Under the Death policy a step whose new head would leave the board
/// ends the game, with the pre-move length as the score.
pub proof fn lemma_death_outside_board(
    apple: ObjectCoordinate,
    snake: Seq<ObjectCoordinate>,
    direction: Direction,
    settings: GameSettings,
    now: u64,
    post: GameState,
)
    requires
        step_rel(apple, snake, direction, settings, now, post),
        settings.wall_behaviour is Death,
        !(0 <= snake[0].x + dir_dx(direction) < settings.size[0] && 0 <= snake[0].y + dir_dy(
            direction,
        ) < settings.size[1]),
    ensures
        post == (GameState::GameOver { score: snake.len() as usize, settings }),
{
}

/// A step that leaves the game live grows the snake by exactly one when
/// the head lands on the apple, and keeps its length otherwise.
pub proof fn lemma_step_length(
    apple: ObjectCoordinate,
    snake: Seq<ObjectCoordinate>,
    direction: Direction,
    settings: GameSettings,
    now: u64,
    post: GameState,
)
    requires
        step_rel(apple, snake, direction, settings, now, post),
        snake.len() >= 1,
        post is GameState,
    ensures
        spec_new_position(snake[0], direction, settings) matches Some(nh) ==> spec_snake_len(post)
            == if nh == apple {
            snake.len() as int + 1
        } else {
            snake.len() as int
        },
{
}

/// A tick whose deadline has not yet elapsed changes nothing, so a second
/// tick with the same clock reading leaves the state unchanged as well.
pub proof fn lemma_tick_idempotent(pre: GameState, mid: GameState, post: GameState, now: u64)
    requires
        tick_rel(pre, mid, now),
        tick_rel(mid, post, now),
        pre matches GameState::GameState { next_step: Some(deadline), .. } && now < deadline,
    ensures
        mid == pre,
        post == pre,
{
}

} // verus!
