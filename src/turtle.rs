//! The turtle interpreter.
//!
//! The turtle walks a symbol sequence from left to right. Each symbol performs
//! the actions bound to it; a symbol with no binding does nothing. The walk
//! is recorded without any geometry: the turtle's heading is the number of
//! net turns it has made to the left since the start, and every point it
//! reaches is recorded as one step from an earlier point along such a
//! heading. A renderer turns this into coordinates once it knows the start
//! position, start heading, step length and turn angle.
use vstd::prelude::*;
use crate::error::LSystemError;

verus! {

/// What a symbol makes the turtle do.
#[derive(Debug, Clone, Copy, PartialEq, Eq, Structural)]
pub enum TurtleAction {
    /// Draw a line one step forward and move to its end.
    DrawForward,
    /// Move one step forward without drawing.
    MoveForward,
    /// Draw a line one step forward, move to its end and mark that point.
    DrawForwardWithMarker,
    /// Turn left by the turn angle.
    TurnLeft,
    /// Turn right by the turn angle.
    TurnRight,
    /// Save the current point and heading.
    PushState,
    /// Return to the most recently saved point and heading, dropping it.
    PopState,
    /// Do nothing.
    Ignore,
}

/// Where the turtle stands and where it faces: the index of a recorded point
/// and the number of net left turns since the start.
#[derive(Debug, Clone, Copy, PartialEq, Eq, Structural)]
pub struct TurtleState {
    pub point: usize,
    pub turns: i64,
}

/// A recorded point: one step away from point `from` along the heading of
/// `turns` net left turns. Point 0 is the start position; its own entry is
/// `from: 0, turns: 0` and describes no step.
#[derive(Debug, Clone, Copy, PartialEq, Eq, Structural)]
pub struct PathPoint {
    pub from: usize,
    pub turns: i64,
}

/// What the renderer draws, in terms of recorded points.
#[derive(Debug, Clone, Copy, PartialEq, Eq, Structural)]
pub enum DrawPrimitive {
    Line { start: usize, end: usize },
    Point { at: usize },
}

/// The result of a walk: the recorded points, and the primitives in the
/// order in which the symbols that caused them were met.
#[derive(Debug, Clone)]
pub struct TurtleDrawing {
    pub points: Vec<PathPoint>,
    pub primitives: Vec<DrawPrimitive>,
}

/// The state of a walk in progress: the turtle, the saved states (the last
/// one on top), the points recorded and the primitives emitted.
pub struct Walk {
    pub state: TurtleState,
    pub saved: Seq<TurtleState>,
    pub points: Seq<PathPoint>,
    pub primitives: Seq<DrawPrimitive>,
}

/// The walk before any symbol: at the start point, facing the start
/// heading, with nothing saved or drawn.
pub open spec fn initial_walk() -> Walk {
    Walk {
        state: TurtleState { point: 0, turns: 0 },
        saved: Seq::empty(),
        points: seq![PathPoint { from: 0, turns: 0 }],
        primitives: Seq::empty(),
    }
}

/// The turtle after one step forward: a new point is recorded and the
/// turtle stands on it.
pub open spec fn stepped(w: Walk) -> Walk {
    Walk {
        state: TurtleState { point: w.points.len() as usize, turns: w.state.turns },
        saved: w.saved,
        points: w.points.push(PathPoint { from: w.state.point, turns: w.state.turns }),
        primitives: w.primitives,
    }
}

/// The turtle facing `turns` net left turns, all else unchanged.
pub open spec fn facing(w: Walk, turns: int) -> Walk {
    Walk {
        state: TurtleState { point: w.state.point, turns: turns as i64 },
        saved: w.saved,
        points: w.points,
        primitives: w.primitives,
    }
}

/// The walk after one action, or `None` where the action restores a saved
/// state while none is saved.
pub open spec fn act(w: Walk, a: TurtleAction) -> Option<Walk> {
    match a {
        TurtleAction::DrawForward => {
            let n = stepped(w);
            Some(
                Walk {
                    primitives: w.primitives.push(
                        DrawPrimitive::Line { start: w.state.point, end: n.state.point },
                    ),
                    ..n
                },
            )
        },
        TurtleAction::MoveForward => Some(stepped(w)),
        TurtleAction::DrawForwardWithMarker => {
            let n = stepped(w);
            Some(
                Walk {
                    primitives: w.primitives.push(
                        DrawPrimitive::Line { start: w.state.point, end: n.state.point },
                    ).push(DrawPrimitive::Point { at: n.state.point }),
                    ..n
                },
            )
        },
        TurtleAction::TurnLeft => Some(facing(w, w.state.turns + 1)),
        TurtleAction::TurnRight => Some(facing(w, w.state.turns - 1)),
        TurtleAction::PushState => Some(Walk { saved: w.saved.push(w.state), ..w }),
        TurtleAction::PopState => if w.saved.len() == 0 {
            None
        } else {
            Some(Walk { state: w.saved.last(), saved: w.saved.drop_last(), ..w })
        },
        TurtleAction::Ignore => Some(w),
    }
}

/// The walk after symbol `c` performs, in order, the actions of the entries
/// of `bindings` that name it.
pub open spec fn perform_symbol(w: Walk, bindings: Seq<(char, TurtleAction)>, c: char) -> Option<Walk>
    decreases bindings.len(),
{
    if bindings.len() == 0 {
        Some(w)
    } else {
        match perform_symbol(w, bindings.drop_last(), c) {
            None => None,
            Some(v) => if bindings.last().0 == c {
                act(v, bindings.last().1)
            } else {
                Some(v)
            },
        }
    }
}

/// The walk over the whole sequence `s`, or `None` where some symbol
/// restores a saved state while none is saved.
pub open spec fn run(s: Seq<char>, bindings: Seq<(char, TurtleAction)>) -> Option<Walk>
    decreases s.len(),
{
    if s.len() == 0 {
        Some(initial_walk())
    } else {
        match run(s.drop_last(), bindings) {
            None => None,
            Some(w) => perform_symbol(w, bindings, s.last()),
        }
    }
}

/// Once a symbol gets stuck on a prefix of its bindings, it is stuck on all
/// of them.
pub proof fn lemma_perform_symbol_stuck(w: Walk, bindings: Seq<(char, TurtleAction)>, c: char, j: int)
    requires
        0 <= j <= bindings.len(),
        perform_symbol(w, bindings.take(j), c) is None,
    ensures
        perform_symbol(w, bindings, c) is None,
    decreases bindings.len(),
{
    if j == bindings.len() {
        assert(bindings.take(j) =~= bindings);
    } else {
        assert(bindings.drop_last().take(j) =~= bindings.take(j));
        lemma_perform_symbol_stuck(w, bindings.drop_last(), c, j);
    }
}

/// Once a walk gets stuck on a prefix of a sequence, it is stuck on the
/// whole sequence.
pub proof fn lemma_run_stuck(s: Seq<char>, bindings: Seq<(char, TurtleAction)>, p: int)
    requires
        0 <= p <= s.len(),
        run(s.take(p), bindings) is None,
    ensures
        run(s, bindings) is None,
    decreases s.len(),
{
    if p == s.len() {
        assert(s.take(p) =~= s);
    } else {
        assert(s.drop_last().take(p) =~= s.take(p));
        lemma_run_stuck(s.drop_last(), bindings, p);
    }
}

proof fn lemma_action_count(i: int, j: int, n: int, m: int)
    requires
        0 <= i < n,
        0 <= j < m,
    ensures
        i * m + j + 1 <= n * m,
{
    assert(i * m + m <= n * m) by (nonlinear_arith)
        requires
            i < n,
            0 <= m,
    ;
}

/// The turtle during a walk, with what it has recorded so far.
struct Turtle {
    state: TurtleState,
    saved: Vec<TurtleState>,
    points: Vec<PathPoint>,
    primitives: Vec<DrawPrimitive>,
}

impl Turtle {
    spec fn walk(&self) -> Walk {
        Walk {
            state: self.state,
            saved: self.saved@,
            points: self.points@,
            primitives: self.primitives@,
        }
    }

    /// Every heading the turtle holds, its own and the saved ones, is within
    /// `bound` turns of the start heading.
    spec fn within(&self, bound: int) -> bool {
        &&& -bound <= self.state.turns <= bound
        &&& forall|k: int|
            0 <= k < self.saved@.len() ==> -bound <= #[trigger] self.saved@[k].turns <= bound
    }

    fn new() -> (t: Self)
        ensures
            t.walk() == initial_walk(),
            t.within(0),
    {
        let mut points: Vec<PathPoint> = Vec::new();
        points.push(PathPoint { from: 0, turns: 0 });
        let t = Turtle {
            state: TurtleState { point: 0, turns: 0 },
            saved: Vec::new(),
            points,
            primitives: Vec::new(),
        };
        assert(t.walk().points =~= initial_walk().points);
        assert(t.walk().saved =~= initial_walk().saved);
        assert(t.walk().primitives =~= initial_walk().primitives);
        t
    }

    /// Records a point one step ahead and moves the turtle onto it.
    fn step(&mut self) -> (p: usize)
        ensures
            final(self).walk() == stepped(old(self).walk()),
            p == old(self).points@.len(),
            final(self).saved == old(self).saved,
            final(self).state.turns == old(self).state.turns,
    {
        let p = self.points.len();
        self.points.push(PathPoint { from: self.state.point, turns: self.state.turns });
        self.state = TurtleState { point: p, turns: self.state.turns };
        p
    }

    /// Performs one action; `false` where it restores a saved state while
    /// none is saved.
    fn perform(&mut self, a: TurtleAction, Ghost(bound): Ghost<int>) -> (ok: bool)
        requires
            0 <= bound < i64::MAX,
            old(self).within(bound),
        ensures
            ok == act(old(self).walk(), a) is Some,
            ok ==> act(old(self).walk(), a) == Some(final(self).walk()),
            final(self).within(bound + 1),
    {
        match a {
            TurtleAction::DrawForward => {
                let start = self.state.point;
                let end = self.step();
                self.primitives.push(DrawPrimitive::Line { start, end });
                true
            },
            TurtleAction::MoveForward => {
                self.step();
                true
            },
            TurtleAction::DrawForwardWithMarker => {
                let start = self.state.point;
                let end = self.step();
                self.primitives.push(DrawPrimitive::Line { start, end });
                self.primitives.push(DrawPrimitive::Point { at: end });
                true
            },
            TurtleAction::TurnLeft => {
                self.state = TurtleState { point: self.state.point, turns: self.state.turns + 1 };
                true
            },
            TurtleAction::TurnRight => {
                self.state = TurtleState { point: self.state.point, turns: self.state.turns - 1 };
                true
            },
            TurtleAction::PushState => {
                self.saved.push(self.state);
                true
            },
            TurtleAction::PopState => {
                match self.saved.pop() {
                    Some(s) => {
                        self.state = s;
                        true
                    },
                    None => false,
                }
            },
            TurtleAction::Ignore => true,
        }
    }
}

/// Walks `sequence` with the turtle, each symbol performing the actions of
/// the entries of `bindings` that name it, in their order there. The walk
/// fails at the first symbol that restores a saved state while none is
/// saved, and that symbol's position is reported.
///
/// The bound on the lengths keeps every heading, counted in turns, within
/// an `i64`; no sequence and binding list that fit in memory come near it.
pub fn interpret(sequence: &Vec<char>, bindings: &Vec<(char, TurtleAction)>) -> (r: Result<
    TurtleDrawing,
    LSystemError,
>)
    requires
        sequence@.len() * bindings@.len() < i64::MAX,
    ensures
        r is Ok <==> run(sequence@, bindings@) is Some,
        match r {
            Ok(d) => run(sequence@, bindings@) matches Some(w) && d.points@ == w.points
                && d.primitives@ == w.primitives,
            Err(e) => e matches LSystemError::UnbalancedBranch { position } && position
                < sequence@.len() && run(sequence@.take(position as int), bindings@) is Some
                && run(sequence@.take(position + 1), bindings@) is None,
        },
{
    let mut turtle = Turtle::new();
    assert(sequence@.take(0) =~= Seq::<char>::empty());
    let mut i: usize = 0;
    while i < sequence.len()
        invariant
            i <= sequence@.len(),
            sequence@.len() * bindings@.len() < i64::MAX,
            run(sequence@.take(i as int), bindings@) == Some(turtle.walk()),
            turtle.within(i * bindings@.len()),
        decreases sequence.len() - i,
    {
        let c = sequence[i];
        let ghost before = turtle.walk();
        assert(bindings@.take(0) =~= Seq::<(char, TurtleAction)>::empty());
        let mut j: usize = 0;
        while j < bindings.len()
            invariant
                i < sequence@.len(),
                j <= bindings@.len(),
                c == sequence@[i as int],
                sequence@.len() * bindings@.len() < i64::MAX,
                run(sequence@.take(i as int), bindings@) == Some(before),
                perform_symbol(before, bindings@.take(j as int), c) == Some(turtle.walk()),
                turtle.within(i * bindings@.len() + j),
            decreases bindings.len() - j,
        {
            proof {
                lemma_action_count(i as int, j as int, sequence@.len() as int, bindings@.len() as int);
            }
            assert(bindings@.take(j + 1).drop_last() =~= bindings@.take(j as int));
            let (symbol, action) = bindings[j];
            if symbol == c {
                let ok = turtle.perform(action, Ghost(i * bindings@.len() + j));
                if !ok {
                    proof {
                        lemma_perform_symbol_stuck(before, bindings@, c, j + 1);
                        assert(sequence@.take(i + 1).drop_last() =~= sequence@.take(i as int));
                        lemma_run_stuck(sequence@, bindings@, i + 1);
                    }
                    return Err(LSystemError::UnbalancedBranch { position: i });
                }
            }
            j += 1;
        }
        assert(bindings@.take(j as int) =~= bindings@);
        assert(sequence@.take(i + 1).drop_last() =~= sequence@.take(i as int));
        assert((i + 1) * bindings@.len() == i * bindings@.len() + bindings@.len())
            by (nonlinear_arith);
        i += 1;
    }
    assert(sequence@.take(i as int) =~= sequence@);
    Ok(TurtleDrawing { points: turtle.points, primitives: turtle.primitives })
}

/// `bindings` has exactly one entry that names `c`, and it binds `a`.
pub open spec fn binds_only(bindings: Seq<(char, TurtleAction)>, c: char, a: TurtleAction) -> bool {
    exists|k: int|
        0 <= k < bindings.len() && #[trigger] bindings[k] == (c, a) && forall|l: int|
            0 <= l < bindings.len() && l != k ==> (#[trigger] bindings[l]).0 != c
}

proof fn lemma_perform_unbound(w: Walk, bindings: Seq<(char, TurtleAction)>, c: char)
    requires
        forall|l: int| 0 <= l < bindings.len() ==> (#[trigger] bindings[l]).0 != c,
    ensures
        perform_symbol(w, bindings, c) == Some(w),
    decreases bindings.len(),
{
    if bindings.len() > 0 {
        let rest = bindings.drop_last();
        assert forall|l: int| 0 <= l < rest.len() implies (#[trigger] rest[l]).0 != c by {
            assert(rest[l] == bindings[l]);
        }
        lemma_perform_unbound(w, rest, c);
        assert(bindings[bindings.len() - 1].0 != c);
    }
}

proof fn lemma_perform_single(
    w: Walk,
    bindings: Seq<(char, TurtleAction)>,
    c: char,
    a: TurtleAction,
    k: int,
)
    requires
        0 <= k < bindings.len(),
        bindings[k] == (c, a),
        forall|l: int| 0 <= l < bindings.len() && l != k ==> (#[trigger] bindings[l]).0 != c,
    ensures
        perform_symbol(w, bindings, c) == act(w, a),
    decreases bindings.len(),
{
    let rest = bindings.drop_last();
    if k == bindings.len() - 1 {
        assert forall|l: int| 0 <= l < rest.len() implies (#[trigger] rest[l]).0 != c by {
            assert(rest[l] == bindings[l]);
        }
        lemma_perform_unbound(w, rest, c);
    } else {
        assert forall|l: int| 0 <= l < rest.len() && l != k implies (#[trigger] rest[l]).0 != c by {
            assert(rest[l] == bindings[l]);
        }
        assert(rest[k] == bindings[k]);
        lemma_perform_single(w, rest, c, a, k);
        assert(bindings[bindings.len() - 1].0 != c);
    }
}

/// Saving the turtle's state and restoring it straight away leaves the
/// turtle where it stood, facing as it faced, with the rest of the walk as
/// it was.
pub proof fn lemma_push_pop_round_trip(w: Walk)
    ensures
        act(w, TurtleAction::PushState) matches Some(v) && act(v, TurtleAction::PopState) == Some(
            w,
        ),
{
    assert(w.saved.push(w.state).drop_last() =~= w.saved);
}

/// A symbol bound only to saving, directly followed by a symbol bound only
/// to restoring, leaves the walk as it was before them.
pub proof fn lemma_save_restore_symbols(
    s: Seq<char>,
    bindings: Seq<(char, TurtleAction)>,
    open: char,
    close: char,
)
    requires
        binds_only(bindings, open, TurtleAction::PushState),
        binds_only(bindings, close, TurtleAction::PopState),
    ensures
        run(s.push(open).push(close), bindings) == run(s, bindings),
{
    let k1 = choose|k: int|
        0 <= k < bindings.len() && #[trigger] bindings[k] == (open, TurtleAction::PushState)
            && forall|l: int| 0 <= l < bindings.len() && l != k ==> (#[trigger] bindings[l]).0 != open;
    let k2 = choose|k: int|
        0 <= k < bindings.len() && #[trigger] bindings[k] == (close, TurtleAction::PopState)
            && forall|l: int| 0 <= l < bindings.len() && l != k ==> (#[trigger] bindings[l]).0 != close;
    let s1 = s.push(open);
    let s2 = s1.push(close);
    assert(s2.drop_last() =~= s1);
    assert(s1.drop_last() =~= s);
    assert(s1.last() == open);
    assert(s2.last() == close);
    if let Some(w) = run(s, bindings) {
        lemma_perform_single(w, bindings, open, TurtleAction::PushState, k1);
        lemma_push_pop_round_trip(w);
        let v = act(w, TurtleAction::PushState)->Some_0;
        assert(run(s1, bindings) == Some(v));
        lemma_perform_single(v, bindings, close, TurtleAction::PopState, k2);
        assert(run(s2, bindings) == act(v, TurtleAction::PopState));
    }
}

} // verus!
