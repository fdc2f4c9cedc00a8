//! The escape-time iteration.
//!
//! An orbit starts at a given state and is advanced one step at a time by a
//! map that depends on a fixed constant. Before every step the state is
//! tested for escape. The iteration stops at the first state that has
//! escaped, or when the iteration cap is reached, and reports how many
//! steps were taken and the state it stopped at. What a state is, when it
//! counts as escaped and how it is advanced are given by the caller.

use vstd::prelude::*;

verus! {

/// Where an orbit stopped: the number of steps taken and the state reached.
#[derive(Debug)]
pub struct OrbitEnd<S> {
    pub iterations: usize,
    pub state: S,
}

/// The result of evaluating one point of the complex plane: the number of
/// steps taken, and the real and imaginary part of the state reached.
#[derive(Debug, PartialEq, Eq)]
pub struct FractalPoint<T> {
    pub iterations: usize,
    pub re: T,
    pub im: T,
}

impl<T> FractalPoint<T> {
    /// The point as the end of its orbit.
    pub open spec fn orbit_end(self) -> OrbitEnd<(T, T)> {
        OrbitEnd { iterations: self.iterations, state: (self.re, self.im) }
    }

    /// The point with its iteration count replaced and its state kept.
    pub open spec fn resampled(self, iterations: usize) -> FractalPoint<T> {
        FractalPoint { iterations, re: self.re, im: self.im }
    }
}

/// `orbit` lists the states of an iteration from `start`: every state but
/// the last was tested and had not escaped, and was then advanced, under
/// `constant`, to its successor.
pub open spec fn is_orbit<S, K, E: Fn(&S) -> bool, A: Fn(S, &K) -> S>(
    orbit: Seq<S>,
    start: S,
    constant: K,
    escaped: E,
    advance: A,
) -> bool {
    &&& orbit.len() > 0
    &&& orbit[0] == start
    &&& forall|k: int|
        0 <= k < orbit.len() - 1 ==> escaped.ensures((&#[trigger] orbit[k],), false)
            && advance.ensures((orbit[k], &constant), orbit[k + 1])
}

/// `end` is a result of the escape-time iteration from `start` under the
/// cap `max_iters`: some orbit of `end.iterations` steps leads from `start`
/// to `end.state`, the cap is respected, and the iteration stopped short of
/// the cap only at a state that has escaped.
pub open spec fn is_escape_time<S, K, E: Fn(&S) -> bool, A: Fn(S, &K) -> S>(
    end: OrbitEnd<S>,
    start: S,
    constant: K,
    max_iters: usize,
    escaped: E,
    advance: A,
) -> bool {
    &&& end.iterations <= max_iters
    &&& end.iterations < max_iters ==> escaped.ensures((&end.state,), true)
    &&& exists|orbit: Seq<S>|
        #[trigger] is_orbit(orbit, start, constant, escaped, advance) && orbit.len()
            == end.iterations + 1 && orbit.last() == end.state
}

/// Iterates from `start` until the state has escaped or `max_iters` steps
/// were taken, testing before each step.
pub fn escape_time<S, K>(
    start: S,
    constant: &K,
    max_iters: usize,
    escaped: impl Fn(&S) -> bool,
    advance: impl Fn(S, &K) -> S,
) -> (end: OrbitEnd<S>)
    requires
        forall|s: S| escaped.requires((&s,)),
        forall|s: S| advance.requires((s, constant)),
    ensures
        is_escape_time(end, start, *constant, max_iters, escaped, advance),
{
    let ghost mut orbit: Seq<S> = seq![start];
    let mut state = start;
    let mut iterations: usize = 0;
    loop
        invariant
            iterations <= max_iters,
            is_orbit(orbit, start, *constant, escaped, advance),
            orbit.len() == iterations + 1,
            orbit.last() == state,
            forall|s: S| escaped.requires((&s,)),
            forall|s: S| advance.requires((s, constant)),
        decreases max_iters - iterations,
    {
        let out = escaped(&state);
        if out || iterations >= max_iters {
            return OrbitEnd { iterations, state };
        }
        state = advance(state, constant);
        iterations = iterations + 1;
        proof {
            orbit = orbit.push(state);
        }
    }
}

/// A start that can only be found escaped is reported at once: no step is
/// taken and the state is the start itself.
pub proof fn lemma_escaped_start_takes_no_step<S, K, E: Fn(&S) -> bool, A: Fn(S, &K) -> S>(
    end: OrbitEnd<S>,
    start: S,
    constant: K,
    max_iters: usize,
    escaped: E,
    advance: A,
)
    requires
        is_escape_time(end, start, constant, max_iters, escaped, advance),
        forall|out: bool| escaped.ensures((&start,), out) ==> out,
    ensures
        end.iterations == 0,
        end.state == start,
{
    let orbit = choose|orbit: Seq<S>|
        #[trigger] is_orbit(orbit, start, constant, escaped, advance) && orbit.len()
            == end.iterations + 1 && orbit.last() == end.state;
    if end.iterations > 0 {
        assert(escaped.ensures((&orbit[0],), false));
    }
}

/// A start from which no reachable state can be found escaped runs to the
/// cap, whatever the cap is.
pub proof fn lemma_bounded_orbit_reaches_cap<S, K, E: Fn(&S) -> bool, A: Fn(S, &K) -> S>(
    end: OrbitEnd<S>,
    start: S,
    constant: K,
    max_iters: usize,
    escaped: E,
    advance: A,
)
    requires
        is_escape_time(end, start, constant, max_iters, escaped, advance),
        forall|orbit: Seq<S>| #[trigger]
            is_orbit(orbit, start, constant, escaped, advance) ==> !escaped.ensures(
                (&orbit.last(),),
                true,
            ),
    ensures
        end.iterations == max_iters,
{
}

/// Under a cap of zero no step is taken.
pub proof fn lemma_zero_cap_takes_no_step<S, K, E: Fn(&S) -> bool, A: Fn(S, &K) -> S>(
    end: OrbitEnd<S>,
    start: S,
    constant: K,
    escaped: E,
    advance: A,
)
    requires
        is_escape_time(end, start, constant, 0, escaped, advance),
    ensures
        end.iterations == 0,
        end.state == start,
{
}

} // verus!
