//! Advances of time that are longer than one request may ask for, cut into chunks that keep the
//! steps.
use vstd::arithmetic::div_mod::*;
use vstd::arithmetic::mul::*;
use vstd::prelude::*;

use crate::span::{Span, MAX_NANOS};

verus! {

/// The most requests that one advance is cut into.
pub const MAX_CLIENT_CHUNKS: u64 = 4096;

/// How many steps a length of time takes; the last may be shorter.
pub open spec fn steps_for(duration: int, step: int) -> int {
    if duration % step == 0 {
        duration / step
    } else {
        duration / step + 1
    }
}

/// One request may ask for this advance.
pub open spec fn fits(duration: int, step: int, cap: int, max_steps: int) -> bool {
    duration <= cap && steps_for(duration, step) <= max_steps
}

/// Tells whether one request may ask for this advance.
pub fn request_fits(duration_ns: u128, step_ns: u128, cap_ns: u128, max_steps: u128) -> (r: bool)
    requires
        step_ns > 0,
    ensures
        r == fits(duration_ns as int, step_ns as int, cap_ns as int, max_steps as int),
{
    if duration_ns > cap_ns {
        return false;
    }
    let whole = duration_ns / step_ns;
    if duration_ns % step_ns == 0 {
        whole <= max_steps
    } else {
        whole < max_steps
    }
}

/// A part of an advance that one request asks for.
#[derive(Clone, Copy, Debug, PartialEq, Eq, Structural)]
pub struct Chunk {
    /// Its length in nanoseconds.
    pub nanos: u128,
    /// Whether the advance ends with it.
    pub last: bool,
}

/// Why an advance cannot be cut into chunks.
#[derive(Clone, Copy, Debug, PartialEq, Eq, Structural)]
pub enum ChunkError {
    /// No request may ask for even one step.
    NoWholeStep,
    /// The rest is no whole step and too much for one request.
    StepLost,
    /// It takes too many requests.
    TooMany,
}

impl ChunkError {
    /// What is said of it.
    pub open spec fn spec_text(self) -> &'static str {
        match self {
            ChunkError::NoWholeStep =>
                "advance_time cannot form a non-final chunk that is an exact multiple of step_seconds",
            ChunkError::StepLost =>
                "advance_time cannot preserve the nominal step across protocol chunks",
            ChunkError::TooMany => "advance_time requires more than 4096 protocol chunks",
        }
    }

    /// What is said of it.
    pub fn text(self) -> (r: &'static str)
        ensures
            r == self.spec_text(),
    {
        match self {
            ChunkError::NoWholeStep =>
                "advance_time cannot form a non-final chunk that is an exact multiple of step_seconds",
            ChunkError::StepLost =>
                "advance_time cannot preserve the nominal step across protocol chunks",
            ChunkError::TooMany => "advance_time requires more than 4096 protocol chunks",
        }
    }
}

/// How many whole steps one request may ask for.
pub open spec fn regular_steps(step: int, cap: int, max_steps: int) -> int {
    if cap / step <= max_steps {
        cap / step
    } else {
        max_steps
    }
}

/// The smaller of two numbers.
pub open spec fn lesser(a: int, b: int) -> int {
    if a <= b {
        a
    } else {
        b
    }
}

/// An advance under way.
pub struct AdvancePlan {
    /// The nanoseconds that have not been asked for yet.
    pub remaining: u128,
    /// The nanoseconds of a step.
    pub step: u128,
    /// The most nanoseconds of one request.
    pub cap: u128,
    /// The most steps of one request.
    pub max_steps: u16,
    /// How many requests may still be sent.
    pub left: u64,
}

/// The next chunk of an advance, or why there is none.
pub open spec fn next_of(p: AdvancePlan) -> Result<Chunk, ChunkError> {
    if p.left == 0 {
        Err(ChunkError::TooMany)
    } else if fits(p.remaining as int, p.step as int, p.cap as int, p.max_steps as int) {
        Ok(Chunk { nanos: p.remaining, last: true })
    } else if regular_steps(p.step as int, p.cap as int, p.max_steps as int) == 0 {
        Err(ChunkError::NoWholeStep)
    } else {
        let steps = lesser(
            p.remaining as int / p.step as int,
            regular_steps(p.step as int, p.cap as int, p.max_steps as int),
        );
        if steps == 0 {
            Err(ChunkError::StepLost)
        } else {
            Ok(Chunk { nanos: (steps * p.step) as u128, last: false })
        }
    }
}

/// The advance after a chunk.
pub open spec fn after_chunk(p: AdvancePlan, c: Chunk) -> AdvancePlan {
    AdvancePlan { remaining: (p.remaining - c.nanos) as u128, left: (p.left - 1) as u64, ..p }
}

/// Whole steps of a time take no more than that time.
proof fn lemma_steps_within(total: int, step: int, steps: int)
    requires
        total >= 0,
        step > 0,
        0 <= steps <= total / step,
    ensures
        steps * step <= total,
        0 <= steps * step,
{
    lemma_fundamental_div_mod(total, step);
    lemma_mul_inequality(steps, total / step, step);
    lemma_mul_is_commutative(step, total / step);
    lemma_mul_nonnegative(steps, step);
    lemma_mod_bound(total, step);
}

impl AdvancePlan {
    /// An advance before its first request.
    pub fn new(duration: Span, step: Span, cap: Span, max_steps: u16) -> (r: AdvancePlan)
        ensures
            r == (AdvancePlan {
                remaining: duration.nanos,
                step: step.nanos,
                cap: cap.nanos,
                max_steps,
                left: MAX_CLIENT_CHUNKS,
            }),
    {
        AdvancePlan {
            remaining: duration.nanos,
            step: step.nanos,
            cap: cap.nanos,
            max_steps,
            left: MAX_CLIENT_CHUNKS,
        }
    }

    /// The next chunk. Every chunk but the last is a whole number of steps.
    pub fn next_chunk(&mut self) -> (r: Result<Chunk, ChunkError>)
        requires
            old(self).step > 0,
        ensures
            r == next_of(*old(self)),
            match r {
                Ok(c) => *final(self) == after_chunk(*old(self), c) && c.nanos <= old(
                    self,
                ).remaining,
                Err(_) => *final(self) == *old(self),
            },
    {
        if self.left == 0 {
            return Err(ChunkError::TooMany);
        }
        if request_fits(self.remaining, self.step, self.cap, self.max_steps as u128) {
            let nanos = self.remaining;
            self.remaining = 0;
            self.left = self.left - 1;
            return Ok(Chunk { nanos, last: true });
        }
        let whole = self.cap / self.step;
        let regular: u128 = if whole <= self.max_steps as u128 {
            whole
        } else {
            self.max_steps as u128
        };
        if regular == 0 {
            return Err(ChunkError::NoWholeStep);
        }
        let full = self.remaining / self.step;
        let steps: u128 = if full <= regular {
            full
        } else {
            regular
        };
        if steps == 0 {
            return Err(ChunkError::StepLost);
        }
        proof {
            lemma_steps_within(self.remaining as int, self.step as int, steps as int);
        }
        let nanos = steps * self.step;
        self.remaining = self.remaining - nanos;
        self.left = self.left - 1;
        Ok(Chunk { nanos, last: false })
    }
}

/// The chunks of an advance, or why it cannot be cut.
pub open spec fn chunks_of(p: AdvancePlan) -> Result<Seq<int>, ChunkError>
    decreases p.left,
{
    match next_of(p) {
        Err(e) => Err(e),
        Ok(c) => if c.last || p.left == 0 {
            Ok(seq![c.nanos as int])
        } else {
            match chunks_of(after_chunk(p, c)) {
                Ok(rest) => Ok(seq![c.nanos as int] + rest),
                Err(e) => Err(e),
            }
        },
    }
}

/// The sum of some lengths.
pub open spec fn total(lengths: Seq<int>) -> int
    decreases lengths.len(),
{
    if lengths.len() == 0 {
        0
    } else {
        lengths[0] + total(lengths.skip(1))
    }
}

/// Law: the chunks of an advance add up to it exactly, each is one that a request may ask for, each
/// but the last is a whole number of steps, and there are no more than may be sent.
pub proof fn law_chunks_make_the_advance(p: AdvancePlan)
    requires
        p.step > 0,
        p.remaining > 0,
    ensures
        chunks_of(p) matches Ok(chunks) ==> {
            &&& 0 < chunks.len() <= p.left
            &&& total(chunks) == p.remaining
            &&& forall|i: int|
                0 <= i < chunks.len() ==> fits(
                    #[trigger] chunks[i],
                    p.step as int,
                    p.cap as int,
                    p.max_steps as int,
                )
            &&& forall|i: int|
                0 <= i < chunks.len() - 1 ==> #[trigger] chunks[i] % p.step as int == 0
        },
    decreases p.left,
{
    if let Ok(c) = next_of(p) {
        if c.last {
            assert(seq![c.nanos as int].skip(1) =~= Seq::<int>::empty());
            reveal_with_fuel(total, 2);
        } else {
            let step = p.step as int;
            let regular = regular_steps(step, p.cap as int, p.max_steps as int);
            let steps = lesser(p.remaining as int / step, regular);
            lemma_div_pos_is_pos(p.remaining as int, step);
            lemma_steps_within(p.remaining as int, step, steps);
            assert(c.nanos as int == steps * step);
            lemma_div_pos_is_pos(p.cap as int, step);
            lemma_steps_within(p.cap as int, step, steps);
            lemma_mod_multiples_basic(steps, step);
            lemma_div_multiples_vanish(steps, step);
            lemma_mul_is_commutative(steps, step);
            assert(fits(c.nanos as int, step, p.cap as int, p.max_steps as int));
            let rest = after_chunk(p, c);
            lemma_rest_remains(p, c);
            law_chunks_make_the_advance(rest);
            if let Ok(more) = chunks_of(rest) {
                let chunks = seq![c.nanos as int] + more;
                assert(chunks.skip(1) =~= more);
                assert forall|i: int| 0 <= i < chunks.len() implies fits(
                    #[trigger] chunks[i],
                    step,
                    p.cap as int,
                    p.max_steps as int,
                ) by {
                    if i > 0 {
                        assert(chunks[i] == more[i - 1]);
                    }
                }
                assert forall|i: int| 0 <= i < chunks.len() - 1 implies #[trigger] chunks[i] % step
                    == 0 by {
                    if i > 0 {
                        assert(chunks[i] == more[i - 1]);
                    }
                }
            }
        }
    }
}

/// After a chunk that is not the last, time remains.
proof fn lemma_rest_remains(p: AdvancePlan, c: Chunk)
    requires
        p.step > 0,
        p.remaining > 0,
        next_of(p) == Ok::<Chunk, ChunkError>(c),
        !c.last,
    ensures
        c.nanos < p.remaining,
{
    let step = p.step as int;
    let regular = regular_steps(step, p.cap as int, p.max_steps as int);
    let steps = lesser(p.remaining as int / step, regular);
    lemma_div_pos_is_pos(p.remaining as int, step);
    lemma_div_pos_is_pos(p.cap as int, step);
    lemma_steps_within(p.remaining as int, step, steps);
    lemma_steps_within(p.cap as int, step, steps);
    if c.nanos == p.remaining {
        lemma_mod_multiples_basic(steps, step);
        lemma_div_multiples_vanish(steps, step);
        lemma_mul_is_commutative(steps, step);
        assert(fits(p.remaining as int, step, p.cap as int, p.max_steps as int));
    }
}

/// Law: where a request may ask for at least one whole step, only the number of requests can stop
/// an advance.
pub proof fn law_steps_are_kept(p: AdvancePlan)
    requires
        p.step > 0,
        regular_steps(p.step as int, p.cap as int, p.max_steps as int) > 0,
    ensures
        next_of(p) matches Err(e) ==> e == ChunkError::TooMany,
{
    let step = p.step as int;
    lemma_div_pos_is_pos(p.remaining as int, step);
    if p.remaining < p.step {
        lemma_basic_div(p.remaining as int, step);
        lemma_small_mod(p.remaining as nat, p.step as nat);
        lemma_div_pos_is_pos(p.cap as int, step);
        lemma_steps_within(p.cap as int, step, 1);
        assert(1 * step == step);
        assert(fits(p.remaining as int, step, p.cap as int, p.max_steps as int));
    } else {
        lemma_div_non_zero(p.remaining as int, step);
    }
}

/// A number of nanoseconds as a length of time, where the system can hold it.
pub fn duration_from_nanos(nanoseconds: u128) -> (r: Option<Span>)
    ensures
        match r {
            Some(span) => span.nanos == nanoseconds && span.wf(),
            None => nanoseconds > MAX_NANOS,
        },
{
    if nanoseconds > MAX_NANOS {
        None
    } else {
        Some(Span { nanos: nanoseconds })
    }
}

/// Law: one request may ask for an advance exactly where it is no longer than the most time and no
/// longer than the most steps.
pub proof fn law_requests_fit_by_their_length(duration: int, step: int, cap: int, max_steps: int)
    requires
        duration >= 0,
        step > 0,
    ensures
        fits(duration, step, cap, max_steps) <==> duration <= cap && duration <= max_steps * step,
{
    let q = duration / step;
    let m = duration % step;
    lemma_fundamental_div_mod(duration, step);
    lemma_mod_bound(duration, step);
    if m == 0 {
        if q <= max_steps {
            assert(duration <= max_steps * step) by (nonlinear_arith)
                requires
                    duration == step * q,
                    q <= max_steps,
                    step > 0,
            ;
        } else {
            assert(duration > max_steps * step) by (nonlinear_arith)
                requires
                    duration == step * q,
                    q > max_steps,
                    step > 0,
            ;
        }
    } else {
        if q + 1 <= max_steps {
            assert(duration <= max_steps * step) by (nonlinear_arith)
                requires
                    duration == step * q + m,
                    0 < m < step,
                    q + 1 <= max_steps,
            ;
        } else {
            assert(duration > max_steps * step) by (nonlinear_arith)
                requires
                    duration == step * q + m,
                    0 < m < step,
                    q + 1 > max_steps,
            ;
        }
    }
}

/// Law: a chunk is as long as may be. The last chunk is the whole rest, and comes exactly where one
/// request may ask for it. Any other is a whole number of steps, and one step more would be more
/// than the rest, more than the most time or more than the most steps.
pub proof fn law_chunks_are_as_long_as_may_be(p: AdvancePlan, c: Chunk)
    requires
        p.step > 0,
        next_of(p) == Ok::<Chunk, ChunkError>(c),
    ensures
        p.left > 0,
        c.last <==> p.remaining <= p.cap && p.remaining <= p.max_steps * p.step,
        c.last ==> c.nanos == p.remaining,
        !c.last ==> {
            &&& exists|steps: int| 0 < steps <= p.max_steps && #[trigger] (steps * p.step) == c.nanos
            &&& c.nanos <= p.remaining && c.nanos <= p.cap
            &&& c.nanos + p.step > p.remaining || c.nanos + p.step > p.cap || c.nanos
                == p.max_steps * p.step
        },
        after_chunk(p, c).remaining + c.nanos == p.remaining,
        after_chunk(p, c).left == p.left - 1,
{
    law_requests_fit_by_their_length(
        p.remaining as int,
        p.step as int,
        p.cap as int,
        p.max_steps as int,
    );
    if !c.last {
        let step = p.step as int;
        let regular = regular_steps(step, p.cap as int, p.max_steps as int);
        let steps = lesser(p.remaining as int / step, regular);
        lemma_div_pos_is_pos(p.remaining as int, step);
        lemma_div_pos_is_pos(p.cap as int, step);
        lemma_steps_within(p.remaining as int, step, steps);
        lemma_steps_within(p.cap as int, step, steps);
        assert(c.nanos as int == steps * step);
        lemma_fundamental_div_mod(p.remaining as int, step);
        lemma_mod_bound(p.remaining as int, step);
        lemma_fundamental_div_mod(p.cap as int, step);
        lemma_mod_bound(p.cap as int, step);
        lemma_mul_is_commutative(step, p.remaining as int / step);
        lemma_mul_is_commutative(step, p.cap as int / step);
        assert(steps * p.step == c.nanos);
    }
}

/// Law: an advance cannot go on exactly where no request is left, or where it is too much for one
/// request and not even one step may be asked for.
pub proof fn law_advances_stop_for_a_reason(p: AdvancePlan)
    requires
        p.step > 0,
    ensures
        next_of(p) == Err::<Chunk, ChunkError>(ChunkError::TooMany) <==> p.left == 0,
        next_of(p) == Err::<Chunk, ChunkError>(ChunkError::NoWholeStep) <==> p.left > 0 && !(
        p.remaining <= p.cap && p.remaining <= p.max_steps * p.step) && (p.max_steps == 0 || p.step
            > p.cap),
        next_of(p) != Err::<Chunk, ChunkError>(ChunkError::StepLost),
{
    law_requests_fit_by_their_length(
        p.remaining as int,
        p.step as int,
        p.cap as int,
        p.max_steps as int,
    );
    let step = p.step as int;
    lemma_div_pos_is_pos(p.cap as int, step);
    if p.step > p.cap {
        lemma_basic_div(p.cap as int, step);
    } else {
        lemma_div_non_zero(p.cap as int, step);
    }
    if regular_steps(step, p.cap as int, p.max_steps as int) > 0 {
        law_steps_are_kept(p);
    }
}

} // verus!
