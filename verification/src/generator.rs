//! Generation of initial inputs.

use vstd::prelude::*;
use core::marker::PhantomData;
use crate::error::Error;
use crate::hex_input::HexInput;

verus! {

/// The greatest length of a dummy input.
pub const DUMMY_BYTES_MAX: usize = 64;

/// A state from which random numbers can be drawn.
///
/// An implementation chooses `may_draw`, the relation that its draws keep to. One that
/// chooses none promises nothing.
pub trait HasRand: Sized {
    /// Whether a draw below `upper_bound_excl` may turn `before` into `after` and give
    /// `drawn`.
    open spec fn may_draw(before: Self, upper_bound_excl: u64, after: Self, drawn: u64) -> bool {
        true
    }

    /// Draws a number below `upper_bound_excl`.
    fn below(&mut self, upper_bound_excl: u64) -> (drawn: u64)
        ensures
            Self::may_draw(*old(self), upper_bound_excl, *final(self), drawn),
    ;
}

/// A generator of random inputs.
#[derive(Debug)]
pub struct RandHexGenerator<S: HasRand> {
    pub max_size: usize,
    pub phantom: PhantomData<S>,
}

impl<S: HasRand> Clone for RandHexGenerator<S> {
    fn clone(&self) -> (copy: Self)
        ensures
            copy.max_size == self.max_size,
    {
        RandHexGenerator { max_size: self.max_size, phantom: PhantomData }
    }
}

/// How long an input is for a drawn size: a size of 0 counts as 1, unless the maximal size
/// leaves no room for a byte.
pub open spec fn input_size(drawn: u64, max_size: usize) -> u64 {
    if max_size == 0 {
        0
    } else if drawn == 0 {
        1
    } else {
        drawn
    }
}

/// Whether `bytes` may be drawn one by one, each below 256, when the state goes from
/// `before` to `after`.
pub open spec fn may_draw_bytes<S: HasRand>(before: S, bytes: Seq<u8>, after: S) -> bool
    decreases bytes.len(),
{
    if bytes.len() == 0 {
        before == after
    } else {
        exists|mid: S, drawn: u64|
            {
                &&& may_draw_bytes(before, bytes.drop_last(), mid)
                &&& #[trigger] S::may_draw(mid, 256, after, drawn)
                &&& bytes.last() == drawn as u8
            }
    }
}

/// Whether `bytes` may be generated with that maximal size when the state goes from `before`
/// to `after`: first the size is drawn, then each byte.
pub open spec fn may_generate<S: HasRand>(
    before: S,
    max_size: usize,
    bytes: Seq<u8>,
    after: S,
) -> bool {
    exists|mid: S, drawn: u64|
        {
            &&& #[trigger] S::may_draw(before, max_size as u64, mid, drawn)
            &&& bytes.len() == input_size(drawn, max_size)
            &&& may_draw_bytes(mid, bytes, after)
        }
}

impl<S: HasRand> RandHexGenerator<S> {
    /// A generator of inputs of up to `max_size` bytes.
    pub fn new(max_size: usize) -> (generator: Self)
        ensures
            generator.max_size == max_size,
    {
        RandHexGenerator { max_size, phantom: PhantomData }
    }

    /// Generates an input: a size below the maximum is drawn, then that many bytes, at least
    /// one where the maximum is not 0.
    pub fn generate(&mut self, state: &mut S) -> (input: Result<HexInput, Error>)
        ensures
            *final(self) == *old(self),
            input matches Ok(hex) && may_generate(
                *old(state),
                old(self).max_size,
                hex.bytes@,
                *final(state),
            ),
    {
        let drawn: u64 = state.below(self.max_size as u64);
        let ghost mid = *state;
        assert(S::may_draw(*old(state), old(self).max_size as u64, mid, drawn));
        let size: u64 = if self.max_size == 0 {
            0
        } else if drawn == 0 {
            1
        } else {
            drawn
        };
        let mut random_bytes: Vec<u8> = Vec::new();
        let mut i: u64 = 0;
        while i < size
            invariant
                i <= size,
                random_bytes@.len() == i,
                may_draw_bytes(mid, random_bytes@, *state),
            decreases size - i,
        {
            let ghost before = *state;
            let ghost bytes = random_bytes@;
            let byte: u64 = state.below(256);
            random_bytes.push(byte as u8);
            proof {
                assert(random_bytes@.drop_last() == bytes);
                assert(S::may_draw(before, 256, *state, byte));
            }
            i = i + 1;
        }
        Ok(HexInput::new(random_bytes))
    }

    /// Generates an input of zeros, of the maximal size but at most [`DUMMY_BYTES_MAX`].
    pub fn generate_dummy(&self, _state: &mut S) -> (input: HexInput)
        ensures
            *final(_state) == *old(_state),
            input.bytes@ == Seq::new(
                if self.max_size < DUMMY_BYTES_MAX {
                    self.max_size as nat
                } else {
                    DUMMY_BYTES_MAX as nat
                },
                |i: int| 0u8,
            ),
    {
        let size: usize = if self.max_size < DUMMY_BYTES_MAX {
            self.max_size
        } else {
            DUMMY_BYTES_MAX
        };
        HexInput::new(vec![0; size])
    }
}

/// Where draws below a positive bound stay below it, a generated input has at most the
/// maximal number of bytes, and at least one if that number is not 0.
pub proof fn law_generated_size<S: HasRand>(before: S, max_size: usize, bytes: Seq<u8>, after: S)
    requires
        forall|mid: S, drawn: u64| #[trigger]
            S::may_draw(before, max_size as u64, mid, drawn) ==> (max_size > 0 ==> drawn
                < max_size),
        may_generate(before, max_size, bytes, after),
    ensures
        bytes.len() <= max_size,
        max_size >= 1 ==> bytes.len() >= 1,
{
}

/// Whether draws below 256 lead from each of `states` to the next.
pub open spec fn are_draws<S: HasRand>(states: Seq<S>, draws: Seq<u64>) -> bool {
    &&& states.len() == draws.len() + 1
    &&& forall|i: int|
        0 <= i < draws.len() ==> S::may_draw(states[i], 256, states[i + 1], #[trigger] draws[i])
}

/// Bytes that are drawn one by one come from as many draws, each byte from its own.
proof fn lemma_drawn_in_turn<S: HasRand>(before: S, bytes: Seq<u8>, after: S)
    requires
        may_draw_bytes(before, bytes, after),
    ensures
        exists|states: Seq<S>, draws: Seq<u64>|
            {
                &&& #[trigger] are_draws(states, draws)
                &&& states.first() == before
                &&& states.last() == after
                &&& draws.len() == bytes.len()
                &&& forall|i: int|
                    0 <= i < bytes.len() ==> #[trigger] bytes[i] == draws[i] % 256
            },
    decreases bytes.len(),
{
    if bytes.len() == 0 {
        let states: Seq<S> = seq![before];
        assert(are_draws(states, Seq::<u64>::empty()));
    } else {
        let shorter = bytes.drop_last();
        let (mid, drawn): (S, u64) = choose|mid: S, drawn: u64|
            {
                &&& may_draw_bytes(before, shorter, mid)
                &&& #[trigger] S::may_draw(mid, 256, after, drawn)
                &&& bytes.last() == drawn as u8
            };
        lemma_drawn_in_turn(before, shorter, mid);
        let (states, draws): (Seq<S>, Seq<u64>) = choose|states: Seq<S>, draws: Seq<u64>|
            {
                &&& #[trigger] are_draws(states, draws)
                &&& states.first() == before
                &&& states.last() == mid
                &&& draws.len() == shorter.len()
                &&& forall|i: int|
                    0 <= i < shorter.len() ==> #[trigger] shorter[i] == draws[i] % 256
            };
        let more = states.push(after);
        let more_draws = draws.push(drawn);
        assert(drawn as u8 == drawn % 256) by (bit_vector);
        assert(are_draws(more, more_draws)) by {
            assert forall|i: int| 0 <= i < more_draws.len() implies S::may_draw(
                more[i],
                256,
                more[i + 1],
                #[trigger] more_draws[i],
            ) by {
                if i < draws.len() {
                    assert(more_draws[i] == draws[i]);
                }
            }
        }
        assert forall|i: int| 0 <= i < bytes.len() implies #[trigger] bytes[i] == more_draws[i]
            % 256 by {
            if i < shorter.len() {
                assert(shorter[i] == draws[i] % 256);
            }
        }
    }
}

/// An input is generated by one draw below the maximal size and then one draw below 256 for
/// each byte, each from the state that the draw before left. There are as many bytes as the
/// first draw says, but one where it says 0, and none where the maximal size is 0.
pub proof fn law_generated_by_draws<S: HasRand>(
    generator: &mut RandHexGenerator<S>,
    state: &mut S,
    input: Result<HexInput, Error>,
)
    requires
        call_ensures(RandHexGenerator::<S>::generate, (generator, state), input),
    ensures
        input is Ok,
        final(generator).max_size == old(generator).max_size,
        exists|mid: S, drawn: u64, states: Seq<S>, draws: Seq<u64>|
            {
                &&& #[trigger] S::may_draw(
                    *old(state),
                    old(generator).max_size as u64,
                    mid,
                    drawn,
                )
                &&& #[trigger] are_draws(states, draws)
                &&& states.first() == mid
                &&& states.last() == *final(state)
                &&& draws.len() == input->Ok_0.bytes@.len()
                &&& forall|i: int|
                    0 <= i < draws.len() ==> #[trigger] input->Ok_0.bytes@[i] == draws[i] % 256
                &&& old(generator).max_size == 0 ==> draws.len() == 0
                &&& old(generator).max_size > 0 && drawn == 0 ==> draws.len() == 1
                &&& old(generator).max_size > 0 && drawn > 0 ==> draws.len() == drawn
            },
{
    let max_size = old(generator).max_size;
    let bytes = input->Ok_0.bytes@;
    let after = *final(state);
    let (mid, drawn): (S, u64) = choose|mid: S, drawn: u64|
        {
            &&& #[trigger] S::may_draw(*old(state), max_size as u64, mid, drawn)
            &&& bytes.len() == input_size(drawn, max_size)
            &&& may_draw_bytes(mid, bytes, after)
        };
    lemma_drawn_in_turn(mid, bytes, after);
    let (states, draws): (Seq<S>, Seq<u64>) = choose|states: Seq<S>, draws: Seq<u64>|
        {
            &&& #[trigger] are_draws(states, draws)
            &&& states.first() == mid
            &&& states.last() == after
            &&& draws.len() == bytes.len()
            &&& forall|i: int| 0 <= i < bytes.len() ==> #[trigger] bytes[i] == draws[i] % 256
        };
    assert(S::may_draw(*old(state), max_size as u64, mid, drawn));
    assert(are_draws(states, draws));
}

/// A dummy is made of zeros, as many as the maximal size but at most 64, and draws nothing.
pub proof fn law_dummy<S: HasRand>(
    generator: RandHexGenerator<S>,
    state: &mut S,
    input: HexInput,
)
    requires
        call_ensures(RandHexGenerator::<S>::generate_dummy, (&generator, state), input),
    ensures
        *final(state) == *old(state),
        generator.max_size <= 64 ==> input.bytes@.len() == generator.max_size,
        generator.max_size > 64 ==> input.bytes@.len() == 64,
        forall|i: int| 0 <= i < input.bytes@.len() ==> #[trigger] input.bytes@[i] == 0,
{
}

/// A generator keeps its maximal size.
pub proof fn law_new_generator<S: HasRand>(max_size: usize, generator: RandHexGenerator<S>)
    requires
        call_ensures(RandHexGenerator::<S>::new, (max_size,), generator),
    ensures
        generator.max_size == max_size,
{
}

/// No bytes take no draw. One more byte takes one more draw below 256, and is that draw modulo
/// 256.
pub proof fn law_one_more_byte<S: HasRand>(before: S, bytes: Seq<u8>, byte: u8, after: S)
    ensures
        may_draw_bytes(before, seq![], after) ==> after == before,
        may_draw_bytes(before, bytes.push(byte), after) ==> exists|mid: S, drawn: u64|
            {
                &&& may_draw_bytes(before, bytes, mid)
                &&& #[trigger] S::may_draw(mid, 256, after, drawn)
                &&& byte == drawn % 256
            },
{
    let more = bytes.push(byte);
    assert(more.drop_last() == bytes);
    assert(more.last() == byte);
    if may_draw_bytes(before, more, after) {
        let (mid, drawn): (S, u64) = choose|mid: S, drawn: u64|
            {
                &&& may_draw_bytes(before, more.drop_last(), mid)
                &&& #[trigger] S::may_draw(mid, 256, after, drawn)
                &&& more.last() == drawn as u8
            };
        assert(drawn as u8 == drawn % 256) by (bit_vector);
        assert(S::may_draw(mid, 256, after, drawn));
    }
}

} // verus!
