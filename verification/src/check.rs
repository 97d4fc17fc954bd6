//! Checking received bytes against the expected stream.
use vstd::prelude::*;

use crate::params::MAX_SHIFT;
use crate::rng::{advanced, lemma_stream_byte_after, stream_byte, IncOneRng};

verus! {

/// The state of a check: the generator, the byte that was drawn from it last and is expected
/// next, and the errors counted so far.
pub struct CheckState {
    pub x: u8,
    pub expect: u8,
    pub errors: int,
}

/// The next expected byte is drawn.
pub open spec fn expect_next(s: CheckState) -> CheckState {
    CheckState { x: stream_byte(s.x, 0), expect: stream_byte(s.x, 0), errors: s.errors }
}

/// An expected byte is given up, which is an error.
pub open spec fn skip_expected(s: CheckState) -> CheckState {
    CheckState { errors: s.errors + 1, ..expect_next(s) }
}

/// Up to `shifts` expected bytes are given up until `byte` is the expected one.
pub open spec fn catch_up(s: CheckState, byte: u8, shifts: int) -> CheckState
    decreases shifts,
{
    if byte != s.expect && shifts > 0 {
        catch_up(skip_expected(s), byte, shifts - 1)
    } else {
        s
    }
}

/// A byte is received: the expected bytes catch up with it as far as they may, and then move on.
pub open spec fn take_byte(s: CheckState, byte: u8) -> CheckState {
    expect_next(catch_up(s, byte, MAX_SHIFT as int))
}

/// Several bytes are received.
pub open spec fn take_bytes(s: CheckState, bytes: Seq<u8>) -> CheckState
    decreases bytes.len(),
{
    if bytes.len() == 0 {
        s
    } else {
        take_byte(take_bytes(s, bytes.drop_last()), bytes.last())
    }
}

/// A check of received bytes.
#[derive(Clone, Copy, Debug, PartialEq, Eq)]
pub struct StreamCheck {
    pub rng: IncOneRng,
    pub expect: u8,
    pub errors: usize,
}

impl View for StreamCheck {
    type V = CheckState;

    open spec fn view(&self) -> CheckState {
        CheckState { x: self.rng.x, expect: self.expect, errors: self.errors as int }
    }
}

impl StreamCheck {
    /// Gives up expected bytes until `byte` is the expected one, at most `MAX_SHIFT` of them.
    pub fn catch_up(&mut self, byte: u8)
        requires
            catch_up(old(self)@, byte, MAX_SHIFT as int).errors <= usize::MAX,
        ensures
            final(self)@ == catch_up(old(self)@, byte, MAX_SHIFT as int),
    {
        let ghost end = catch_up(self@, byte, MAX_SHIFT as int);
        let mut max_shift: isize = MAX_SHIFT;
        while byte != self.expect && max_shift > 0
            invariant
                0 <= max_shift <= MAX_SHIFT,
                end.errors <= usize::MAX,
                catch_up(self@, byte, max_shift as int) == end,
            decreases max_shift,
        {
            proof {
                lemma_catch_up_grows(skip_expected(self@), byte, max_shift - 1);
            }
            self.errors += 1;
            self.expect = self.rng.next_u8();
            max_shift -= 1;
        }
    }

    /// Draws the next expected byte.
    pub fn expect_next(&mut self)
        ensures
            final(self)@ == expect_next(old(self)@),
    {
        self.expect = self.rng.next_u8();
    }

    /// Takes the first `count` bytes of `buf`.
    pub fn take_bytes(&mut self, buf: &[u8], count: usize)
        requires
            count <= buf@.len(),
            take_bytes(old(self)@, buf@.take(count as int)).errors <= usize::MAX,
        ensures
            final(self)@ == take_bytes(old(self)@, buf@.take(count as int)),
    {
        let mut i: usize = 0;
        assert(buf@.take(0) =~= Seq::<u8>::empty());
        while i < count
            invariant
                i <= count <= buf@.len(),
                take_bytes(old(self)@, buf@.take(count as int)).errors <= usize::MAX,
                self@ == take_bytes(old(self)@, buf@.take(i as int)),
            decreases count - i,
        {
            proof {
                let taken = buf@.take(i + 1);
                assert(taken.drop_last() =~= buf@.take(i as int));
                assert(buf@.take(count as int).take(i + 1) =~= taken);
                lemma_take_bytes_grows(old(self)@, buf@.take(count as int), i + 1);
            }
            self.catch_up(buf[i]);
            self.expect_next();
            i += 1;
        }
    }

    /// Whether `take_bytes` can count all errors in the first `count` bytes of `buf`.
    pub fn can_take(&self, buf: &[u8], count: usize) -> (b: bool)
        requires
            count <= buf@.len(),
        ensures
            b == (take_bytes(self@, buf@.take(count as int)).errors <= usize::MAX),
    {
        let mut trial = StreamCheck { rng: self.rng, expect: self.expect, errors: 0 };
        proof {
            lemma_take_bytes_adds(self@, buf@.take(count as int));
        }
        if count <= usize::MAX - self.errors {
            return true;
        }
        trial.take_bytes(buf, count);
        trial.errors <= usize::MAX - self.errors
    }
}

/// Catching up never lowers the error count, and raises it by at most the number of shifts.
proof fn lemma_catch_up_grows(s: CheckState, byte: u8, shifts: int)
    requires
        shifts >= 0,
    ensures
        s.errors <= catch_up(s, byte, shifts).errors <= s.errors + shifts,
    decreases shifts,
{
    if byte != s.expect && shifts > 0 {
        lemma_catch_up_grows(skip_expected(s), byte, shifts - 1);
    }
}

/// More bytes never lower the error count.
proof fn lemma_take_bytes_grows(s: CheckState, bytes: Seq<u8>, n: int)
    requires
        0 <= n <= bytes.len(),
    ensures
        take_bytes(s, bytes.take(n)).errors <= take_bytes(s, bytes).errors,
    decreases bytes.len() - n,
{
    if n < bytes.len() {
        assert(bytes.take(n + 1).drop_last() =~= bytes.take(n));
        lemma_catch_up_grows(take_bytes(s, bytes.take(n)), bytes[n], MAX_SHIFT as int);
        lemma_take_bytes_grows(s, bytes, n + 1);
    } else {
        assert(bytes.take(n) =~= bytes);
    }
}

/// The errors of a check are those that it starts with and those that its bytes cause, which are
/// at most `MAX_SHIFT` each.
proof fn lemma_take_bytes_adds(s: CheckState, bytes: Seq<u8>)
    ensures
        ({
            let fresh = take_bytes(CheckState { errors: 0, ..s }, bytes);
            &&& take_bytes(s, bytes) == (CheckState { errors: s.errors + fresh.errors, ..fresh })
            &&& 0 <= fresh.errors <= bytes.len() * MAX_SHIFT
        }),
    decreases bytes.len(),
{
    if bytes.len() > 0 {
        lemma_take_bytes_adds(s, bytes.drop_last());
        reveal_with_fuel(catch_up, 3);
    }
}

/// Bytes that continue the expected stream cause no error, and leave the check where the stream
/// goes on.
pub proof fn law_expected_bytes_cause_no_error(s: CheckState, n: nat)
    requires
        s.expect == s.x,
    ensures
        ({
            let bytes = Seq::new(n, |k: int| advanced(s.x, k));
            take_bytes(s, bytes) == (CheckState {
                x: advanced(s.x, n as int),
                expect: advanced(s.x, n as int),
                errors: s.errors,
            })
        }),
    decreases n,
{
    let bytes = Seq::new(n, |k: int| advanced(s.x, k));
    if n > 0 {
        law_expected_bytes_cause_no_error(s, (n - 1) as nat);
        assert(bytes.drop_last() =~= Seq::new((n - 1) as nat, |k: int| advanced(s.x, k)));
        lemma_stream_byte_after(s.x, n - 1, 0);
    }
}

/// The loss of a single byte costs one error, after which the check is in step with the sender
/// again.
pub proof fn law_one_lost_byte_costs_one_error(s: CheckState)
    requires
        s.expect == s.x,
    ensures
        take_byte(s, advanced(s.x, 1)) == (CheckState {
            x: advanced(s.x, 2),
            expect: advanced(s.x, 2),
            errors: s.errors + 1,
        }),
{
    reveal_with_fuel(catch_up, 3);
}

/// A byte costs at most `MAX_SHIFT` errors, and none exactly if it is the expected one.
pub proof fn law_errors_of_one_byte(s: CheckState, byte: u8)
    ensures
        s.errors <= take_byte(s, byte).errors <= s.errors + MAX_SHIFT,
        take_byte(s, byte).errors == s.errors <==> byte == s.expect,
{
    reveal_with_fuel(catch_up, 3);
}

/// Taking two batches of bytes is taking them as one.
pub proof fn law_batches_do_not_matter(s: CheckState, first: Seq<u8>, second: Seq<u8>)
    ensures
        take_bytes(s, first + second) == take_bytes(take_bytes(s, first), second),
    decreases second.len(),
{
    if second.len() == 0 {
        assert(first + second =~= first);
    } else {
        law_batches_do_not_matter(s, first, second.drop_last());
        assert((first + second).drop_last() =~= first + second.drop_last());
    }
}

/// The bytes that arrive where the sender's stream goes on from `x` and only those that `keep`
/// marks are not lost.
pub open spec fn kept_bytes(x: u8, keep: Seq<bool>) -> Seq<u8>
    decreases keep.len(),
{
    if keep.len() == 0 {
        Seq::empty()
    } else {
        let earlier = kept_bytes(x, keep.drop_last());
        if keep.last() {
            earlier.push(advanced(x, keep.len() - 1))
        } else {
            earlier
        }
    }
}

/// How many bytes `keep` does not mark.
pub open spec fn lost_count(keep: Seq<bool>) -> nat
    decreases keep.len(),
{
    if keep.len() == 0 {
        0
    } else {
        lost_count(keep.drop_last()) + if keep.last() {
            0nat
        } else {
            1nat
        }
    }
}

/// Whether no two neighbouring bytes are lost, and the last one is not.
pub open spec fn lost_singly(keep: Seq<bool>) -> bool {
    &&& forall|i: int| #![trigger keep[i]] 0 < i < keep.len() ==> keep[i - 1] || keep[i]
    &&& keep.len() > 0 ==> keep.last()
}

/// Any number of lost bytes, no two of them neighbours and the last byte not among them, cost one
/// error each, and leave the check in step with the sender.
pub proof fn law_lost_bytes_cost_one_error_each(s: CheckState, keep: Seq<bool>)
    requires
        s.expect == s.x,
        lost_singly(keep),
    ensures
        take_bytes(s, kept_bytes(s.x, keep)) == (CheckState {
            x: advanced(s.x, keep.len() as int),
            expect: advanced(s.x, keep.len() as int),
            errors: s.errors + lost_count(keep),
        }),
    decreases keep.len(),
{
    let n = keep.len() as int;
    if n > 0 {
        let shorter = keep.drop_last();
        let bytes = kept_bytes(s.x, keep);
        assert(bytes.drop_last() =~= kept_bytes(s.x, shorter));
        if n == 1 || keep[n - 2] {
            assert forall|i: int|
                #![trigger shorter[i]]
                0 < i < shorter.len() implies shorter[i - 1] || shorter[i] by {
                assert(shorter[i] == keep[i]);
            }
            law_lost_bytes_cost_one_error_each(s, shorter);
            lemma_stream_byte_after(s.x, n - 1, 0);
        } else {
            let before = shorter.drop_last();
            assert(shorter.last() == keep[n - 2]);
            assert forall|i: int|
                #![trigger before[i]]
                0 < i < before.len() implies before[i - 1] || before[i] by {
                assert(before[i] == keep[i]);
            }
            if n > 2 {
                assert(keep[n - 3] || keep[n - 2]);
                assert(before.last() == keep[n - 3]);
            }
            law_lost_bytes_cost_one_error_each(s, before);
            let reached = take_bytes(s, kept_bytes(s.x, before));
            law_one_lost_byte_costs_one_error(reached);
            lemma_stream_byte_after(s.x, n - 2, 1);
            lemma_stream_byte_after(s.x, n - 2, 2);
        }
    }
}

/// What one byte does to a check, for every check and every byte: the expected byte moves the
/// generator by one draw, and any other byte by one more and costs one error; the last draw is what
/// is expected next. Before that, catching up gives up one expected byte exactly if the byte is
/// another one. Bytes are taken one after the other.
pub proof fn law_one_byte_moves_the_check(s: CheckState, bytes: Seq<u8>, byte: u8)
    ensures
        take_byte(s, byte) == (if byte == s.expect {
            CheckState { x: advanced(s.x, 1), expect: advanced(s.x, 1), errors: s.errors }
        } else {
            CheckState { x: advanced(s.x, 2), expect: advanced(s.x, 2), errors: s.errors + 1 }
        }),
        catch_up(s, byte, MAX_SHIFT as int) == (if byte == s.expect {
            s
        } else {
            CheckState { x: advanced(s.x, 1), expect: advanced(s.x, 1), errors: s.errors + 1 }
        }),
        expect_next(s) == (CheckState {
            x: advanced(s.x, 1),
            expect: advanced(s.x, 1),
            errors: s.errors,
        }),
        take_bytes(s, Seq::empty()) == s,
        take_bytes(s, bytes.push(byte)) == take_byte(take_bytes(s, bytes), byte),
{
    reveal_with_fuel(catch_up, 3);
    lemma_stream_byte_after(s.x, 1, 0);
    assert(bytes.push(byte).drop_last() =~= bytes);
}

} // verus!
