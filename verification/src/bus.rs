//! Model of the driver's two collaborators: the 16-pin GPIO expander and the
//! blocking delay provider.
//!
//! The panel hardware offers no readback, so the observable behaviour of the
//! driver is exactly the sequence of operations it issues. [`Bus`] records
//! that sequence. Each pin operation is a bus transaction that can fail; a
//! failure can be injected at any chosen position of the sequence, which lets
//! the error paths of the driver be exercised and specified precisely.

use vstd::prelude::*;

use crate::pins::Mcp23017Pin;
use crate::LcdError;

verus! {

/// Direction a single expander pin is configured to.
#[derive(Clone, Copy, Debug, PartialEq, Eq, Structural)]
pub enum PinMode {
    Input,
    Output,
}

/// One observable operation on the expander or the delay provider.
#[derive(Clone, Copy, Debug, PartialEq, Eq, Structural)]
pub enum BusOp {
    /// The pin was configured as an input or an output.
    SetMode(Mcp23017Pin, PinMode),
    /// The pin's pull-up was enabled or disabled.
    SetPullUp(Mcp23017Pin, bool),
    /// The pin was driven to the given level.
    WriteLevel(Mcp23017Pin, bool),
    /// The pin's level was sampled.
    ReadLevel(Mcp23017Pin),
    /// The delay provider blocked for the given number of microseconds.
    WaitUs(u32),
    /// The delay provider blocked for the given number of milliseconds.
    WaitMs(u32),
}

/// Whether an operation travels over the shared bus and can therefore fail.
/// Waiting happens locally and always succeeds.
pub open spec fn fallible(op: BusOp) -> bool {
    !(op is WaitUs || op is WaitMs)
}

/// The expander and delay provider as one recording device.
///
/// `ops` is everything the hardware has observed, in order. `inputs` holds
/// the level that sampling each of the sixteen pins returns. `fail_at`, when
/// set, makes the fallible operation that would be recorded at that position
/// of `ops` fail instead of being recorded.
pub struct Bus {
    /// Every operation issued so far, oldest first.
    pub ops: Vec<BusOp>,
    /// The level each pin reads as, indexed by pin number.
    pub inputs: Vec<bool>,
    /// Position of `ops` at which the next fallible operation fails.
    pub fail_at: Option<usize>,
}

impl Bus {
    /// One input level per expander pin.
    pub open spec fn wf(self) -> bool {
        self.inputs@.len() == 16
    }

    /// The injected failure position, or -1 when none is scheduled.
    pub open spec fn fail_index(self) -> int {
        match self.fail_at {
            Some(f) => f as int,
            None => -1,
        }
    }

    /// Whether issuing the operations `e`, starting from this state, runs
    /// into the injected failure.
    pub open spec fn hits(self, e: Seq<BusOp>) -> bool {
        self.fail_at is Some && {
            let k = self.fail_index() - self.ops@.len();
            0 <= k < e.len() && fallible(e[k])
        }
    }

    /// The recorded sequence after issuing the operations `e` from this
    /// state: everything up to the injected failure, or all of `e`.
    pub open spec fn after(self, e: Seq<BusOp>) -> Seq<BusOp> {
        if self.hits(e) {
            self.ops@ + e.take(self.fail_index() - self.ops@.len())
        } else {
            self.ops@ + e
        }
    }

    /// A fresh bus: nothing recorded, every pin reading low, no failure
    /// scheduled.
    pub fn new() -> (b: Bus)
        ensures
            b.wf(),
            b.ops@ == Seq::<BusOp>::empty(),
            b.fail_at is None,
            forall|i: int| 0 <= i < 16 ==> b.inputs@[i] == false,
    {
        let mut inputs: Vec<bool> = Vec::new();
        while inputs.len() < 16
            invariant
                inputs@.len() <= 16,
                forall|i: int| 0 <= i < inputs@.len() ==> inputs@[i] == false,
            decreases 16 - inputs@.len(),
        {
            inputs.push(false);
        }
        Bus { ops: Vec::new(), inputs, fail_at: None }
    }

    /// Set the level that sampling `pin` returns.
    pub fn set_input(&mut self, pin: Mcp23017Pin, level: bool)
        requires
            old(self).wf(),
        ensures
            final(self).wf(),
            final(self).ops@ == old(self).ops@,
            final(self).fail_at == old(self).fail_at,
            final(self).inputs@ == old(self).inputs@.update(pin.num() as int, level),
    {
        let n = pin.num();
        self.inputs.set(n as usize, level);
    }

    /// Schedule the fallible operation that would be recorded at position
    /// `at` to fail.
    pub fn schedule_failure(&mut self, at: usize)
        ensures
            final(self).ops@ == old(self).ops@,
            final(self).inputs@ == old(self).inputs@,
            final(self).fail_at == Some(at),
    {
        self.fail_at = Some(at);
    }

    /// Issue one fallible operation: record it, or fail at the scheduled
    /// position.
    fn attempt(&mut self, op: BusOp) -> (r: Result<(), LcdError>)
        requires
            old(self).wf(),
            fallible(op),
        ensures
            final(self).wf(),
            final(self).inputs@ == old(self).inputs@,
            final(self).fail_at == old(self).fail_at,
            final(self).ops@ == old(self).after(seq![op]),
            r is Ok <==> !old(self).hits(seq![op]),
            r matches Err(e) ==> e == LcdError::I2c,
    {
        let fail_here = match self.fail_at {
            Some(f) => f == self.ops.len(),
            None => false,
        };
        if fail_here {
            proof {
                assert(self.hits(seq![op]));
                assert(self.after(seq![op]) =~= self.ops@);
            }
            Err(LcdError::I2c)
        } else {
            proof {
                assert(!self.hits(seq![op]));
            }
            let ghost prev = self.ops@;
            self.ops.push(op);
            proof {
                assert(self.ops@ =~= prev + seq![op]);
            }
            Ok(())
        }
    }

    /// Configure a pin as an input or an output.
    pub fn set_pin_mode(&mut self, pin: Mcp23017Pin, mode: PinMode) -> (r: Result<(), LcdError>)
        requires
            old(self).wf(),
        ensures
            final(self).wf(),
            final(self).inputs@ == old(self).inputs@,
            final(self).fail_at == old(self).fail_at,
            final(self).ops@ == old(self).after(seq![BusOp::SetMode(pin, mode)]),
            r is Ok <==> !old(self).hits(seq![BusOp::SetMode(pin, mode)]),
            r matches Err(e) ==> e == LcdError::I2c,
    {
        self.attempt(BusOp::SetMode(pin, mode))
    }

    /// Enable or disable a pin's pull-up.
    pub fn set_pull_up(&mut self, pin: Mcp23017Pin, enabled: bool) -> (r: Result<(), LcdError>)
        requires
            old(self).wf(),
        ensures
            final(self).wf(),
            final(self).inputs@ == old(self).inputs@,
            final(self).fail_at == old(self).fail_at,
            final(self).ops@ == old(self).after(seq![BusOp::SetPullUp(pin, enabled)]),
            r is Ok <==> !old(self).hits(seq![BusOp::SetPullUp(pin, enabled)]),
            r matches Err(e) ==> e == LcdError::I2c,
    {
        self.attempt(BusOp::SetPullUp(pin, enabled))
    }

    /// Drive a pin to the given level.
    pub fn digital_write(&mut self, pin: Mcp23017Pin, level: bool) -> (r: Result<(), LcdError>)
        requires
            old(self).wf(),
        ensures
            final(self).wf(),
            final(self).inputs@ == old(self).inputs@,
            final(self).fail_at == old(self).fail_at,
            final(self).ops@ == old(self).after(seq![BusOp::WriteLevel(pin, level)]),
            r is Ok <==> !old(self).hits(seq![BusOp::WriteLevel(pin, level)]),
            r matches Err(e) ==> e == LcdError::I2c,
    {
        self.attempt(BusOp::WriteLevel(pin, level))
    }

    /// Sample a pin's level.
    pub fn digital_read(&mut self, pin: Mcp23017Pin) -> (r: Result<bool, LcdError>)
        requires
            old(self).wf(),
        ensures
            final(self).wf(),
            final(self).inputs@ == old(self).inputs@,
            final(self).fail_at == old(self).fail_at,
            final(self).ops@ == old(self).after(seq![BusOp::ReadLevel(pin)]),
            r is Ok <==> !old(self).hits(seq![BusOp::ReadLevel(pin)]),
            r matches Ok(level) ==> level == old(self).inputs@[pin.num() as int],
            r matches Err(e) ==> e == LcdError::I2c,
    {
        match self.attempt(BusOp::ReadLevel(pin)) {
            Ok(()) => Ok(self.inputs[pin.num() as usize]),
            Err(e) => Err(e),
        }
    }

    /// Block for the given number of milliseconds. Waiting cannot fail.
    pub fn delay_ms(&mut self, ms: u32)
        requires
            old(self).wf(),
        ensures
            final(self).wf(),
            final(self).inputs@ == old(self).inputs@,
            final(self).fail_at == old(self).fail_at,
            final(self).ops@ == old(self).ops@.push(BusOp::WaitMs(ms)),
            !old(self).hits(seq![BusOp::WaitMs(ms)]),
    {
        self.ops.push(BusOp::WaitMs(ms));
    }

    /// Block for the given number of microseconds. Waiting cannot fail.
    pub fn delay_us(&mut self, us: u32)
        requires
            old(self).wf(),
        ensures
            final(self).wf(),
            final(self).inputs@ == old(self).inputs@,
            final(self).fail_at == old(self).fail_at,
            final(self).ops@ == old(self).ops@.push(BusOp::WaitUs(us)),
            !old(self).hits(seq![BusOp::WaitUs(us)]),
    {
        self.ops.push(BusOp::WaitUs(us));
    }

    /// Issuing `e1` and then `e2` from one state behaves as issuing their
    /// concatenation: when `e1` goes through, whether the whole run fails,
    /// and what it records, is decided by `e2` from the advanced state.
    pub proof fn lemma_step_ok(b0: Bus, b1: Bus, e1: Seq<BusOp>, e2: Seq<BusOp>)
        requires
            !b0.hits(e1),
            b1.ops@ == b0.ops@ + e1,
            b1.fail_at == b0.fail_at,
        ensures
            b0.hits(e1 + e2) == b1.hits(e2),
            b1.after(e2) == b0.after(e1 + e2),
    {
        let k0 = b0.fail_index() - b0.ops@.len();
        let k1 = b1.fail_index() - b1.ops@.len();
        assert(b0.hits(e1 + e2) == b1.hits(e2)) by {
            if b0.fail_at is Some {
                if 0 <= k0 < e1.len() {
                    assert((e1 + e2)[k0] == e1[k0]);
                } else if e1.len() <= k0 < e1.len() + e2.len() {
                    assert((e1 + e2)[k0] == e2[k0 - e1.len()]);
                }
            }
        }
        if b1.hits(e2) {
            assert((e1 + e2).take(e1.len() + k1) =~= e1 + e2.take(k1));
            assert(b1.after(e2) =~= b0.after(e1 + e2));
        } else {
            assert(b1.after(e2) =~= b0.after(e1 + e2));
        }
    }

    /// When `e1` already runs into the failure, appending more operations
    /// changes nothing: the run still fails and records the same prefix.
    pub proof fn lemma_step_err(b0: Bus, e1: Seq<BusOp>, e2: Seq<BusOp>)
        requires
            b0.hits(e1),
        ensures
            b0.hits(e1 + e2),
            b0.after(e1 + e2) == b0.after(e1),
    {
        let k0 = b0.fail_index() - b0.ops@.len();
        assert((e1 + e2)[k0] == e1[k0]);
        assert((e1 + e2).take(k0) =~= e1.take(k0));
        assert(b0.after(e1 + e2) =~= b0.after(e1));
    }

    /// Composition step for a sub-operation that went through: relative to a
    /// base state `b0` that already issued `done`, the whole of `done + sub`
    /// went through.
    pub proof fn lemma_sub_ok(b0: Bus, pre: Bus, post: Bus, done: Seq<BusOp>, sub: Seq<BusOp>)
        requires
            !b0.hits(done),
            pre.ops@ == b0.ops@ + done,
            pre.fail_at == b0.fail_at,
            !pre.hits(sub),
            post.ops@ == pre.ops@ + sub,
        ensures
            !b0.hits(done + sub),
            post.ops@ == b0.ops@ + (done + sub),
    {
        Bus::lemma_step_ok(b0, pre, done, sub);
        assert(post.ops@ =~= b0.ops@ + (done + sub));
    }

    /// Bookkeeping for one operation of a planned sequence `e`: a base state
    /// `b0` had issued the first `k` operations, and `pre` then attempted
    /// `e[k]`. On success the first `k + 1` operations stand issued; on
    /// failure the whole plan fails and what stands recorded is its prefix.
    pub proof fn lemma_one_bookkeeping(b0: Bus, pre: Bus, post: Bus, e: Seq<BusOp>, k: int)
        requires
            0 <= k < e.len(),
            pre.ops@ == b0.ops@ + e.take(k),
            pre.fail_at == b0.fail_at,
            !b0.hits(e.take(k)),
            post.ops@ == pre.after(seq![e[k]]),
        ensures
            !pre.hits(seq![e[k]]) ==> post.ops@ == b0.ops@ + e.take(k + 1) && !b0.hits(
                e.take(k + 1),
            ),
            pre.hits(seq![e[k]]) ==> b0.hits(e) && post.ops@ == b0.after(e),
    {
        if pre.hits(seq![e[k]]) {
            Bus::lemma_sub_err(b0, pre, post, e.take(k), seq![e[k]], e.skip(k + 1));
            assert(e.take(k) + (seq![e[k]] + e.skip(k + 1)) =~= e);
        } else {
            assert(pre.after(seq![e[k]]) =~= pre.ops@ + seq![e[k]]);
            Bus::lemma_sub_ok(b0, pre, post, e.take(k), seq![e[k]]);
            assert(e.take(k) + seq![e[k]] =~= e.take(k + 1));
        }
    }

    /// Composition step for a sub-operation that failed: relative to a base
    /// state `b0` that already issued `done`, the whole planned sequence
    /// `done + sub + rest` fails, and what stands recorded is its prefix.
    pub proof fn lemma_sub_err(
        b0: Bus,
        pre: Bus,
        post: Bus,
        done: Seq<BusOp>,
        sub: Seq<BusOp>,
        rest: Seq<BusOp>,
    )
        requires
            !b0.hits(done),
            pre.ops@ == b0.ops@ + done,
            pre.fail_at == b0.fail_at,
            pre.hits(sub),
            post.ops@ == pre.after(sub),
        ensures
            b0.hits(done + (sub + rest)),
            post.ops@ == b0.after(done + (sub + rest)),
    {
        Bus::lemma_step_err(pre, sub, rest);
        Bus::lemma_step_ok(b0, pre, done, sub + rest);
    }
}

} // verus!
