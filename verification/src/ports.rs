//! The two hardware ports as one ordered record: the bytes of the
//! diagnostic channel, the exit signal to the machine monitor, and the entry
//! into the permanent idle state, in the order in which they were decided.

use vstd::prelude::*;
use vstd::string::StringSliceAdditionalSpecFns;

verus! {

/// The status handed to the machine monitor when emulation ends.
#[derive(Clone, Copy, Debug, PartialEq, Eq, Structural)]
pub enum ExitCode {
    Success,
    Failed,
}

impl ExitCode {
    /// The four-byte value written to the exit port.
    pub open spec fn value(self) -> u32 {
        match self {
            ExitCode::Success => 0x10,
            ExitCode::Failed => 0x11,
        }
    }

    /// The four-byte value written to the exit port.
    pub fn code(self) -> (r: u32)
        ensures
            r == self.value(),
    {
        match self {
            ExitCode::Success => 0x10,
            ExitCode::Failed => 0x11,
        }
    }
}

/// One operation on the hardware.
#[derive(Clone, Copy, Debug, PartialEq, Eq, Structural)]
pub enum Op {
    /// One byte on the diagnostic channel.
    Send(u8),
    /// One write of an exit code to the exit port.
    Exit(ExitCode),
    /// Entry into the permanent idle state.
    Idle,
}

/// The operations that transmit `bytes`, one per byte, in order.
pub open spec fn sends(bytes: Seq<u8>) -> Seq<Op> {
    Seq::new(bytes.len(), |i: int| Op::Send(bytes[i]))
}

/// The bytes that a record puts on the diagnostic channel, in order.
pub open spec fn sent_bytes(log: Seq<Op>) -> Seq<u8>
    decreases log.len(),
{
    if log.len() == 0 {
        Seq::empty()
    } else {
        match log.last() {
            Op::Send(b) => sent_bytes(log.drop_last()).push(b),
            _ => sent_bytes(log.drop_last()),
        }
    }
}

/// The number of exit-port writes in a record.
pub open spec fn exits(log: Seq<Op>) -> nat
    decreases log.len(),
{
    if log.len() == 0 {
        0
    } else {
        let last: nat = if log.last() is Exit {
            1
        } else {
            0
        };
        exits(log.drop_last()) + last
    }
}

/// Whether the record ends with the entry into the idle state.
pub open spec fn is_idle(log: Seq<Op>) -> bool {
    log.len() > 0 && log.last() == Op::Idle
}

/// Nothing follows the entry into the idle state, and the exit port is
/// written at most once.
pub open spec fn orderly(log: Seq<Op>) -> bool {
    &&& forall|i: int| 0 <= i < log.len() - 1 ==> #[trigger] log[i] != Op::Idle
    &&& exits(log) <= 1
}

/// The record after a request to transmit `bytes`: they follow what is
/// there, unless the machine idles.
pub open spec fn after_send(log: Seq<Op>, bytes: Seq<u8>) -> Seq<Op> {
    if is_idle(log) {
        log
    } else {
        log + sends(bytes)
    }
}

/// The record after a request to exit with `code`: one write to the exit
/// port, unless the machine idles or the port was written before.
pub open spec fn after_exit(log: Seq<Op>, code: ExitCode) -> Seq<Op> {
    if is_idle(log) || exits(log) > 0 {
        log
    } else {
        log.push(Op::Exit(code))
    }
}

/// The record after a request to idle: the entry into the idle state,
/// unless the machine idles already.
pub open spec fn after_idle(log: Seq<Op>) -> Seq<Op> {
    if is_idle(log) {
        log
    } else {
        log.push(Op::Idle)
    }
}

/// Appending an operation adds one to the count of exits if it is an exit,
/// and its byte to the bytes sent if it sends one.
pub proof fn lemma_push(log: Seq<Op>, op: Op)
    ensures
        exits(log.push(op)) == exits(log) + if op is Exit {
            1nat
        } else {
            0nat
        },
        sent_bytes(log.push(op)) == match op {
            Op::Send(b) => sent_bytes(log).push(b),
            _ => sent_bytes(log),
        },
{
    assert(log.push(op).drop_last() =~= log);
}

/// Transmitting bytes writes no exit code and adds exactly those bytes, in
/// order, to the bytes sent.
pub proof fn lemma_append_sends(log: Seq<Op>, bytes: Seq<u8>)
    ensures
        exits(log + sends(bytes)) == exits(log),
        sent_bytes(log + sends(bytes)) == sent_bytes(log) + bytes,
    decreases bytes.len(),
{
    if bytes.len() == 0 {
        assert(log + sends(bytes) =~= log);
        assert(sent_bytes(log) + bytes =~= sent_bytes(log));
    } else {
        let front = bytes.drop_last();
        lemma_append_sends(log, front);
        lemma_push(log + sends(front), Op::Send(bytes.last()));
        assert((log + sends(front)).push(Op::Send(bytes.last())) =~= log + sends(bytes));
        assert((sent_bytes(log) + front).push(bytes.last()) =~= sent_bytes(log) + bytes);
    }
}

/// The driver of the ports. It records each operation for the program
/// around it to perform, first to last.
pub struct Ports {
    log: Vec<Op>,
    exited: bool,
    idle: bool,
}

impl View for Ports {
    type V = Seq<Op>;

    closed spec fn view(&self) -> Seq<Op> {
        self.log@
    }
}

impl Ports {
    /// The driver's invariant: the record is orderly and the driver knows
    /// whether it holds an exit and whether it ends in the idle state.
    pub closed spec fn wf(&self) -> bool {
        &&& orderly(self.log@)
        &&& self.idle == is_idle(self.log@)
        &&& self.exited == (exits(self.log@) > 0)
    }

    /// A valid driver's record is orderly.
    pub proof fn lemma_orderly(&self)
        requires
            self.wf(),
        ensures
            orderly(self@),
    {
    }

    /// A driver with an empty record.
    pub fn new() -> (p: Ports)
        ensures
            p.wf(),
            p@ == Seq::<Op>::empty(),
    {
        Ports { log: Vec::new(), exited: false, idle: false }
    }

    /// Whether the machine has entered the permanent idle state.
    pub fn is_idle(&self) -> (r: bool)
        requires
            self.wf(),
        ensures
            r == is_idle(self@),
    {
        self.idle
    }

    /// Whether the exit port has been written.
    pub fn has_exited(&self) -> (r: bool)
        requires
            self.wf(),
        ensures
            r == (exits(self@) > 0),
    {
        self.exited
    }

    /// The number of operations recorded.
    pub fn len(&self) -> (n: usize)
        ensures
            n == self@.len(),
    {
        self.log.len()
    }

    /// The operation at position `i` of the record.
    pub fn op(&self, i: usize) -> (o: Op)
        requires
            i < self@.len(),
        ensures
            o == self@[i as int],
    {
        self.log[i]
    }

    /// Transmits one byte on the diagnostic channel.
    pub fn write_byte(&mut self, b: u8)
        requires
            old(self).wf(),
        ensures
            final(self).wf(),
            final(self)@ == after_send(old(self)@, seq![b]),
    {
        if !self.idle {
            proof {
                lemma_push(self.log@, Op::Send(b));
                assert(self.log@.push(Op::Send(b)) =~= self.log@ + sends(seq![b]));
            }
            self.log.push(Op::Send(b));
        }
    }

    /// Transmits `bytes` on the diagnostic channel, first to last.
    pub fn write_bytes(&mut self, bytes: &[u8])
        requires
            old(self).wf(),
        ensures
            final(self).wf(),
            final(self)@ == after_send(old(self)@, bytes@),
    {
        if self.idle {
            return ;
        }
        let ghost before = self.log@;
        let mut i: usize = 0;
        while i < bytes.len()
            invariant
                i <= bytes@.len(),
                before == old(self).log@,
                !is_idle(before),
                orderly(before),
                self.log@ == before + sends(bytes@.take(i as int)),
                self.exited == old(self).exited,
                self.idle == old(self).idle,
            decreases bytes@.len() - i,
        {
            self.log.push(Op::Send(bytes[i]));
            proof {
                assert(bytes@.take(i + 1) =~= bytes@.take(i as int).push(bytes@[i as int]));
                assert(self.log@ =~= before + sends(bytes@.take(i + 1)));
            }
            i += 1;
        }
        proof {
            assert(bytes@.take(i as int) =~= bytes@);
            lemma_append_sends(before, bytes@);
            let after = before + sends(bytes@);
            assert(self.log@ == after);
            assert forall|j: int| 0 <= j < after.len() implies #[trigger] after[j] != Op::Idle by {
                if j < before.len() {
                    assert(after[j] == before[j]);
                } else {
                    assert(after[j] == Op::Send(bytes@[j - before.len()]));
                }
            }
            if bytes@.len() == 0 {
                assert(after =~= before);
            }
        }
    }

    /// Transmits the bytes of `text` on the diagnostic channel.
    pub fn write_text(&mut self, text: &str)
        requires
            old(self).wf(),
        ensures
            final(self).wf(),
            final(self)@ == after_send(old(self)@, text.spec_bytes()),
    {
        self.write_bytes(text.as_bytes())
    }

    /// Writes `code` to the exit port, once.
    pub fn exit(&mut self, code: ExitCode)
        requires
            old(self).wf(),
        ensures
            final(self).wf(),
            final(self)@ == after_exit(old(self)@, code),
    {
        if !self.idle && !self.exited {
            proof {
                lemma_push(self.log@, Op::Exit(code));
            }
            self.log.push(Op::Exit(code));
            self.exited = true;
        }
    }

    /// Enters the permanent idle state.
    pub fn idle(&mut self)
        requires
            old(self).wf(),
        ensures
            final(self).wf(),
            final(self)@ == after_idle(old(self)@),
            is_idle(final(self)@),
    {
        if !self.idle {
            proof {
                lemma_push(self.log@, Op::Idle);
            }
            self.log.push(Op::Idle);
            self.idle = true;
        }
    }
}

} // verus!
