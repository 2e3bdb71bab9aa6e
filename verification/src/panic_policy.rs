//! The fault policy: what the machine does when it cannot go on.

use vstd::prelude::*;
use crate::display::{Display, Screen, NEWLINE};
use crate::ports::{after_exit, after_send, is_idle, sends, ExitCode, Op, Ports};

verus! {

/// The way the program was built.
#[derive(Clone, Copy, Debug, PartialEq, Eq, Structural)]
pub enum Mode {
    /// Faults are shown on the display.
    Normal,
    /// Faults are reported on the diagnostic channel and end emulation.
    Test,
}

/// The display after a fault with `payload`: in normal mode the payload and
/// a newline are written; in test mode, or once the machine idles, nothing.
pub open spec fn screen_after_fault(mode: Mode, screen: Screen, log: Seq<Op>, payload: Seq<u8>)
    -> Screen {
    if is_idle(log) || mode != Mode::Normal {
        screen
    } else {
        screen.put_all(payload).put(NEWLINE)
    }
}

/// The record of port operations after a fault with `payload`. Once the
/// machine idles, nothing is added. In normal mode the machine idles. In
/// test mode the payload and a newline go to the diagnostic channel, the
/// exit port is written with `Failed` unless it was written before, and the
/// machine idles.
pub open spec fn log_after_fault(mode: Mode, log: Seq<Op>, payload: Seq<u8>) -> Seq<Op> {
    if is_idle(log) {
        log
    } else {
        match mode {
            Mode::Normal => log.push(Op::Idle),
            Mode::Test => after_exit(log + sends(payload.push(NEWLINE)), ExitCode::Failed).push(
                Op::Idle,
            ),
        }
    }
}

/// Two requests to transmit, one after the other, transmit the two texts
/// as one.
pub proof fn lemma_send_twice(log: Seq<Op>, a: Seq<u8>, b: Seq<u8>)
    ensures
        after_send(after_send(log, a), b) == after_send(log, a + b),
{
    if !is_idle(log) {
        assert(!is_idle(log + sends(a))) by {
            if a.len() > 0 {
                assert((log + sends(a)).last() == Op::Send(a.last()));
            } else {
                assert(log + sends(a) =~= log);
            }
        }
        assert(log + sends(a) + sends(b) =~= log + sends(a + b));
    }
}

/// Handles a fault: reports `payload` as the mode asks and enters the
/// permanent idle state. A fault in a machine that idles does nothing.
pub fn on_fault(mode: Mode, payload: &[u8], display: &mut Display, ports: &mut Ports)
    requires
        old(display).wf(),
        old(ports).wf(),
    ensures
        final(display).wf(),
        final(ports).wf(),
        final(display)@ == screen_after_fault(mode, old(display)@, old(ports)@, payload@),
        final(ports)@ == log_after_fault(mode, old(ports)@, payload@),
        is_idle(final(ports)@),
{
    if ports.is_idle() {
        return ;
    }
    match mode {
        Mode::Normal => {
            display.write_bytes(payload);
            display.write_byte(NEWLINE);
            ports.idle();
        },
        Mode::Test => {
            proof {
                lemma_send_twice(ports@, payload@, seq![NEWLINE]);
                assert(payload@ + seq![NEWLINE] =~= payload@.push(NEWLINE));
            }
            ports.write_bytes(payload);
            ports.write_byte(NEWLINE);
            ports.exit(ExitCode::Failed);
            ports.idle();
        },
    }
}

} // verus!
