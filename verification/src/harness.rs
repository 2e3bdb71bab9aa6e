//! The test harness: which test runs next, what is reported on the
//! diagnostic channel, and when the exit port is written.

use vstd::prelude::*;
use vstd::string::StringSliceAdditionalSpecFns;
use crate::panic_policy::lemma_send_twice;
use crate::ports::{after_exit, is_idle, sends, ExitCode, Op, Ports};
use crate::text::{header, ok_marker, render_decimal, starting};

verus! {

/// Where a run of the registered tests stands.
#[derive(Clone, Copy, Debug, PartialEq, Eq, Structural)]
pub enum Phase {
    /// The run has not begun.
    Idle,
    /// The test with this index is running.
    Running(usize),
    /// Every test has returned and the exit port was written.
    Completed,
}

/// What the program around the harness does next.
#[derive(Clone, Copy, Debug, PartialEq, Eq, Structural)]
pub enum Directive {
    /// Call the registered test with this index, then report its return.
    Run(usize),
    /// Nothing is left for the harness to do.
    Stop,
}

/// A run as a mathematical value: the record of port operations and the
/// phase.
pub struct Progress {
    pub log: Seq<Op>,
    pub phase: Phase,
}

/// Whether the harness acts on a request to begin.
pub open spec fn can_start(p: Progress) -> bool {
    !is_idle(p.log) && p.phase == Phase::Idle
}

/// The run after a request to begin. In the phase `Idle` of a machine that
/// does not idle, the number of tests is announced; then the first test is
/// announced and runs, or, with no test at all, the exit port is written with
/// `Success`. Otherwise nothing changes.
pub open spec fn started(names: Seq<Seq<u8>>, p: Progress) -> Progress {
    if !can_start(p) {
        p
    } else if names.len() == 0 {
        Progress {
            log: after_exit(p.log + sends(header(0)), ExitCode::Success),
            phase: Phase::Completed,
        }
    } else {
        Progress {
            log: p.log + sends(header(names.len()) + starting(names[0])),
            phase: Phase::Running(0),
        }
    }
}

/// The index of the test whose return the harness acts on, if there is one.
pub open spec fn awaited(names: Seq<Seq<u8>>, p: Progress) -> Option<usize> {
    match p.phase {
        Phase::Running(i) => if !is_idle(p.log) && i < names.len() {
            Some(i)
        } else {
            None
        },
        _ => None,
    }
}

/// The run after the running test has returned. Its success is reported;
/// then the next test is announced and runs, or, after the last one, the exit
/// port is written with `Success`. Where no test is awaited nothing changes.
pub open spec fn returned(names: Seq<Seq<u8>>, p: Progress) -> Progress {
    match awaited(names, p) {
        None => p,
        Some(i) => if i + 1 < names.len() {
            Progress {
                log: p.log + sends(ok_marker() + starting(names[i + 1])),
                phase: Phase::Running((i + 1) as usize),
            }
        } else {
            Progress {
                log: after_exit(p.log + sends(ok_marker()), ExitCode::Success),
                phase: Phase::Completed,
            }
        },
    }
}

/// The directive that goes with a step from `before` to `after`: run the
/// test that the step has started, or stop.
pub open spec fn directive(before: Progress, after: Progress) -> Directive {
    match after.phase {
        Phase::Running(i) => if after.phase != before.phase {
            Directive::Run(i)
        } else {
            Directive::Stop
        },
        _ => Directive::Stop,
    }
}

/// The harness: the names of the registered tests, in the order in which
/// they run, and the phase of the run.
pub struct Harness {
    names: Vec<Vec<u8>>,
    phase: Phase,
}

impl Harness {
    /// The names of the registered tests.
    pub closed spec fn names(&self) -> Seq<Seq<u8>> {
        Seq::new(self.names@.len(), |i: int| self.names@[i]@)
    }

    /// The phase of the run.
    pub closed spec fn phase(&self) -> Phase {
        self.phase
    }

    /// The run that this harness and a record of port operations make up.
    pub open spec fn progress(&self, log: Seq<Op>) -> Progress {
        Progress { log, phase: self.phase() }
    }

    /// The invariant: a running test is a registered one.
    pub open spec fn wf(&self) -> bool {
        match self.phase() {
            Phase::Running(i) => i < self.names().len(),
            _ => true,
        }
    }

    /// A harness for the tests with these names, before the run.
    pub fn new(names: Vec<Vec<u8>>) -> (h: Harness)
        ensures
            h.wf(),
            h.phase() == Phase::Idle,
            h.names() == Seq::new(names@.len(), |i: int| names@[i]@),
    {
        Harness { names, phase: Phase::Idle }
    }

    /// The number of registered tests.
    pub fn count(&self) -> (n: usize)
        ensures
            n == self.names().len(),
    {
        self.names.len()
    }

    /// The phase of the run.
    pub fn current_phase(&self) -> (p: Phase)
        ensures
            p == self.phase(),
    {
        self.phase
    }

    /// Begins the run.
    pub fn start(&mut self, ports: &mut Ports) -> (d: Directive)
        requires
            old(self).wf(),
            old(ports).wf(),
        ensures
            final(self).wf(),
            final(ports).wf(),
            final(self).names() == old(self).names(),
            final(self).progress(final(ports)@) == started(
                old(self).names(),
                old(self).progress(old(ports)@),
            ),
            d == directive(old(self).progress(old(ports)@), final(self).progress(final(ports)@)),
    {
        if ports.is_idle() {
            return Directive::Stop;
        }
        match self.phase {
            Phase::Idle => {},
            _ => {
                return Directive::Stop;
            },
        }
        let ghost log = ports@;
        let count: usize = self.names.len();
        let digits = render_decimal(count);
        proof {
            let a = "Running ".spec_bytes();
            let c = " tests\n".spec_bytes();
            lemma_send_twice(log, a, digits@);
            lemma_send_twice(log, a + digits@, c);
        }
        ports.write_text("Running ");
        ports.write_bytes(digits.as_slice());
        ports.write_text(" tests\n");
        assert(ports@ == log + sends(header(count as nat)));
        if count == 0 {
            ports.exit(ExitCode::Success);
            self.phase = Phase::Completed;
            Directive::Stop
        } else {
            proof {
                let n = self.names()[0];
                assert(n == self.names[0]@);
                lemma_send_twice(log, header(count as nat), n);
                lemma_send_twice(log, header(count as nat) + n, "...\t".spec_bytes());
                assert(header(count as nat) + n + "...\t".spec_bytes() =~= header(count as nat)
                    + starting(n));
            }
            ports.write_bytes(self.names[0].as_slice());
            ports.write_text("...\t");
            self.phase = Phase::Running(0);
            Directive::Run(0)
        }
    }

    /// Reports that the running test has returned.
    pub fn test_returned(&mut self, ports: &mut Ports) -> (d: Directive)
        requires
            old(self).wf(),
            old(ports).wf(),
        ensures
            final(self).wf(),
            final(ports).wf(),
            final(self).names() == old(self).names(),
            final(self).progress(final(ports)@) == returned(
                old(self).names(),
                old(self).progress(old(ports)@),
            ),
            d == directive(old(self).progress(old(ports)@), final(self).progress(final(ports)@)),
    {
        if ports.is_idle() {
            return Directive::Stop;
        }
        let i: usize = match self.phase {
            Phase::Running(i) => i,
            _ => {
                return Directive::Stop;
            },
        };
        let ghost log = ports@;
        let total: usize = self.names.len();
        assert(i < self.names().len());
        ports.write_text("[ok]\n");
        if i + 1 < total {
            let next: usize = i + 1;
            proof {
                let n = self.names()[next as int];
                assert(n == self.names[next as int]@);
                lemma_send_twice(log, ok_marker(), n);
                lemma_send_twice(log, ok_marker() + n, "...\t".spec_bytes());
                assert(ok_marker() + n + "...\t".spec_bytes() =~= ok_marker() + starting(n));
            }
            ports.write_bytes(self.names[next].as_slice());
            ports.write_text("...\t");
            self.phase = Phase::Running(next);
            Directive::Run(next)
        } else {
            ports.exit(ExitCode::Success);
            self.phase = Phase::Completed;
            Directive::Stop
        }
    }
}

} // verus!
