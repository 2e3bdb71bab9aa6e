//! What holds of whole runs: of interleaved writes to the two channels, of
//! a run of the harness, and of faults.

use vstd::prelude::*;
use crate::display::{Screen, NEWLINE};
use crate::display_laws::lemma_put_all_concat;
use crate::harness::{returned, started, Phase, Progress};
use crate::panic_policy::{log_after_fault, screen_after_fault, Mode};
use crate::ports::{after_send, exits, is_idle, lemma_append_sends, lemma_push, sends, sent_bytes, ExitCode, Op};
use crate::text::{header, ok_marker, starting};

verus! {

/// One request to write: to the display or to the diagnostic channel.
pub enum Write {
    Show(Seq<u8>),
    Log(Seq<u8>),
}

/// What the two drivers have put out.
pub struct Outputs {
    pub screen: Screen,
    pub log: Seq<Op>,
}

/// The bytes that a script asks to show, in order.
pub open spec fn shown(script: Seq<Write>) -> Seq<u8>
    decreases script.len(),
{
    if script.len() == 0 {
        Seq::empty()
    } else {
        match script.last() {
            Write::Show(b) => shown(script.drop_last()) + b,
            Write::Log(_) => shown(script.drop_last()),
        }
    }
}

/// The bytes that a script asks to transmit, in order.
pub open spec fn logged(script: Seq<Write>) -> Seq<u8>
    decreases script.len(),
{
    if script.len() == 0 {
        Seq::empty()
    } else {
        match script.last() {
            Write::Show(_) => logged(script.drop_last()),
            Write::Log(b) => logged(script.drop_last()) + b,
        }
    }
}

/// The outputs after the requests of a script, first to last.
pub open spec fn played(o: Outputs, script: Seq<Write>) -> Outputs
    decreases script.len(),
{
    if script.len() == 0 {
        o
    } else {
        let before = played(o, script.drop_last());
        match script.last() {
            Write::Show(b) => Outputs { screen: before.screen.put_all(b), ..before },
            Write::Log(b) => Outputs { log: after_send(before.log, b), ..before },
        }
    }
}

/// Bytes appended to a record that does not end in the idle state give a
/// record that does not end in it either.
pub proof fn lemma_sends_keep_awake(log: Seq<Op>, bytes: Seq<u8>)
    requires
        !is_idle(log),
    ensures
        !is_idle(log + sends(bytes)),
{
    if bytes.len() > 0 {
        assert((log + sends(bytes)).last() == Op::Send(bytes.last()));
    } else {
        assert(log + sends(bytes) =~= log);
    }
}

/// The two channels are independent, and each keeps the order of its
/// requests and loses nothing: however writes to the display and to the
/// diagnostic channel interleave, the bytes on the channel are those
/// requested for it, in the order of the requests, after what was sent
/// before; the display is as if its texts had been written alone; and the
/// exit port is not touched.
pub proof fn lemma_channels_are_independent(o: Outputs, script: Seq<Write>)
    requires
        !is_idle(o.log),
    ensures
        played(o, script).log == o.log + sends(logged(script)),
        sent_bytes(played(o, script).log) == sent_bytes(o.log) + logged(script),
        exits(played(o, script).log) == exits(o.log),
        played(o, script).screen == o.screen.put_all(shown(script)),
    decreases script.len(),
{
    if script.len() == 0 {
        assert(o.log + sends(logged(script)) =~= o.log);
        assert(sent_bytes(o.log) + logged(script) =~= sent_bytes(o.log));
    } else {
        let front = script.drop_last();
        lemma_channels_are_independent(o, front);
        lemma_sends_keep_awake(o.log, logged(front));
        lemma_append_sends(o.log, logged(script));
        match script.last() {
            Write::Show(b) => {
                lemma_put_all_concat(o.screen, shown(front), b);
            },
            Write::Log(b) => {
                assert(o.log + sends(logged(front)) + sends(b) =~= o.log + sends(
                    logged(front) + b,
                ));
            },
        }
    }
}

/// The run after a request to begin and the return of `k` tests.
pub open spec fn passed(names: Seq<Seq<u8>>, p: Progress, k: nat) -> Progress
    decreases k,
{
    if k == 0 {
        started(names, p)
    } else {
        returned(names, passed(names, p, (k - 1) as nat))
    }
}

/// What the diagnostic channel carries when the first `k` tests have
/// returned: the announcement of the number of tests, then for each test
/// its starting marker and its success marker.
pub open spec fn transcript(names: Seq<Seq<u8>>, k: nat) -> Seq<u8>
    decreases k,
{
    if k == 0 {
        header(names.len())
    } else {
        transcript(names, (k - 1) as nat) + starting(names[k - 1]) + ok_marker()
    }
}

/// A fresh run: the phase `Idle` over a given record.
pub open spec fn fresh(log: Seq<Op>) -> Progress {
    Progress { log, phase: Phase::Idle }
}

/// While the tests return, the harness reports each in turn: when `k`
/// tests have returned and one more is registered, that one is running, and
/// the channel carries the transcript of the `k` and the starting marker of
/// the one that runs.
pub proof fn lemma_tests_run_in_order(names: Seq<Seq<u8>>, log: Seq<Op>, k: nat)
    requires
        !is_idle(log),
        k < names.len() <= usize::MAX,
    ensures
        passed(names, fresh(log), k) == (Progress {
            log: log + sends(transcript(names, k) + starting(names[k as int])),
            phase: Phase::Running(k as usize),
        }),
    decreases k,
{
    if k == 0 {
    } else {
        let j = (k - 1) as nat;
        lemma_tests_run_in_order(names, log, j);
        let before = passed(names, fresh(log), j);
        lemma_sends_keep_awake(log, transcript(names, j) + starting(names[j as int]));
        assert(before.log + sends(ok_marker() + starting(names[k as int])) =~= log + sends(
            transcript(names, k) + starting(names[k as int]),
        ));
    }
}

/// When all registered tests return, the run is completed: the channel
/// carries the whole transcript, and the exit port is written exactly once,
/// with `Success`, as the last operation of all.
pub proof fn lemma_all_tests_pass(names: Seq<Seq<u8>>, log: Seq<Op>)
    requires
        !is_idle(log),
        exits(log) == 0,
        names.len() <= usize::MAX,
    ensures
        passed(names, fresh(log), names.len()) == (Progress {
            log: (log + sends(transcript(names, names.len()))).push(Op::Exit(ExitCode::Success)),
            phase: Phase::Completed,
        }),
        exits(passed(names, fresh(log), names.len()).log) == 1,
        sent_bytes(passed(names, fresh(log), names.len()).log) == sent_bytes(log) + transcript(
            names,
            names.len(),
        ),
{
    let k = names.len();
    let whole = log + sends(transcript(names, k));
    lemma_append_sends(log, transcript(names, k));
    lemma_sends_keep_awake(log, transcript(names, k));
    lemma_push(whole, Op::Exit(ExitCode::Success));
    if k == 0 {
    } else {
        let j = (k - 1) as nat;
        lemma_tests_run_in_order(names, log, j);
        let before = passed(names, fresh(log), j);
        lemma_sends_keep_awake(log, transcript(names, j) + starting(names[j as int]));
        assert(before.log + sends(ok_marker()) =~= whole);
    }
}

/// When the first `k` tests return and the next one faults, the channel
/// carries the transcript of the `k`, the starting marker of the test that
/// faulted and the fault's payload with a newline; then the exit port is
/// written with `Failed` and the machine idles. The run writes no `Success`
/// to the exit port, and no later request to the harness or fault changes
/// the record.
pub proof fn lemma_fault_ends_the_run(
    names: Seq<Seq<u8>>,
    log: Seq<Op>,
    k: nat,
    payload: Seq<u8>,
)
    requires
        !is_idle(log),
        exits(log) == 0,
        k < names.len() <= usize::MAX,
    ensures
        ({
            let before = passed(names, fresh(log), k);
            let record = log_after_fault(Mode::Test, before.log, payload);
            let halted = Progress { log: record, phase: before.phase };
            &&& record == (log + sends(
                transcript(names, k) + starting(names[k as int]) + payload.push(NEWLINE),
            )).push(Op::Exit(ExitCode::Failed)).push(Op::Idle)
            &&& is_idle(record)
            &&& exits(record) == 1
            &&& forall|i: int|
                log.len() <= i < record.len() ==> #[trigger] record[i] != Op::Exit(
                    ExitCode::Success,
                )
            &&& returned(names, halted) == halted
            &&& started(names, halted) == halted
        }),
{
    lemma_tests_run_in_order(names, log, k);
    let before = passed(names, fresh(log), k);
    let said = transcript(names, k) + starting(names[k as int]);
    let all = said + payload.push(NEWLINE);
    lemma_sends_keep_awake(log, said);
    lemma_sends_keep_awake(log, all);
    lemma_append_sends(log, all);
    assert(before.log + sends(payload.push(NEWLINE)) =~= log + sends(all));
    lemma_push(log + sends(all), Op::Exit(ExitCode::Failed));
    lemma_push((log + sends(all)).push(Op::Exit(ExitCode::Failed)), Op::Idle);
    let record = log_after_fault(Mode::Test, before.log, payload);
    assert forall|i: int| log.len() <= i < record.len() implies #[trigger] record[i] != Op::Exit(
        ExitCode::Success,
    ) by {
        if i < log.len() + all.len() {
            assert(record[i] == Op::Send(all[i - log.len()]));
        }
    }
}

/// A fault is final: it leaves the machine in the idle state, and a second
/// fault, in whatever mode and with whatever payload, changes neither the
/// record of port operations nor the display.
pub proof fn lemma_second_fault_does_nothing(
    first: Mode,
    second: Mode,
    screen: Screen,
    log: Seq<Op>,
    payload: Seq<u8>,
    again: Seq<u8>,
)
    ensures
        is_idle(log_after_fault(first, log, payload)),
        log_after_fault(second, log_after_fault(first, log, payload), again) == log_after_fault(
            first,
            log,
            payload,
        ),
        screen_after_fault(
            second,
            screen_after_fault(first, screen, log, payload),
            log_after_fault(first, log, payload),
            again,
        ) == screen_after_fault(first, screen, log, payload),
{
}

} // verus!
