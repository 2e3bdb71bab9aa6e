//! The start-up sequence of the machine, from the loader's call to the
//! permanent idle state.

use vstd::prelude::*;
use vstd::string::StringSliceAdditionalSpecFns;
use bootloader::BootInfo;
use crate::display::{Display, Screen};
use crate::display_laws::lemma_put_all_concat;
use crate::panic_policy::Mode;
use crate::ports::{is_idle, Op, Ports};
use crate::text::{boot_report, farewell, greeting};

verus! {

/// How far start-up has come.
#[derive(Clone, Copy, Debug, PartialEq, Eq, Structural)]
pub enum Stage {
    /// The loader has just called.
    Entered,
    /// The root of the page tables is being read.
    Probing,
    /// The display and the diagnostic channel are being initialised.
    Initialising,
    /// What the loader handed over is being described.
    Describing,
    /// The registered tests are running.
    Testing,
    /// Start-up is over.
    Idle,
}

/// What the program around the library does before it asks again.
#[derive(Clone, Copy, Debug, PartialEq, Eq, Structural)]
pub enum Task {
    /// Read the control register that holds the root of the page tables.
    ReadPageTableRoot,
    /// Initialise the display and the diagnostic channel.
    InitDrivers,
    /// Describe what the loader handed over, and pass the text on.
    DescribeBootInfo,
    /// Run the test harness to its end.
    RunTests,
    /// Enter the idle loop and never ask again.
    Idle,
}

/// The machine as a mathematical value.
pub struct Machine {
    pub screen: Screen,
    pub log: Seq<Op>,
    pub stage: Stage,
}

/// The number of steps that a stage is away from the end of start-up, at
/// most.
pub open spec fn rank(stage: Stage) -> nat {
    match stage {
        Stage::Entered => 5,
        Stage::Probing => 4,
        Stage::Initialising => 3,
        Stage::Describing => 2,
        Stage::Testing => 1,
        Stage::Idle => 0,
    }
}

/// The machine at the end of start-up: the farewell on the display, and
/// the idle state entered.
pub open spec fn finished(m: Machine) -> Machine {
    Machine { screen: m.screen.put_all(farewell()), log: m.log.push(Op::Idle), stage: Stage::Idle }
}

/// The machine after one step of start-up. The first two steps hand out
/// the register read and the initialisation of the drivers and write
/// nothing; the greeting is shown by the step that follows them, the report
/// by the next, and the farewell by the last. `report` is read only in the
/// stage `Describing`. A machine that idles stays as it is.
pub open spec fn advanced(mode: Mode, m: Machine, report: Seq<u8>) -> Machine {
    if is_idle(m.log) {
        m
    } else {
        match m.stage {
            Stage::Entered => Machine { stage: Stage::Probing, ..m },
            Stage::Probing => Machine { stage: Stage::Initialising, ..m },
            Stage::Initialising => Machine {
                screen: m.screen.put_all(greeting()),
                stage: Stage::Describing,
                ..m
            },
            Stage::Describing => {
                let shown = Machine { screen: m.screen.put_all(boot_report(report)), ..m };
                if mode == Mode::Test {
                    Machine { stage: Stage::Testing, ..shown }
                } else {
                    finished(shown)
                }
            },
            Stage::Testing => finished(m),
            Stage::Idle => Machine { log: m.log.push(Op::Idle), ..m },
        }
    }
}

/// The task that goes with a step that led to the machine `after`.
pub open spec fn task_of(after: Machine) -> Task {
    if is_idle(after.log) {
        Task::Idle
    } else {
        match after.stage {
            Stage::Probing => Task::ReadPageTableRoot,
            Stage::Initialising => Task::InitDrivers,
            Stage::Describing => Task::DescribeBootInfo,
            _ => Task::RunTests,
        }
    }
}

/// The structure that the loader hands to the entry point. The library
/// looks at nothing inside it.
#[verifier::external_type_specification]
#[verifier::external_body]
pub struct LoaderBootInfo(bootloader::BootInfo);

/// The regions of the memory map of a `bootloader::BootInfo`, in the map's
/// order: of each the number of its first frame and the number of the first
/// frame behind it.
pub uninterp spec fn frame_ranges(boot_info: BootInfo) -> Seq<(u64, u64)>;

/// The text that `Debug` formatting gives for a `bootloader::BootInfo`, as
/// bytes.
pub uninterp spec fn debug_text(boot_info: BootInfo) -> Seq<u8>;

/// The greatest frame number whose address fits in 64 bits, frames being
/// 4096 bytes long.
pub const MAX_FRAME: u64 = 0x000f_ffff_ffff_ffff;

/// Whether every frame number of `frames` has an address.
pub open spec fn addressable(frames: Seq<(u64, u64)>) -> bool {
    forall|i: int|
        0 <= i < frames.len() ==> (#[trigger] frames[i]).0 <= MAX_FRAME && frames[i].1
            <= MAX_FRAME
}

/// Walks the public field `memory_map` of a `bootloader::BootInfo`, which
/// dereferences to the slice of its regions, and hands out the two public
/// frame numbers of each region's `range`, in the slice's order.
#[verifier::external_body]
fn memory_frames(boot_info: &BootInfo) -> (frames: Vec<(u64, u64)>)
    ensures
        frames@ == frame_ranges(*boot_info),
{
    boot_info.memory_map.iter().map(
        |r| (r.range.start_frame_number, r.range.end_frame_number),
    ).collect()
}

/// Formats a `bootloader::BootInfo` with its `Debug` impl and hands out the
/// bytes of the text. The formatting multiplies each frame number of the
/// memory map by the frame length, so the numbers must have addresses. The
/// text depends on the structure alone; of what it holds nothing is claimed.
#[verifier::external_body]
fn describe(boot_info: &BootInfo) -> (text: Vec<u8>)
    requires
        addressable(frame_ranges(*boot_info)),
    ensures
        text@ == debug_text(*boot_info),
{
    format!("{:?}", boot_info).into_bytes()
}

/// Whether every frame number of `frames` has an address.
pub fn all_addressable(frames: &[(u64, u64)]) -> (r: bool)
    ensures
        r == addressable(frames@),
{
    let mut i: usize = 0;
    while i < frames.len()
        invariant
            i <= frames@.len(),
            forall|j: int|
                0 <= j < i ==> (#[trigger] frames@[j]).0 <= MAX_FRAME && frames@[j].1 <= MAX_FRAME,
        decreases frames@.len() - i,
    {
        let pair = frames[i];
        if pair.0 > MAX_FRAME || pair.1 > MAX_FRAME {
            return false;
        }
        i += 1;
    }
    true
}

/// The report that a step shows of what the loader handed over: its
/// description in the stage `Describing` of a machine that does not idle,
/// where every frame number of the memory map has an address; otherwise the
/// empty report.
pub open spec fn report_of(m: Machine, boot_info: BootInfo) -> Seq<u8> {
    if m.stage == Stage::Describing && !is_idle(m.log) && addressable(frame_ranges(boot_info)) {
        debug_text(boot_info)
    } else {
        Seq::empty()
    }
}

/// The start-up sequencer.
pub struct Boot {
    mode: Mode,
    stage: Stage,
}

impl Boot {
    /// The build mode.
    pub closed spec fn mode(&self) -> Mode {
        self.mode
    }

    /// The stage of start-up.
    pub closed spec fn stage(&self) -> Stage {
        self.stage
    }

    /// A sequencer at the loader's call.
    pub fn new(mode: Mode) -> (b: Boot)
        ensures
            b.mode() == mode,
            b.stage() == Stage::Entered,
    {
        Boot { mode, stage: Stage::Entered }
    }

    /// The stage of start-up.
    pub fn current_stage(&self) -> (s: Stage)
        ensures
            s == self.stage(),
    {
        self.stage
    }

    /// Takes one step of start-up and says what the program does next.
    /// `report` describes what the loader handed over.
    pub fn advance(&mut self, report: &[u8], display: &mut Display, ports: &mut Ports) -> (t:
        Task)
        requires
            old(display).wf(),
            old(ports).wf(),
        ensures
            final(display).wf(),
            final(ports).wf(),
            final(self).mode() == old(self).mode(),
            (Machine {
                screen: final(display)@,
                log: final(ports)@,
                stage: final(self).stage(),
            }) == advanced(
                old(self).mode(),
                Machine { screen: old(display)@, log: old(ports)@, stage: old(self).stage() },
                report@,
            ),
            t == task_of(
                Machine { screen: final(display)@, log: final(ports)@, stage: final(self).stage() },
            ),
    {
        if ports.is_idle() {
            return Task::Idle;
        }
        match self.stage {
            Stage::Entered => {
                self.stage = Stage::Probing;
                Task::ReadPageTableRoot
            },
            Stage::Probing => {
                self.stage = Stage::Initialising;
                Task::InitDrivers
            },
            Stage::Initialising => {
                display.write_text("Hello World!\n");
                self.stage = Stage::Describing;
                Task::DescribeBootInfo
            },
            Stage::Describing => {
                proof {
                    let a = "boot info: ".spec_bytes();
                    lemma_put_all_concat(display@, a, report@);
                    lemma_put_all_concat(display@, a + report@, "\n".spec_bytes());
                }
                display.write_text("boot info: ");
                display.write_bytes(report);
                display.write_text("\n");
                match self.mode {
                    Mode::Test => {
                        self.stage = Stage::Testing;
                        Task::RunTests
                    },
                    Mode::Normal => {
                        display.write_text("It didn't crash\n");
                        ports.idle();
                        self.stage = Stage::Idle;
                        Task::Idle
                    },
                }
            },
            Stage::Testing => {
                display.write_text("It didn't crash\n");
                ports.idle();
                self.stage = Stage::Idle;
                Task::Idle
            },
            Stage::Idle => {
                ports.idle();
                Task::Idle
            },
        }
    }
}

impl Boot {
    /// Takes one step of start-up with what the loader handed over. In the
    /// stage `Describing` the description of `boot_info` is the report that
    /// is shown, or the empty report where a frame number of its memory map
    /// has no address. In every other stage, and once the machine idles,
    /// nothing of it is read.
    pub fn advance_with(
        &mut self,
        boot_info: &BootInfo,
        display: &mut Display,
        ports: &mut Ports,
    ) -> (t: Task)
        requires
            old(display).wf(),
            old(ports).wf(),
        ensures
            final(display).wf(),
            final(ports).wf(),
            final(self).mode() == old(self).mode(),
            (Machine {
                screen: final(display)@,
                log: final(ports)@,
                stage: final(self).stage(),
            }) == advanced(
                old(self).mode(),
                Machine { screen: old(display)@, log: old(ports)@, stage: old(self).stage() },
                report_of(
                    Machine { screen: old(display)@, log: old(ports)@, stage: old(self).stage() },
                    *boot_info,
                ),
            ),
            t == task_of(
                Machine { screen: final(display)@, log: final(ports)@, stage: final(self).stage() },
            ),
    {
        let mut report: Vec<u8> = Vec::new();
        let describing = match self.stage {
            Stage::Describing => !ports.is_idle(),
            _ => false,
        };
        if describing {
            let frames = memory_frames(boot_info);
            if all_addressable(frames.as_slice()) {
                report = describe(boot_info);
            }
        }
        self.advance(report.as_slice(), display, ports)
    }
}

/// The machine after one step of start-up for each report of `reports`,
/// first to last.
pub open spec fn advanced_by(mode: Mode, m: Machine, reports: Seq<Seq<u8>>) -> Machine
    decreases reports.len(),
{
    if reports.len() == 0 {
        m
    } else {
        advanced(mode, advanced_by(mode, m, reports.drop_last()), reports.last())
    }
}

/// A step either leaves the machine idle or brings it closer to the end of
/// start-up, and a machine that idles stays as it is.
pub proof fn lemma_step_nears_the_end(mode: Mode, m: Machine, report: Seq<u8>)
    ensures
        is_idle(m.log) ==> advanced(mode, m, report) == m,
        is_idle(advanced(mode, m, report).log) || (rank(advanced(mode, m, report).stage) < rank(
            m.stage,
        ) && advanced(mode, m, report).stage != Stage::Idle),
{
}

/// Start-up never falls off its end: from the loader's call, whatever is
/// reported, five steps leave the machine in the idle state, and every step
/// after that leaves it there.
pub proof fn lemma_start_up_ends_idle(mode: Mode, m: Machine, reports: Seq<Seq<u8>>)
    requires
        m.stage == Stage::Entered,
        reports.len() >= 5,
    ensures
        is_idle(advanced_by(mode, m, reports).log),
{
    lemma_steps_near_the_end(mode, m, reports);
}

/// After some steps the machine idles, or it has not reached the stage
/// `Idle` and each step has brought it closer.
pub proof fn lemma_steps_near_the_end(mode: Mode, m: Machine, reports: Seq<Seq<u8>>)
    requires
        m.stage != Stage::Idle,
    ensures
        is_idle(advanced_by(mode, m, reports).log) || (advanced_by(mode, m, reports).stage
            != Stage::Idle && rank(advanced_by(mode, m, reports).stage) + reports.len() <= rank(
            m.stage,
        )),
    decreases reports.len(),
{
    if reports.len() > 0 {
        lemma_steps_near_the_end(mode, m, reports.drop_last());
        lemma_step_nears_the_end(mode, advanced_by(mode, m, reports.drop_last()), reports.last());
    }
}

} // verus!
