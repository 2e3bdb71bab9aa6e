use bare_console::boot::{all_addressable, Boot, Stage, Task, MAX_FRAME};
use bare_console::color::{Color, ColorCode};
use bare_console::display::{Display, BLANK, COLS};
use bare_console::harness::{Directive, Harness, Phase};
use bare_console::panic_policy::{on_fault, Mode};
use bare_console::ports::{ExitCode, Op, Ports};
use bare_console::text::render_decimal;
use bootloader::bootinfo::{FrameRange, MemoryMap, MemoryRegion, MemoryRegionType};
use bootloader::BootInfo;

fn ops(p: &Ports) -> Vec<Op> {
    (0..p.len()).map(|i| p.op(i)).collect()
}

fn sends(text: &str) -> Vec<Op> {
    text.bytes().map(Op::Send).collect()
}

fn row_text(d: &Display, row: usize) -> String {
    let mut s = String::new();
    for c in 0..COLS {
        s.push(d.cell(row, c).glyph as char);
    }
    s.trim_end_matches(BLANK as char).to_string()
}

fn screen() -> Display {
    Display::new(ColorCode::new(Color::Yellow, Color::Black))
}

fn names(list: &[&str]) -> Vec<Vec<u8>> {
    list.iter().map(|n| n.as_bytes().to_vec()).collect()
}

#[test]
fn exit_codes_have_their_fixed_values() {
    assert_eq!(ExitCode::Success.code(), 0x10);
    assert_eq!(ExitCode::Failed.code(), 0x11);
}

#[test]
fn decimal_rendering() {
    assert_eq!(render_decimal(0), b"0".to_vec());
    assert_eq!(render_decimal(7), b"7".to_vec());
    assert_eq!(render_decimal(10), b"10".to_vec());
    assert_eq!(render_decimal(12345), b"12345".to_vec());
    assert_eq!(render_decimal(usize::MAX), usize::MAX.to_string().into_bytes());
}

#[test]
fn channel_keeps_every_byte_in_order() {
    let mut p = Ports::new();
    assert_eq!(p.len(), 0);
    p.write_text("ab");
    p.write_bytes(&[0x00, 0xff, b'\n']);
    p.write_byte(b'z');
    p.write_text("");
    assert_eq!(
        ops(&p),
        vec![
            Op::Send(b'a'),
            Op::Send(b'b'),
            Op::Send(0x00),
            Op::Send(0xff),
            Op::Send(b'\n'),
            Op::Send(b'z'),
        ]
    );
    assert!(!p.is_idle());
    assert!(!p.has_exited());
}

#[test]
fn interleaved_writes_do_not_mix_the_channels() {
    let mut d = screen();
    let mut p = Ports::new();
    p.write_text("one ");
    d.write_text("left");
    p.write_text("two ");
    d.write_text(" right");
    p.write_text("three");
    assert_eq!(ops(&p), sends("one two three"));
    assert_eq!(row_text(&d, 0), "left right");
    assert_eq!((d.row(), d.column()), (0, 10));
}

#[test]
fn exit_port_is_written_once() {
    let mut p = Ports::new();
    p.exit(ExitCode::Failed);
    p.exit(ExitCode::Success);
    assert_eq!(ops(&p), vec![Op::Exit(ExitCode::Failed)]);
    assert!(p.has_exited());
}

#[test]
fn nothing_follows_the_idle_state() {
    let mut p = Ports::new();
    p.write_text("x");
    p.idle();
    assert!(p.is_idle());
    p.write_text("late");
    p.write_byte(b'!');
    p.exit(ExitCode::Success);
    p.idle();
    assert_eq!(ops(&p), vec![Op::Send(b'x'), Op::Idle]);
}

#[test]
fn all_tests_pass_then_one_success_exit() {
    let mut p = Ports::new();
    let mut h = Harness::new(names(&["alpha", "beta", "gamma"]));
    assert_eq!(h.count(), 3);
    assert_eq!(h.current_phase(), Phase::Idle);
    assert_eq!(h.start(&mut p), Directive::Run(0));
    assert_eq!(h.current_phase(), Phase::Running(0));
    assert_eq!(h.test_returned(&mut p), Directive::Run(1));
    assert_eq!(h.test_returned(&mut p), Directive::Run(2));
    assert_eq!(h.test_returned(&mut p), Directive::Stop);
    assert_eq!(h.current_phase(), Phase::Completed);
    let mut expected =
        sends("Running 3 tests\nalpha...\t[ok]\nbeta...\t[ok]\ngamma...\t[ok]\n");
    expected.push(Op::Exit(ExitCode::Success));
    assert_eq!(ops(&p), expected);
    let exits = ops(&p).iter().filter(|o| matches!(o, Op::Exit(_))).count();
    assert_eq!(exits, 1);
    assert_eq!(h.test_returned(&mut p), Directive::Stop);
    assert_eq!(h.start(&mut p), Directive::Stop);
    assert_eq!(ops(&p), expected);
}

#[test]
fn no_tests_gives_count_and_success() {
    let mut p = Ports::new();
    let mut h = Harness::new(Vec::new());
    assert_eq!(h.start(&mut p), Directive::Stop);
    assert_eq!(h.current_phase(), Phase::Completed);
    let mut expected = sends("Running 0 tests\n");
    expected.push(Op::Exit(ExitCode::Success));
    assert_eq!(ops(&p), expected);
}

#[test]
fn return_before_start_is_ignored() {
    let mut p = Ports::new();
    let mut h = Harness::new(names(&["only"]));
    assert_eq!(h.test_returned(&mut p), Directive::Stop);
    assert_eq!(h.current_phase(), Phase::Idle);
    assert_eq!(p.len(), 0);
}

#[test]
fn fault_in_last_test_reports_failure_and_halts() {
    let mut d = screen();
    let mut p = Ports::new();
    let mut h = Harness::new(names(&["first", "second", "third"]));
    assert_eq!(h.start(&mut p), Directive::Run(0));
    assert_eq!(h.test_returned(&mut p), Directive::Run(1));
    assert_eq!(h.test_returned(&mut p), Directive::Run(2));
    on_fault(Mode::Test, b"panicked at 'boom'", &mut d, &mut p);
    let mut expected = sends(
        "Running 3 tests\nfirst...\t[ok]\nsecond...\t[ok]\nthird...\tpanicked at 'boom'\n",
    );
    expected.push(Op::Exit(ExitCode::Failed));
    expected.push(Op::Idle);
    assert_eq!(ops(&p), expected);
    assert!(!ops(&p).contains(&Op::Exit(ExitCode::Success)));
    assert!(p.is_idle());
    assert_eq!(h.test_returned(&mut p), Directive::Stop);
    assert_eq!(h.current_phase(), Phase::Running(2));
    assert_eq!(ops(&p), expected);
    assert_eq!(row_text(&d, 0), "");
}

#[test]
fn fault_in_normal_mode_shows_payload_and_idles() {
    let mut d = screen();
    let mut p = Ports::new();
    d.write_text("before\n");
    on_fault(Mode::Normal, b"panicked: bad state", &mut d, &mut p);
    assert_eq!(row_text(&d, 0), "before");
    assert_eq!(row_text(&d, 1), "panicked: bad state");
    assert_eq!((d.row(), d.column()), (2, 0));
    assert_eq!(ops(&p), vec![Op::Idle]);
}

#[test]
fn second_fault_does_nothing() {
    let mut d = screen();
    let mut p = Ports::new();
    on_fault(Mode::Test, b"first", &mut d, &mut p);
    let after_first = ops(&p);
    assert_eq!(after_first.len(), 8);
    on_fault(Mode::Test, b"second", &mut d, &mut p);
    on_fault(Mode::Normal, b"third", &mut d, &mut p);
    assert_eq!(ops(&p), after_first);
    assert_eq!(row_text(&d, 0), "");
    assert_eq!((d.row(), d.column()), (0, 0));
}

#[test]
fn fault_after_completed_run_writes_no_second_exit() {
    let mut d = screen();
    let mut p = Ports::new();
    let mut h = Harness::new(names(&["t"]));
    h.start(&mut p);
    h.test_returned(&mut p);
    on_fault(Mode::Test, b"late", &mut d, &mut p);
    let mut expected = sends("Running 1 tests\nt...\t[ok]\n");
    expected.push(Op::Exit(ExitCode::Success));
    expected.extend(sends("late\n"));
    expected.push(Op::Idle);
    assert_eq!(ops(&p), expected);
}

#[test]
fn start_up_in_normal_mode() {
    let mut d = screen();
    let mut p = Ports::new();
    let mut b = Boot::new(Mode::Normal);
    assert_eq!(b.current_stage(), Stage::Entered);
    assert_eq!(b.advance(b"", &mut d, &mut p), Task::ReadPageTableRoot);
    assert_eq!(b.current_stage(), Stage::Probing);
    assert_eq!(b.advance(b"", &mut d, &mut p), Task::InitDrivers);
    assert_eq!(b.current_stage(), Stage::Initialising);
    assert_eq!(row_text(&d, 0), "");
    assert_eq!(b.advance(b"", &mut d, &mut p), Task::DescribeBootInfo);
    assert_eq!(row_text(&d, 0), "Hello World!");
    assert_eq!(b.current_stage(), Stage::Describing);
    assert_eq!(b.advance(b"BootInfo { n: 1 }", &mut d, &mut p), Task::Idle);
    assert_eq!(row_text(&d, 1), "boot info: BootInfo { n: 1 }");
    assert_eq!(row_text(&d, 2), "It didn't crash");
    assert_eq!((d.row(), d.column()), (3, 0));
    assert_eq!(b.current_stage(), Stage::Idle);
    assert_eq!(ops(&p), vec![Op::Idle]);
    assert_eq!(b.advance(b"again", &mut d, &mut p), Task::Idle);
    assert_eq!(ops(&p), vec![Op::Idle]);
    assert_eq!(row_text(&d, 3), "");
}

#[test]
fn nothing_is_shown_before_the_register_read_and_the_drivers() {
    for mode in [Mode::Normal, Mode::Test] {
        let mut d = screen();
        let mut p = Ports::new();
        let mut b = Boot::new(mode);
        assert_eq!(b.advance(b"ignored", &mut d, &mut p), Task::ReadPageTableRoot);
        assert_eq!((d.row(), d.column()), (0, 0));
        assert!(d.image().iter().all(|w| *w == 0x0e20));
        assert_eq!(b.advance(b"ignored", &mut d, &mut p), Task::InitDrivers);
        assert_eq!((d.row(), d.column()), (0, 0));
        assert!(d.image().iter().all(|w| *w == 0x0e20));
        assert_eq!(p.len(), 0);
        assert_eq!(b.advance(b"ignored", &mut d, &mut p), Task::DescribeBootInfo);
        assert_eq!(row_text(&d, 0), "Hello World!");
        assert_eq!((d.row(), d.column()), (1, 0));
    }
}

#[test]
fn start_up_in_test_mode_runs_the_harness_before_the_farewell() {
    let mut d = screen();
    let mut p = Ports::new();
    let mut b = Boot::new(Mode::Test);
    assert_eq!(b.advance(b"", &mut d, &mut p), Task::ReadPageTableRoot);
    assert_eq!(b.advance(b"", &mut d, &mut p), Task::InitDrivers);
    assert_eq!(b.advance(b"", &mut d, &mut p), Task::DescribeBootInfo);
    assert_eq!(b.advance(b"info", &mut d, &mut p), Task::RunTests);
    assert_eq!(b.current_stage(), Stage::Testing);
    assert_eq!(row_text(&d, 0), "Hello World!");
    assert_eq!(row_text(&d, 1), "boot info: info");
    assert_eq!(row_text(&d, 2), "");
    let mut h = Harness::new(names(&["trivial"]));
    assert_eq!(h.start(&mut p), Directive::Run(0));
    assert_eq!(h.test_returned(&mut p), Directive::Stop);
    assert_eq!(b.advance(b"", &mut d, &mut p), Task::Idle);
    assert_eq!(row_text(&d, 2), "It didn't crash");
    let mut expected = sends("Running 1 tests\ntrivial...\t[ok]\n");
    expected.push(Op::Exit(ExitCode::Success));
    expected.push(Op::Idle);
    assert_eq!(ops(&p), expected);
}

#[test]
fn fault_during_start_up_stops_the_sequence() {
    let mut d = screen();
    let mut p = Ports::new();
    let mut b = Boot::new(Mode::Normal);
    assert_eq!(b.advance(b"", &mut d, &mut p), Task::ReadPageTableRoot);
    assert_eq!(b.advance(b"", &mut d, &mut p), Task::InitDrivers);
    on_fault(Mode::Normal, b"init failed", &mut d, &mut p);
    assert_eq!(b.advance(b"", &mut d, &mut p), Task::Idle);
    assert_eq!(b.current_stage(), Stage::Initialising);
    assert_eq!(row_text(&d, 0), "init failed");
    assert_eq!(row_text(&d, 1), "");
}

fn loader_info() -> BootInfo {
    let mut map = MemoryMap::new();
    map.add_region(MemoryRegion {
        range: FrameRange::new(0x1000, 0x3000),
        region_type: MemoryRegionType::Usable,
    });
    BootInfo::new(map, None, 0, 0)
}

#[test]
fn start_up_shows_the_description_of_the_loader_structure() {
    let info = loader_info();
    let described = format!("boot info: {:?}", info);
    assert!(described.len() > "boot info: ".len());
    let mut d = screen();
    let mut p = Ports::new();
    let mut b = Boot::new(Mode::Test);
    assert_eq!(b.advance_with(&info, &mut d, &mut p), Task::ReadPageTableRoot);
    assert_eq!(b.advance_with(&info, &mut d, &mut p), Task::InitDrivers);
    assert_eq!(row_text(&d, 0), "");
    assert_eq!(b.advance_with(&info, &mut d, &mut p), Task::DescribeBootInfo);
    assert_eq!(row_text(&d, 0), "Hello World!");
    assert_eq!(row_text(&d, 1), "");
    assert_eq!(b.advance_with(&info, &mut d, &mut p), Task::RunTests);
    let mut shown = String::new();
    for r in 1..d.row() {
        for c in 0..COLS {
            shown.push(d.cell(r, c).glyph as char);
        }
    }
    assert_eq!(shown.trim_end_matches(BLANK as char), described);
    assert_eq!(d.column(), 0);
    assert_eq!(b.advance_with(&info, &mut d, &mut p), Task::Idle);
    assert_eq!(row_text(&d, d.row() - 1), "It didn't crash");
    assert_eq!(ops(&p), vec![Op::Idle]);
}

#[test]
fn description_is_not_shown_once_the_machine_idles() {
    let info = loader_info();
    let mut d = screen();
    let mut p = Ports::new();
    let mut b = Boot::new(Mode::Normal);
    b.advance_with(&info, &mut d, &mut p);
    b.advance_with(&info, &mut d, &mut p);
    b.advance_with(&info, &mut d, &mut p);
    p.idle();
    assert_eq!(b.advance_with(&info, &mut d, &mut p), Task::Idle);
    assert_eq!(b.current_stage(), Stage::Describing);
    assert_eq!(row_text(&d, 1), "");
}

#[test]
fn frame_numbers_are_addressable_up_to_the_limit() {
    assert_eq!(MAX_FRAME, u64::MAX / 4096);
    assert!(all_addressable(&[]));
    assert!(all_addressable(&[(0, 1), (MAX_FRAME - 1, MAX_FRAME)]));
    assert!(!all_addressable(&[(0, 1), (2, MAX_FRAME + 1)]));
    assert!(!all_addressable(&[(MAX_FRAME + 1, 3)]));
}

#[test]
fn unaddressable_memory_map_is_not_described() {
    let mut map = MemoryMap::new();
    map.add_region(MemoryRegion {
        range: FrameRange { start_frame_number: 1, end_frame_number: u64::MAX },
        region_type: MemoryRegionType::Reserved,
    });
    let info = BootInfo::new(map, None, 0, 0);
    let mut d = screen();
    let mut p = Ports::new();
    let mut b = Boot::new(Mode::Normal);
    b.advance_with(&info, &mut d, &mut p);
    b.advance_with(&info, &mut d, &mut p);
    b.advance_with(&info, &mut d, &mut p);
    assert_eq!(b.advance_with(&info, &mut d, &mut p), Task::Idle);
    assert_eq!(row_text(&d, 1), "boot info:");
    assert_eq!(row_text(&d, 2), "It didn't crash");
}
