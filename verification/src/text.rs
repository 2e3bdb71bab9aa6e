//! The fixed texts of the console and the decimal form of a number.

use vstd::prelude::*;
use vstd::string::StringSliceAdditionalSpecFns;

verus! {

/// The character code of the digit `d`.
pub open spec fn digit(d: nat) -> u8 {
    (0x30 + d) as u8
}

/// The decimal form of `n`, most significant digit first, without leading
/// zeros.
pub open spec fn decimal(n: nat) -> Seq<u8>
    decreases n,
{
    if n < 10 {
        seq![digit(n)]
    } else {
        decimal(n / 10).push(digit(n % 10))
    }
}

/// The number that a sequence of digit codes denotes.
pub open spec fn decimal_value(digits: Seq<u8>) -> int
    decreases digits.len(),
{
    if digits.len() == 0 {
        0
    } else {
        decimal_value(digits.drop_last()) * 10 + (digits.last() - 0x30)
    }
}

/// The decimal form of a number holds digits only and denotes that number.
pub proof fn lemma_decimal_denotes(n: nat)
    ensures
        decimal(n).len() >= 1,
        forall|i: int| 0 <= i < decimal(n).len() ==> 0x30 <= #[trigger] decimal(n)[i] <= 0x39,
        decimal_value(decimal(n)) == n,
    decreases n,
{
    if n < 10 {
        assert(decimal(n).drop_last() =~= Seq::<u8>::empty());
        assert(decimal_value(Seq::<u8>::empty()) == 0);
    } else {
        lemma_decimal_denotes(n / 10);
        assert(decimal(n).drop_last() =~= decimal(n / 10));
    }
}

/// Renders `n` in decimal.
pub fn render_decimal(n: usize) -> (out: Vec<u8>)
    ensures
        out@ == decimal(n as nat),
    decreases n,
{
    if n < 10 {
        let d: u8 = 0x30 + (n as u8);
        let mut out: Vec<u8> = Vec::new();
        out.push(d);
        assert(out@ =~= seq![digit(n as nat)]);
        out
    } else {
        let mut out = render_decimal(n / 10);
        let d: u8 = 0x30 + ((n % 10) as u8);
        out.push(d);
        out
    }
}

/// The line that announces a run of `count` tests.
pub open spec fn header(count: nat) -> Seq<u8> {
    "Running ".spec_bytes() + decimal(count) + " tests\n".spec_bytes()
}

/// The marker written before the test called `name` runs.
pub open spec fn starting(name: Seq<u8>) -> Seq<u8> {
    name + "...\t".spec_bytes()
}

/// The marker written after a test has returned.
pub open spec fn ok_marker() -> Seq<u8> {
    "[ok]\n".spec_bytes()
}

/// The message shown when the machine has started.
pub open spec fn greeting() -> Seq<u8> {
    "Hello World!\n".spec_bytes()
}

/// The line that shows what the loader handed over.
pub open spec fn boot_report(description: Seq<u8>) -> Seq<u8> {
    "boot info: ".spec_bytes() + description + "\n".spec_bytes()
}

/// The message shown when start-up has come to its end.
pub open spec fn farewell() -> Seq<u8> {
    "It didn't crash\n".spec_bytes()
}

} // verus!
