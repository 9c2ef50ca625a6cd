//! The lines that a run reports, and the throughput in the last of them.

use vstd::prelude::*;

verus! {

/// The number of nanoseconds in a second.
pub const NANOS_PER_SECOND: u128 = 1_000_000_000;

/// The number of decimals of the elapsed time in the summary.
pub const ELAPSED_DECIMALS: usize = 2;

/// The character of a decimal digit.
pub open spec fn digit_char(d: nat) -> char
    recommends
        d < 10,
{
    if d == 0 {
        '0'
    } else if d == 1 {
        '1'
    } else if d == 2 {
        '2'
    } else if d == 3 {
        '3'
    } else if d == 4 {
        '4'
    } else if d == 5 {
        '5'
    } else if d == 6 {
        '6'
    } else if d == 7 {
        '7'
    } else if d == 8 {
        '8'
    } else {
        '9'
    }
}

/// A number in decimal, without leading zeros.
pub open spec fn decimal(n: nat) -> Seq<char>
    decreases n,
{
    if n < 10 {
        seq![digit_char(n)]
    } else {
        decimal(n / 10).push(digit_char(n % 10))
    }
}

/// The progress line for a counter value.
pub open spec fn progress_text(processed: nat) -> Seq<char> {
    "Progress: "@ + decimal(processed) + " transactions processed..."@
}

/// The notice for a unit whose processing failed.
pub open spec fn failure_text(unit: nat) -> Seq<char> {
    "Transaction "@ + decimal(unit) + " failed to process."@
}

/// Units per second, in hundredths, rounded to the nearest hundredth (a
/// half is rounded up).
pub open spec fn throughput_hundredths(total_count: nat, elapsed_nanos: nat) -> nat
    recommends
        elapsed_nanos > 0,
{
    ((total_count * 100 * NANOS_PER_SECOND + elapsed_nanos / 2) / (elapsed_nanos as int)) as nat
}

/// A number of hundredths with two decimals, as in `12.05`.
pub open spec fn hundredths_text(hundredths: nat) -> Seq<char> {
    decimal(hundredths / 100) + "."@ + seq![
        digit_char((hundredths / 10) % 10),
        digit_char(hundredths % 10),
    ]
}

/// The throughput as the summary shows it. No time elapsed gives no
/// throughput: nothing is divided then.
pub open spec fn throughput_text(total_count: nat, elapsed_nanos: nat) -> Seq<char> {
    if elapsed_nanos == 0 {
        "n/a"@
    } else {
        hundredths_text(throughput_hundredths(total_count, elapsed_nanos))
    }
}

/// The summary line of a run, given the elapsed time as text.
pub open spec fn summary_text(total_count: nat, elapsed: Seq<char>, elapsed_nanos: nat) -> Seq<
    char,
> {
    "Processed "@ + decimal(total_count) + " transactions in "@ + elapsed + " -> TPS: "@
        + throughput_text(total_count, elapsed_nanos)
}

/// The rounded throughput is the nearest hundredth: the exact quotient lies
/// no more than half a hundredth below it and less than half a hundredth
/// above it.
pub proof fn lemma_throughput_nearest(total_count: nat, elapsed_nanos: nat)
    requires
        elapsed_nanos > 0,
    ensures
        ({
            let h = throughput_hundredths(total_count, elapsed_nanos);
            let exact = total_count * 100 * NANOS_PER_SECOND;
            2 * h * elapsed_nanos - elapsed_nanos <= 2 * exact < 2 * h * elapsed_nanos
                + elapsed_nanos
        }),
{
    let exact = total_count * 100 * NANOS_PER_SECOND;
    let x = (exact + elapsed_nanos / 2) as int;
    let y = elapsed_nanos as int;
    vstd::arithmetic::div_mod::lemma_fundamental_div_mod(x, y);
    vstd::arithmetic::div_mod::lemma_mod_bound(x, y);
    vstd::arithmetic::div_mod::lemma_div_pos_is_pos(x, y);
    let h = x / y;
    assert(2 * h * y == 2 * (y * h)) by (nonlinear_arith);
}

/// The text of one decimal digit.
fn digit_str(d: u8) -> (s: &'static str)
    requires
        d < 10,
    ensures
        s@ == seq![digit_char(d as nat)],
{
    proof {
        reveal_strlit("0");
        reveal_strlit("1");
        reveal_strlit("2");
        reveal_strlit("3");
        reveal_strlit("4");
        reveal_strlit("5");
        reveal_strlit("6");
        reveal_strlit("7");
        reveal_strlit("8");
        reveal_strlit("9");
    }
    let s = if d == 0 {
        "0"
    } else if d == 1 {
        "1"
    } else if d == 2 {
        "2"
    } else if d == 3 {
        "3"
    } else if d == 4 {
        "4"
    } else if d == 5 {
        "5"
    } else if d == 6 {
        "6"
    } else if d == 7 {
        "7"
    } else if d == 8 {
        "8"
    } else {
        "9"
    };
    assert(s@ =~= seq![digit_char(d as nat)]);
    s
}

/// Appends `n` in decimal to `text`.
pub fn push_decimal(text: &mut String, n: u128)
    ensures
        final(text)@ == old(text)@ + decimal(n as nat),
    decreases n,
{
    if n >= 10 {
        push_decimal(text, n / 10);
    }
    text.append(digit_str((n % 10) as u8));
    assert(text@ =~= old(text)@ + decimal(n as nat));
}

/// Appends a number of hundredths with two decimals to `text`.
pub fn push_hundredths(text: &mut String, hundredths: u128)
    ensures
        final(text)@ == old(text)@ + hundredths_text(hundredths as nat),
{
    push_decimal(text, hundredths / 100);
    text.append(".");
    text.append(digit_str(((hundredths / 10) % 10) as u8));
    text.append(digit_str((hundredths % 10) as u8));
    assert(text@ =~= old(text)@ + hundredths_text(hundredths as nat));
}

/// The line that reports the progress counter.
pub fn progress_line(processed: u64) -> (line: String)
    ensures
        line@ == progress_text(processed as nat),
{
    let mut line = String::from_str("Progress: ");
    push_decimal(&mut line, processed as u128);
    line.append(" transactions processed...");
    line
}

/// The notice that the processing of a unit failed.
pub fn failure_notice(unit: u32) -> (line: String)
    ensures
        line@ == failure_text(unit as nat),
{
    let mut line = String::from_str("Transaction ");
    push_decimal(&mut line, unit as u128);
    line.append(" failed to process.");
    line
}

/// The throughput of a run in hundredths of a unit per second, or nothing
/// where no time has elapsed.
pub fn throughput(total_count: u32, elapsed_nanos: u64) -> (tps: Option<u128>)
    ensures
        elapsed_nanos == 0 <==> tps is None,
        elapsed_nanos > 0 ==> tps == Some(
            throughput_hundredths(total_count as nat, elapsed_nanos as nat) as u128,
        ),
        elapsed_nanos > 0 ==> throughput_hundredths(total_count as nat, elapsed_nanos as nat)
            <= u128::MAX,
{
    if elapsed_nanos == 0 {
        None
    } else {
        let exact: u128 = (total_count as u128) * 100 * NANOS_PER_SECOND;
        Some((exact + (elapsed_nanos / 2) as u128) / (elapsed_nanos as u128))
    }
}

/// The text of a time span of `nanos` nanoseconds with `decimals` decimals:
/// a number and a unit, as in `1.50s` or `12.35ms`.
pub uninterp spec fn elapsed_text(nanos: u64, decimals: usize) -> Seq<char>;

/// Formats a time span with std's `Debug` for `std::time::Duration`, at a
/// precision of `decimals`. Trusted: that the text is
/// `elapsed_text(nanos, decimals)`, which says no more than that it depends
/// on the two numbers alone. std holds a precision given at run time in 16
/// bits and panics on a larger one, which `requires` leaves out.
#[verifier::external_body]
fn format_elapsed(nanos: u64, decimals: usize) -> (text: String)
    requires
        decimals <= u16::MAX,
    ensures
        text@ == elapsed_text(nanos, decimals),
{
    format!("{:.*?}", decimals, std::time::Duration::from_nanos(nanos))
}

/// The summary line of a run whose elapsed time reads `elapsed`.
pub fn summary_line_with(total_count: u32, elapsed: &str, elapsed_nanos: u64) -> (line: String)
    ensures
        line@ == summary_text(total_count as nat, elapsed@, elapsed_nanos as nat),
{
    let mut line = String::from_str("Processed ");
    push_decimal(&mut line, total_count as u128);
    line.append(" transactions in ");
    line.append(elapsed);
    line.append(" -> TPS: ");
    match throughput(total_count, elapsed_nanos) {
        Some(hundredths) => push_hundredths(&mut line, hundredths),
        None => line.append("n/a"),
    }
    line
}

/// The summary line of a run that took `elapsed_nanos` nanoseconds.
pub fn summary_line(total_count: u32, elapsed_nanos: u64) -> (line: String)
    ensures
        line@ == summary_text(
            total_count as nat,
            elapsed_text(elapsed_nanos, ELAPSED_DECIMALS),
            elapsed_nanos as nat,
        ),
{
    let elapsed = format_elapsed(elapsed_nanos, ELAPSED_DECIMALS);
    summary_line_with(total_count, elapsed.as_str(), elapsed_nanos)
}

} // verus!
