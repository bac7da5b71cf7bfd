use vstd::prelude::*;
use vstd::string::*;

verus! {

/// The character of a decimal digit.
pub open spec fn digit_char(d: nat) -> char {
    if d == 0 { '0' }
    else if d == 1 { '1' }
    else if d == 2 { '2' }
    else if d == 3 { '3' }
    else if d == 4 { '4' }
    else if d == 5 { '5' }
    else if d == 6 { '6' }
    else if d == 7 { '7' }
    else if d == 8 { '8' }
    else { '9' }
}

/// Decimal notation of a natural number, without leading zeros.
pub open spec fn decimal(n: nat) -> Seq<char>
    decreases n,
{
    if n < 10 {
        seq![digit_char(n)]
    } else {
        decimal(n / 10) + seq![digit_char(n % 10)]
    }
}

/// Instructions per cycle in hundredths, rounded half up; `None` when no
/// cycle elapsed and the ratio is undefined.
pub open spec fn ipc_hundredths_spec(insns: nat, cycles: nat) -> Option<nat> {
    if cycles == 0 {
        None
    } else {
        Some((200 * insns + cycles) / (2 * cycles))
    }
}

/// A ratio given in hundredths, written with two decimals.
pub open spec fn hundredths_text(v: nat) -> Seq<char> {
    decimal(v / 100) + seq!['.', digit_char((v % 100) / 10), digit_char(v % 10)]
}

/// The text of the ratio field of a report.
pub open spec fn ratio_text(insns: nat, cycles: nat) -> Seq<char> {
    match ipc_hundredths_spec(insns, cycles) {
        Some(v) => hundredths_text(v),
        None => "undefined"@,
    }
}

/// Instructions per cycle in hundredths, rounded half up. The ratio is
/// undefined, and `None` returned, when `cycles` is zero.
pub fn ipc_hundredths(insns: u64, cycles: u64) -> (r: Option<u128>)
    ensures
        r matches Some(v) ==> ipc_hundredths_spec(insns as nat, cycles as nat) == Some(v as nat),
        r is None <==> ipc_hundredths_spec(insns as nat, cycles as nat) is None,
{
    if cycles == 0 {
        None
    } else {
        let num: u128 = 200 * (insns as u128) + (cycles as u128);
        let den: u128 = 2 * (cycles as u128);
        Some(num / den)
    }
}

fn digit_str(d: u128) -> (r: &'static str)
    requires
        d < 10,
    ensures
        r@ == seq![digit_char(d as nat)],
{
    if d == 0 {
        proof { reveal_strlit("0"); }
        "0"
    } else if d == 1 {
        proof { reveal_strlit("1"); }
        "1"
    } else if d == 2 {
        proof { reveal_strlit("2"); }
        "2"
    } else if d == 3 {
        proof { reveal_strlit("3"); }
        "3"
    } else if d == 4 {
        proof { reveal_strlit("4"); }
        "4"
    } else if d == 5 {
        proof { reveal_strlit("5"); }
        "5"
    } else if d == 6 {
        proof { reveal_strlit("6"); }
        "6"
    } else if d == 7 {
        proof { reveal_strlit("7"); }
        "7"
    } else if d == 8 {
        proof { reveal_strlit("8"); }
        "8"
    } else {
        proof { reveal_strlit("9"); }
        "9"
    }
}

/// Appends the decimal notation of `n` to `out`.
pub fn push_decimal(out: &mut String, n: u128)
    ensures
        final(out)@ == old(out)@ + decimal(n as nat),
    decreases n,
{
    if n >= 10 {
        push_decimal(out, n / 10);
    }
    out.append(digit_str(n % 10));
    assert(out@ =~= old(out)@ + decimal(n as nat));
}

/// Appends a ratio given in hundredths, written with two decimals.
fn push_hundredths(out: &mut String, v: u128)
    ensures
        final(out)@ == old(out)@ + hundredths_text(v as nat),
{
    push_decimal(out, v / 100);
    proof { reveal_strlit("."); }
    out.append(".");
    out.append(digit_str((v % 100) / 10));
    out.append(digit_str(v % 10));
    assert(out@ =~= old(out)@ + hundredths_text(v as nat));
}

/// Appends the ratio of `insns` to `cycles` with two decimals, or the
/// marker `undefined` when no cycle elapsed.
pub fn push_ratio(out: &mut String, insns: u64, cycles: u64)
    ensures
        final(out)@ == old(out)@ + ratio_text(insns as nat, cycles as nat),
{
    match ipc_hundredths(insns, cycles) {
        Some(v) => push_hundredths(out, v),
        None => {
            proof { reveal_strlit("undefined"); }
            out.append("undefined");
        },
    }
}

/// An undefined ratio is written as such: a report carries the marker
/// `undefined` in place of a number.
pub proof fn lemma_zero_cycles_marked_undefined(insns: nat)
    ensures
        ipc_hundredths_spec(insns, 0) is None,
        ratio_text(insns, 0) == "undefined"@,
{
}

} // verus!
