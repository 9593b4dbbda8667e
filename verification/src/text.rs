use vstd::prelude::*;

verus! {

/// The character of the decimal digit `d`.
pub open spec fn digit_char(d: nat) -> char {
    if d == 0 { '0' }
    else if d == 1 { '1' }
    else if d == 2 { '2' }
    else if d == 3 { '3' }
    else if d == 4 { '4' }
    else if d == 5 { '5' }
    else if d == 6 { '6' }
    else if d == 7 { '7' }
    else if d == 8 { '8' }
    else { '9' }
}

/// `n` written in decimal, without leading zeros.
pub open spec fn decimal(n: nat) -> Seq<char>
    decreases n,
{
    if n < 10 {
        seq![digit_char(n)]
    } else {
        decimal(n / 10).push(digit_char(n % 10))
    }
}

/// The tick delay as shown in the status line.
pub open spec fn delay_text(delay: nat) -> Seq<char> {
    if delay == 0 {
        "None  "@
    } else {
        decimal(delay) + " ms"@
    }
}

/// The status line under the board.
pub open spec fn status_line(delay: nat, living: nat) -> Seq<char> {
    "Tick Delay(-/+): "@ + delay_text(delay) + "  Number of Living Cells: "@ + decimal(living)
}

fn digit_str(d: u64) -> (s: &'static str)
    requires
        d < 10,
    ensures
        s@ == seq![digit_char(d as nat)],
{
    proof {
        reveal_strlit("0");
        reveal_strlit("1");
        reveal_strlit("2");
        reveal_strlit("3");
        reveal_strlit("4");
        reveal_strlit("5");
        reveal_strlit("6");
        reveal_strlit("7");
        reveal_strlit("8");
        reveal_strlit("9");
    }
    let s = match d {
        0 => "0",
        1 => "1",
        2 => "2",
        3 => "3",
        4 => "4",
        5 => "5",
        6 => "6",
        7 => "7",
        8 => "8",
        _ => "9",
    };
    assert(s@ =~= seq![digit_char(d as nat)]);
    s
}

fn push_decimal(s: &mut String, n: u64)
    ensures
        final(s)@ == old(s)@ + decimal(n as nat),
    decreases n,
{
    if n >= 10 {
        push_decimal(s, n / 10);
    }
    s.append(digit_str(n % 10));
    assert(final(s)@ =~= old(s)@ + decimal(n as nat)) by {
        if n >= 10 {
            assert(decimal(n as nat) == decimal((n / 10) as nat).push(digit_char((n % 10) as nat)));
        }
    }
}

/// The status line under the board: the tick delay ("None" when there is none)
/// and the number of living cells.
pub fn status_text(tick_delay: u64, num_alive: usize) -> (s: String)
    ensures
        s@ == status_line(tick_delay as nat, num_alive as nat),
{
    let mut s = String::from_str("Tick Delay(-/+): ");
    if tick_delay == 0 {
        s.append("None  ");
    } else {
        push_decimal(&mut s, tick_delay);
        s.append(" ms");
    }
    s.append("  Number of Living Cells: ");
    push_decimal(&mut s, num_alive as u64);
    assert(s@ =~= status_line(tick_delay as nat, num_alive as nat));
    s
}

} // verus!
