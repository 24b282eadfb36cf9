//! Rendering of a tally, or of the down-state notice, for the two output
//! modes: compact (status-bar styling) and verbose (raw terminal escapes).

use vstd::prelude::*;
use vstd::string::StringExecFns;

verus! {

/// The character for one decimal digit.
pub open spec fn digit_char(d: nat) -> char {
    if d == 0 {
        '0'
    } else if d == 1 {
        '1'
    } else if d == 2 {
        '2'
    } else if d == 3 {
        '3'
    } else if d == 4 {
        '4'
    } else if d == 5 {
        '5'
    } else if d == 6 {
        '6'
    } else if d == 7 {
        '7'
    } else if d == 8 {
        '8'
    } else {
        '9'
    }
}

/// The decimal numeral of `n`, most significant digit first, with no sign,
/// no padding and no leading zero (a single `0` for zero).
pub open spec fn dec_digits(n: nat) -> Seq<char>
    decreases n,
{
    if n < 10 {
        seq![digit_char(n)]
    } else {
        dec_digits(n / 10).push(digit_char(n % 10))
    }
}

/// Appends the character of one decimal digit.
fn push_digit(s: &mut String, d: usize)
    requires
        d < 10,
    ensures
        final(s)@ == old(s)@ + seq![digit_char(d as nat)],
{
    let digit: &str = match d {
        0 => "0",
        1 => "1",
        2 => "2",
        3 => "3",
        4 => "4",
        5 => "5",
        6 => "6",
        7 => "7",
        8 => "8",
        _ => "9",
    };
    proof {
        reveal_strlit("0");
        reveal_strlit("1");
        reveal_strlit("2");
        reveal_strlit("3");
        reveal_strlit("4");
        reveal_strlit("5");
        reveal_strlit("6");
        reveal_strlit("7");
        reveal_strlit("8");
        reveal_strlit("9");
        assert(digit@ =~= seq![digit_char(d as nat)]);
    }
    s.append(digit);
}

/// Appends the decimal numeral of `n`.
fn push_decimal(s: &mut String, n: usize)
    ensures
        final(s)@ == old(s)@ + dec_digits(n as nat),
    decreases n,
{
    if n >= 10 {
        push_decimal(s, n / 10);
        push_digit(s, n % 10);
        proof {
            assert((old(s)@ + dec_digits((n / 10) as nat)) + seq![digit_char((n % 10) as nat)]
                =~= old(s)@ + dec_digits(n as nat));
        }
    } else {
        push_digit(s, n);
        proof {
            assert(old(s)@ + seq![digit_char(n as nat)] =~= old(s)@ + dec_digits(n as nat));
        }
    }
}

/// The compact (status-bar) rendering of a tally: the four counters in the
/// fixed order total, up, down, failed, with the failed counter wrapped in
/// the multiplexer's inline red-and-bold styling, reset immediately after
/// so it does not bleed into adjacent segments.
pub open spec fn spec_format_for_tmux(stats: (usize, usize, usize, usize)) -> Seq<char> {
    "T:"@ + dec_digits(stats.0 as nat) + " U:"@ + dec_digits(stats.1 as nat) + " D:"@
        + dec_digits(stats.2 as nat) + " #[fg=red,bold]F:"@ + dec_digits(stats.3 as nat)
        + "#[fg=default,nobold]"@
}

/// The verbose (prompt) rendering of a tally: a title line, then one
/// `Label: count` line per counter.
pub open spec fn spec_format_for_prompt(stats: (usize, usize, usize, usize)) -> Seq<char> {
    "Docker Containers:\nTotal: "@ + dec_digits(stats.0 as nat) + "\nUp: "@ + dec_digits(
        stats.1 as nat,
    ) + "\nDown: "@ + dec_digits(stats.2 as nat) + "\nFailed: "@ + dec_digits(stats.3 as nat)
}

/// Renders a tally for the multiplexer status bar.
pub fn format_for_tmux(stats: &(usize, usize, usize, usize)) -> (r: String)
    ensures
        r@ == spec_format_for_tmux(*stats),
{
    let mut s = String::new();
    s.append("T:");
    push_decimal(&mut s, stats.0);
    s.append(" U:");
    push_decimal(&mut s, stats.1);
    s.append(" D:");
    push_decimal(&mut s, stats.2);
    s.append(" #[fg=red,bold]F:");
    push_decimal(&mut s, stats.3);
    s.append("#[fg=default,nobold]");
    proof {
        assert(s@ =~= spec_format_for_tmux(*stats));
    }
    s
}

/// Renders a tally as a multi-line block for an interactive prompt.
pub fn format_for_prompt(stats: &(usize, usize, usize, usize)) -> (r: String)
    ensures
        r@ == spec_format_for_prompt(*stats),
{
    let mut s = String::new();
    s.append("Docker Containers:\nTotal: ");
    push_decimal(&mut s, stats.0);
    s.append("\nUp: ");
    push_decimal(&mut s, stats.1);
    s.append("\nDown: ");
    push_decimal(&mut s, stats.2);
    s.append("\nFailed: ");
    push_decimal(&mut s, stats.3);
    proof {
        assert(s@ =~= spec_format_for_prompt(*stats));
    }
    s
}

/// The fixed down-state notice, styled as an alert in the chosen mode:
/// multiplexer styling in compact mode, raw terminal escapes in verbose
/// mode, reset immediately after either way.
pub open spec fn spec_down_message(tmux: bool) -> Seq<char> {
    if tmux {
        "#[fg=red,bold]🔴 Server or container is down#[fg=default,nobold]"@
    } else {
        "\x1b[31;1m🔴 Server or container is down\x1b[0m"@
    }
}

/// The down-state notice for the chosen mode.
pub fn server_down_message(tmux: bool) -> (r: String)
    ensures
        r@ == spec_down_message(tmux),
{
    if tmux {
        String::from_str("#[fg=red,bold]🔴 Server or container is down#[fg=default,nobold]")
    } else {
        String::from_str("\x1b[31;1m🔴 Server or container is down\x1b[0m")
    }
}

/// The run's two terminal states: a tally was collected and is reported,
/// or the probe found the remote unreachable and the down-state notice is
/// reported instead.
pub enum Outcome {
    Reported((usize, usize, usize, usize)),
    ReportedDown,
}

/// The terminal state a run reaches: an unreachable probe reports down,
/// whether or not anything was collected; a reachable probe reports the
/// collected tally, and reaches no terminal state without one.
pub open spec fn spec_outcome(
    reachable: bool,
    stats: Option<(usize, usize, usize, usize)>,
) -> Option<Outcome> {
    if !reachable {
        Some(Outcome::ReportedDown)
    } else {
        match stats {
            Some(t) => Some(Outcome::Reported(t)),
            None => None,
        }
    }
}

/// The rendering of a terminal state: the collected tally in the chosen
/// mode's format, or the down-state notice.
pub open spec fn spec_render_report(o: Outcome, tmux: bool) -> Seq<char> {
    match o {
        Outcome::Reported(t) => if tmux {
            spec_format_for_tmux(t)
        } else {
            spec_format_for_prompt(t)
        },
        Outcome::ReportedDown => spec_down_message(tmux),
    }
}

/// Renders a terminal state for the chosen mode.
pub fn render_report(o: &Outcome, tmux: bool) -> (r: String)
    ensures
        r@ == spec_render_report(*o, tmux),
{
    match o {
        Outcome::Reported(t) => if tmux {
            format_for_tmux(t)
        } else {
            format_for_prompt(t)
        },
        Outcome::ReportedDown => server_down_message(tmux),
    }
}

/// Both renderers are pure functions of the tally: the rendered characters
/// are fully determined by the four counters, so equal tallies render to
/// identical strings in either mode.
pub proof fn lemma_renderers_pure(a: (usize, usize, usize, usize), b: (usize, usize, usize, usize))
    requires
        a == b,
    ensures
        spec_format_for_tmux(a) == spec_format_for_tmux(b),
        spec_format_for_prompt(a) == spec_format_for_prompt(b),
{
}

/// A probe that reports the remote unreachable always ends the run in the
/// down-state report: whatever the collector would have returned, the
/// rendered output is exactly the down-state notice for the chosen mode.
pub proof fn lemma_down_report(stats: Option<(usize, usize, usize, usize)>, tmux: bool)
    ensures
        spec_outcome(false, stats) == Some(Outcome::ReportedDown),
        spec_render_report(Outcome::ReportedDown, tmux) == spec_down_message(tmux),
{
}

} // verus!
