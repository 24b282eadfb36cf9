use tmux_wax::format_for_prompt;
use tmux_wax::format_for_tmux;
use tmux_wax::render_report;
use tmux_wax::server_down_message;
use tmux_wax::Outcome;

#[test]
fn test_format_for_tmux() {
    let stats: (usize, usize, usize, usize) = (10, 5, 3, 2);
    let formatted = format_for_tmux(&stats);
    assert_eq!(
        formatted,
        "T:10 U:5 D:3 #[fg=red,bold]F:2#[fg=default,nobold]"
    );
}

#[test]
fn test_format_for_prompt() {
    let stats: (usize, usize, usize, usize) = (10, 5, 3, 2);
    let formatted = format_for_prompt(&stats);
    assert_eq!(
        formatted,
        "Docker Containers:\nTotal: 10\nUp: 5\nDown: 3\nFailed: 2"
    );
}

#[test]
fn format_all_zero_counters() {
    let stats: (usize, usize, usize, usize) = (0, 0, 0, 0);
    assert_eq!(
        format_for_tmux(&stats),
        "T:0 U:0 D:0 #[fg=red,bold]F:0#[fg=default,nobold]"
    );
    assert_eq!(
        format_for_prompt(&stats),
        "Docker Containers:\nTotal: 0\nUp: 0\nDown: 0\nFailed: 0"
    );
}

#[test]
fn format_multi_digit_counters() {
    let stats: (usize, usize, usize, usize) = (1234567890, 100, 1034567790, 100000000);
    assert_eq!(
        format_for_tmux(&stats),
        "T:1234567890 U:100 D:1034567790 #[fg=red,bold]F:100000000#[fg=default,nobold]"
    );
}

#[test]
fn renderers_are_pure() {
    let stats: (usize, usize, usize, usize) = (7, 4, 2, 1);
    let first = format_for_tmux(&stats);
    let second = format_for_tmux(&stats);
    assert_eq!(first.as_bytes(), second.as_bytes());
    let first = format_for_prompt(&stats);
    let second = format_for_prompt(&stats);
    assert_eq!(first.as_bytes(), second.as_bytes());
}

#[test]
fn down_message_compact() {
    assert_eq!(
        server_down_message(true),
        "#[fg=red,bold]\u{1f534} Server or container is down#[fg=default,nobold]"
    );
}

#[test]
fn down_message_verbose() {
    assert_eq!(
        server_down_message(false),
        "\x1b[31;1m\u{1f534} Server or container is down\x1b[0m"
    );
}

#[test]
fn report_down_matches_mode() {
    assert_eq!(
        render_report(&Outcome::ReportedDown, true),
        server_down_message(true)
    );
    assert_eq!(
        render_report(&Outcome::ReportedDown, false),
        server_down_message(false)
    );
}

#[test]
fn report_tally_matches_mode() {
    let stats: (usize, usize, usize, usize) = (10, 5, 3, 2);
    assert_eq!(
        render_report(&Outcome::Reported(stats), true),
        "T:10 U:5 D:3 #[fg=red,bold]F:2#[fg=default,nobold]"
    );
    assert_eq!(
        render_report(&Outcome::Reported(stats), false),
        "Docker Containers:\nTotal: 10\nUp: 5\nDown: 3\nFailed: 2"
    );
}
