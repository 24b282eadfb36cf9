use tmux_wax::tally_states;

#[test]
fn tally_classifies_each_state() {
    let out: (usize, usize, usize, usize) = tally_states("running\nexited\ndead\n");
    assert_eq!(out, (3, 1, 1, 1));
}

#[test]
fn tally_empty_output() {
    assert_eq!(tally_states(""), (0, 0, 0, 0));
}

#[test]
fn tally_trailing_newline_adds_no_line() {
    assert_eq!(tally_states("running\n"), (1, 1, 0, 0));
    assert_eq!(tally_states("running"), (1, 1, 0, 0));
}

#[test]
fn tally_blank_lines_add_no_line() {
    assert_eq!(tally_states("running\n\nexited\n"), (2, 1, 1, 0));
    assert_eq!(tally_states("\n\n\n"), (0, 0, 0, 0));
}

#[test]
fn tally_carriage_returns_stripped() {
    assert_eq!(tally_states("running\r\nexited\r\n"), (2, 1, 1, 0));
    assert_eq!(tally_states("\r\n"), (0, 0, 0, 0));
}

#[test]
fn tally_bare_carriage_return_kept() {
    // Only the carriage return of a `\r\n` ending is dropped: a final line
    // not ended by a line break keeps a bare trailing carriage return, so
    // its exact text matches no state word.
    assert_eq!(tally_states("running\r"), (1, 0, 0, 1));
    assert_eq!(tally_states("running\r\nexited\r"), (2, 1, 0, 1));
    assert_eq!(tally_states("\r"), (1, 0, 0, 1));
}

#[test]
fn tally_exact_text_only() {
    // Anything but the exact state words counts as failed.
    let out: (usize, usize, usize, usize) =
        tally_states("Running\nrunning \n running\nrestarting\nexited(0)\n");
    assert_eq!(out, (5, 0, 0, 5));
}

#[test]
fn tally_total_is_sum_of_counters() {
    let outputs: [&str; 5] = [
        "",
        "running\nrunning\nexited\n",
        "paused\ncreated\nrestarting",
        "running\n\r\nexited\r\nwhatever\n",
        "\nexited",
    ];
    for output in outputs {
        let (total, up, down, failed) = tally_states(output);
        assert_eq!(total, up + down + failed);
    }
}
