use du_analog_inputs::console::{confirms_exit, log_line};

#[test]
fn log_lines_have_timestamp_type_and_message() {
    assert_eq!(
        log_line("2022-01-01T00:00:00Z", "Error", "Input loop disappeared."),
        "|2022-01-01T00:00:00Z|Error: Input loop disappeared.\n"
    );
    assert_eq!(log_line("", "", ""), "||: \n");
}

#[test]
fn exit_answers() {
    assert!(confirms_exit("y\n"));
    assert!(confirms_exit("Yes\n"));
    assert!(!confirms_exit("n\n"));
    assert!(!confirms_exit("\n"));
    assert!(!confirms_exit(" y"));
}
