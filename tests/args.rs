use cmdseq::args::{options_from, parse_commands};

fn strings(v: &[&str]) -> Vec<String> {
    v.iter().map(|s| s.to_string()).collect()
}

#[test]
fn parse_commands_reads_pairs() {
    let (reps, cmds) = parse_commands(&strings(&["3", "echo a", "+2", "echo b"])).unwrap();
    assert_eq!(reps, vec![3, 2]);
    assert_eq!(cmds, strings(&["echo a", "echo b"]));
}

#[test]
fn parse_commands_odd_count_is_usage_error() {
    let r = parse_commands(&strings(&["3", "echo hi", "2"]));
    assert_eq!(r, Err("pairs of commands are needed".to_string()));
}

#[test]
fn parse_commands_empty_is_missing() {
    assert_eq!(parse_commands(&vec![]), Err("Error: missing commands".to_string()));
}

#[test]
fn parse_commands_reports_first_bad_count() {
    let r = parse_commands(&strings(&["1", "ls", "x", "pwd", "y", "date"]));
    assert_eq!(r, Err("could not parse x into number".to_string()));
}

#[test]
fn parse_commands_rejects_negative_and_overflowing_counts() {
    assert!(parse_commands(&strings(&["-1", "ls"])).is_err());
    assert!(parse_commands(&strings(&["18446744073709551616000", "ls"])).is_err());
}

#[test]
fn options_from_help_gives_empty_message() {
    let r = options_from(true, None, &strings(&["1", "ls"]));
    assert_eq!(r.err(), Some(String::new()));
}

#[test]
fn options_from_defaults_directory() {
    let o = options_from(false, None, &strings(&["1", "ls"])).ok().unwrap();
    assert_eq!(o.directory, "/tmp/");
    assert_eq!(o.repetitions, vec![1]);
    assert_eq!(o.commands, strings(&["ls"]));
    let o = options_from(false, Some("/var/x".to_string()), &strings(&["1", "ls"])).ok().unwrap();
    assert_eq!(o.directory, "/var/x");
}

#[test]
fn options_from_passes_usage_errors_on() {
    let r = options_from(false, None, &strings(&["3", "echo hi", "2"]));
    assert_eq!(r.err(), Some("pairs of commands are needed".to_string()));
}
