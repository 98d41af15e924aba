use denia::desktop::{failure_script, loopback, parse_args, ExitGate, ExitMove};

fn parsed(words: &[&str]) -> Result<(Option<String>, Option<String>, Vec<String>), String> {
    let args: Vec<String> = words.iter().map(|word| word.to_string()).collect();
    let numbers: Vec<bool> = words.iter().map(|word| word.parse::<f64>().is_ok()).collect();
    parse_args(&args, &numbers).map(|args| (args.width, args.height, args.service))
}

#[test]
fn arguments_are_parted_between_shell_and_service() {
    let (width, height, service) =
        parsed(&["--port", "4000", "--width", "800", "--height", "600.5", "--width", "900"]).unwrap();
    assert_eq!(width.as_deref(), Some("900"));
    assert_eq!(height.as_deref(), Some("600.5"));
    assert_eq!(service, vec!["--port".to_string(), "4000".to_string()]);
    assert_eq!(parsed(&[]).unwrap(), (None, None, Vec::new()));
}

#[test]
fn first_fault_in_the_arguments_is_told() {
    assert_eq!(parsed(&["--width"]).unwrap_err(), "missing value for --width");
    assert_eq!(parsed(&["--height"]).unwrap_err(), "missing value for --height");
    assert_eq!(parsed(&["--height", "tall"]).unwrap_err(), "--height must be a number");
    assert_eq!(parsed(&["--width", "wide", "--height"]).unwrap_err(), "--width must be a number");
}

#[test]
fn service_is_told_to_stop_once_and_cleans_up_before_the_end() {
    let mut exit = ExitGate::new();
    assert_eq!(exit.exit_requested(), ExitMove::Hold { send: true });
    assert_eq!(exit.exit_requested(), ExitMove::Hold { send: false });
    assert!(!exit.signal());
    assert!(!exit.is_cleaned());
    exit.mark_cleaned();
    assert_eq!(exit.exit_requested(), ExitMove::Leave);
    assert!(ExitGate::new().signal());
}

#[test]
fn window_shows_the_service_or_why_there_is_none() {
    assert_eq!(loopback(3600), "http://127.0.0.1:3600");
    assert_eq!(
        failure_script("no \"port\""),
        "document.body.dataset.fatal = '1';document.getElementById('fatal-message').textContent = \
         \"no \\\"port\\\"\";"
    );
}
