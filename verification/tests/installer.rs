use rayhunter::installer::{
    after_connect, after_send, connect_timed_out, output_names_digest, payload_arrived,
    rewrite_startup_script, to_hex, ConnectOutcome, ConnectStep, InstallStep, SendOutcome,
    DAEMON_LINE, STARTUP_SCRIPTS,
};

#[test]
fn hex_is_lower_case_two_digits_each() {
    assert_eq!(to_hex(&[]), "");
    assert_eq!(to_hex(&[0x00, 0x0a, 0xff, 0x10]), "000aff10");
}

#[test]
fn digest_is_looked_for_in_the_output() {
    let digest = [0xd4, 0x1d, 0x8c, 0xd9];
    assert!(output_names_digest("d41d8cd9  /data/local/tmp/file\n", &digest));
    assert!(output_names_digest("xxd41d8cd9", &digest));
    assert!(!output_names_digest("D41D8CD9  file", &digest));
    assert!(!output_names_digest("d41d8cd  file", &digest));
    assert!(!output_names_digest("", &digest));
    assert!(output_names_digest("", &[]));
}

#[test]
fn payload_is_verified_by_its_md5() {
    // The well-known digests of nothing and of "abc".
    assert!(payload_arrived(b"", "d41d8cd98f00b204e9800998ecf8427e  /data/local/tmp/f\n"));
    assert!(payload_arrived(b"abc", "900150983cd24fb0d6963f7d28e17f72  f"));
    assert!(!payload_arrived(b"abd", "900150983cd24fb0d6963f7d28e17f72  f"));
    assert!(!payload_arrived(b"abc", "md5sum: can't open 'f': No such file or directory"));
    assert!(!payload_arrived(b"abc", ""));
}

#[test]
fn sending_is_retried_up_to_three_times() {
    for attempt in 1..=5 {
        assert_eq!(after_send(attempt, SendOutcome::Verified), InstallStep::MoveIntoPlace);
    }
    assert_eq!(after_send(1, SendOutcome::TransferFailed), InstallStep::Retry { clean_up: false });
    assert_eq!(after_send(2, SendOutcome::TransferFailed), InstallStep::Retry { clean_up: false });
    assert_eq!(after_send(3, SendOutcome::TransferFailed), InstallStep::FailWithTransferError);
    assert_eq!(after_send(1, SendOutcome::NotVerified), InstallStep::Retry { clean_up: true });
    assert_eq!(after_send(2, SendOutcome::NotVerified), InstallStep::Retry { clean_up: true });
    assert_eq!(after_send(3, SendOutcome::NotVerified), InstallStep::FailVerification);
}

#[test]
fn connecting_is_retried_until_the_time_runs_out() {
    assert_eq!(after_connect(ConnectOutcome::Answered), ConnectStep::Connected);
    assert_eq!(after_connect(ConnectOutcome::Silent), ConnectStep::TryAgain);
    assert_eq!(after_connect(ConnectOutcome::NotFound), ConnectStep::TryAgain);
    assert_eq!(after_connect(ConnectOutcome::Busy), ConnectStep::FailBusy);
    assert_eq!(after_connect(ConnectOutcome::Failed), ConnectStep::FailWithError);
    assert!(!connect_timed_out(0));
    assert!(!connect_timed_out(29));
    assert!(connect_timed_out(30));
    assert!(connect_timed_out(31));
}

#[test]
fn startup_scripts_are_looked_for_in_order() {
    assert_eq!(
        STARTUP_SCRIPTS,
        ["/system/bin/initmifiservice.sh", "/system/etc/init.qcom.post_boot.sh"]
    );
}

#[test]
fn daemon_line_is_added_once() {
    let script = "#!/system/bin/sh\nsetprop foo bar\n";
    let (modified, removed) = rewrite_startup_script(script);
    assert_eq!(modified, format!("#!/system/bin/sh\nsetprop foo bar\n{}\n", DAEMON_LINE));
    assert!(!removed);
    // A second rewrite changes nothing.
    assert_eq!(rewrite_startup_script(&modified), (modified.clone(), false));
    // A line that names the daemon in any way counts.
    let custom = "echo start\n  /data/rayhunter/rayhunter-daemon --other &\n";
    assert_eq!(rewrite_startup_script(custom), (custom.to_string(), false));
}

#[test]
fn competitors_are_taken_out() {
    let script = "#!/system/bin/sh\n  startRIDL &\nsetprop a b\n/system/bin/startRIDL -x\n";
    let (modified, removed) = rewrite_startup_script(script);
    assert_eq!(modified, format!("#!/system/bin/sh\nsetprop a b\n{}\n", DAEMON_LINE));
    assert!(removed);
    // A competitor line that names the daemon is taken out too, and the
    // daemon line is added.
    let both = "startRIDL; /data/rayhunter/rayhunter-daemon\n";
    assert_eq!(rewrite_startup_script(both), (format!("{}\n", DAEMON_LINE), true));
}

#[test]
fn empty_and_unterminated_scripts() {
    assert_eq!(rewrite_startup_script(""), (format!("{}\n", DAEMON_LINE), false));
    assert_eq!(rewrite_startup_script("a"), (format!("a\n{}\n", DAEMON_LINE), false));
    assert_eq!(rewrite_startup_script("a\r\nb"), (format!("a\nb\n{}\n", DAEMON_LINE), false));
}

#[test]
fn a_trailing_empty_line_serves_as_the_final_newline() {
    let script = format!("{}\n\n", DAEMON_LINE);
    // The lines are the daemon line and an empty one: joined, they end
    // with a newline already.
    assert_eq!(rewrite_startup_script(&script), (format!("{}\n", DAEMON_LINE), false));
    assert_eq!(rewrite_startup_script("\n"), (format!("\n{}\n", DAEMON_LINE), false));
}
