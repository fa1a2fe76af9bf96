use udp_loopback::endpoints::{destination_port, DESTINATION_COUNT, LISTEN_PORT};
use udp_loopback::sender::{message_from_args, ArgError, Report, Sender, SenderStep};

fn args(list: &[&str]) -> Vec<String> {
    list.iter().map(|s| s.to_string()).collect()
}

/// Drives a fresh sender, answering its send requests with `results`, and
/// returns the ports it asked for.
fn drive(sender: &mut Sender, results: &[bool]) -> Vec<u16> {
    let mut asked = Vec::new();
    let mut i = 0;
    while let SenderStep::Send(port) = sender.next_step() {
        asked.push(port);
        let report = sender.record(results[i]);
        assert_eq!(report, Some(Report { port, sent: results[i] }));
        i += 1;
    }
    asked
}

#[test]
fn one_argument_gives_its_bytes() {
    let r = message_from_args(&args(&["Hello, World!"]));
    assert_eq!(r, Ok(b"Hello, World!".to_vec()));
}

#[test]
fn multibyte_argument_gives_utf8_bytes() {
    let r = message_from_args(&args(&["héllo ✓"]));
    assert_eq!(r, Ok("héllo ✓".as_bytes().to_vec()));
    assert_eq!(r.unwrap().len(), 10);
}

#[test]
fn empty_message_is_accepted() {
    assert_eq!(message_from_args(&args(&[""])), Ok(Vec::new()));
}

#[test]
fn no_argument_is_a_usage_error() {
    assert_eq!(message_from_args(&args(&[])), Err(ArgError::WrongCount(0)));
}

#[test]
fn two_arguments_are_a_usage_error() {
    assert_eq!(
        message_from_args(&args(&["Hello,", "World!"])),
        Err(ArgError::WrongCount(2))
    );
}

#[test]
fn three_arguments_are_a_usage_error() {
    assert_eq!(
        message_from_args(&args(&["a", "b", "c"])),
        Err(ArgError::WrongCount(3))
    );
}

#[test]
fn destination_ports_in_order() {
    assert_eq!(DESTINATION_COUNT, 4);
    let ports: Vec<u16> = (0..DESTINATION_COUNT).map(destination_port).collect();
    assert_eq!(ports, vec![8080, 8081, 8082, 8083]);
    assert!(ports.contains(&LISTEN_PORT));
    assert_eq!(LISTEN_PORT, 8082);
}

#[test]
fn fresh_sender_starts_at_first_port() {
    let sender = Sender::new();
    assert_eq!(sender.next_step(), SenderStep::Send(8080));
    assert!(sender.reports().is_empty());
}

#[test]
fn hello_world_with_one_listener() {
    let mut sender = Sender::new();
    let asked = drive(&mut sender, &[false, false, true, false]);
    assert_eq!(asked, vec![8080, 8081, 8082, 8083]);
    let reports = sender.reports();
    assert_eq!(
        reports,
        vec![
            Report { port: 8080, sent: false },
            Report { port: 8081, sent: false },
            Report { port: 8082, sent: true },
            Report { port: 8083, sent: false },
        ]
    );
    assert_eq!(reports.iter().filter(|r| r.sent).count(), 1);
    assert_eq!(reports.iter().filter(|r| !r.sent).count(), 3);
}

#[test]
fn every_port_tried_when_all_fail() {
    let mut sender = Sender::new();
    let asked = drive(&mut sender, &[false, false, false, false]);
    assert_eq!(asked, vec![8080, 8081, 8082, 8083]);
    assert!(sender.reports().iter().all(|r| !r.sent));
}

#[test]
fn first_failure_does_not_stop_the_rest() {
    let mut sender = Sender::new();
    let asked = drive(&mut sender, &[false, true, true, true]);
    assert_eq!(asked, vec![8080, 8081, 8082, 8083]);
    assert_eq!(sender.next_step(), SenderStep::Finished);
}

#[test]
fn record_after_finish_changes_nothing() {
    let mut sender = Sender::new();
    drive(&mut sender, &[true, true, true, true]);
    assert_eq!(sender.record(false), None);
    assert_eq!(sender.reports().len(), 4);
    assert!(sender.reports().iter().all(|r| r.sent));
    assert_eq!(sender.next_step(), SenderStep::Finished);
}
