use purge::catalog::filter_choices;
use purge::protocol::{Command, Event};
use purge::worker::{Action, Reply, Worker};

fn s(x: &str) -> String {
    x.to_string()
}

#[test]
fn worker_takes_commands_in_submission_order() {
    let mut w = Worker::new();
    assert!(w.is_idle());
    w.submit(Command::Reboot);
    w.submit(Command::Uninstall(vec![s("com.a")]));
    assert!(!w.is_idle());
    let mut log = Vec::new();
    loop {
        let reply = match w.next_action() {
            Action::Idle => break,
            Action::Reboot => Reply::Rebooted,
            Action::Uninstall(id) => {
                log.push(format!("uninstall {}", id));
                Reply::Attempted
            }
            Action::Conclude => Reply::Concluded,
            other => panic!("unexpected action {:?}", other),
        };
        if let Some(e) = w.advance(reply) {
            log.push(format!("{:?}", e));
        }
    }
    assert_eq!(
        log,
        vec![
            format!("{:?}", Event::RebootFinished),
            s("uninstall com.a"),
            format!("{:?}", Event::UninstallProgress(1, 1)),
            format!("{:?}", Event::UninstallFinished),
        ]
    );
    assert!(w.is_idle());
}

#[test]
fn unfinished_job_keeps_the_worker() {
    let mut w = Worker::new();
    w.submit(Command::DetectAndRefresh);
    assert_eq!(w.next_action(), Action::Detect);
    w.submit(Command::Reboot);
    assert_eq!(w.next_action(), Action::Detect);
    assert_eq!(w.advance(Reply::Detected(Ok(()))), None);
    assert_eq!(w.next_action(), Action::QueryModel);
    assert_eq!(w.pending, vec![Command::Reboot]);
}

#[test]
fn choices_are_all_then_sorted_distinct_values() {
    let values = vec![Some(s("Oem")), None, Some(s("Google")), Some(s("Aosp")), Some(s("Google"))];
    assert_eq!(filter_choices(&values), vec![s("All"), s("Aosp"), s("Google"), s("Oem")]);
}

#[test]
fn choices_of_nothing_are_all() {
    assert_eq!(filter_choices(&vec![None, None]), vec![s("All")]);
}

#[test]
fn choices_order_by_characters() {
    let values = vec![Some(s("b")), Some(s("ab")), Some(s("a")), Some(s("B"))];
    assert_eq!(filter_choices(&values), vec![s("All"), s("B"), s("a"), s("ab"), s("b")]);
}
