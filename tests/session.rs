use purge::catalog::{is_shown, visible_packages, PackageInfo};
use purge::gateway::{detect_device, get_device_model, list_packages, DeviceError};
use purge::protocol::{Command, Event};
use purge::session::{Session, Status};
use purge::worker::{Action, Job, Reply};

fn s(x: &str) -> String {
    x.to_string()
}

fn sorted(v: &[String]) -> Vec<String> {
    let mut w = v.to_vec();
    w.sort();
    w
}

/// Runs one command through a job, answering each action with `answer`.
fn run(cmd: Command, mut answer: impl FnMut(&Action) -> Reply) -> Vec<Event> {
    let mut job = Job::new(cmd);
    let mut events = Vec::new();
    loop {
        let action = job.action();
        if action == Action::Idle {
            break;
        }
        let reply = answer(&action);
        if let Some(e) = job.advance(reply) {
            events.push(e);
        }
    }
    events
}

#[test]
fn successful_refresh_scenario() {
    let devices = "List of devices attached\nXYZ\tdevice\n";
    let events = run(Command::DetectAndRefresh, |a| match a {
        Action::Detect => Reply::Detected(detect_device(devices)),
        Action::QueryModel => Reply::Model(get_device_model(true, "Pixel-7\n")),
        Action::ListPackages => Reply::Packages(Ok(list_packages("package:com.a\npackage:com.b\n"))),
        _ => panic!("unexpected action"),
    });
    assert_eq!(
        events,
        vec![Event::RefreshSucceeded(s("Pixel-7"), vec![s("com.a"), s("com.b")])]
    );
    let mut session = Session::new();
    assert_eq!(session.submit(Command::DetectAndRefresh), Ok(Command::DetectAndRefresh));
    assert_eq!(session.status, Status::Busy);
    assert_eq!(session.status_message, "Scanning for devices...");
    for e in events {
        assert_eq!(session.apply(e), None);
    }
    assert_eq!(sorted(&session.installed), vec![s("com.a"), s("com.b")]);
    assert_eq!(session.status, Status::Ready);
    assert_eq!(session.device_name, "Pixel-7");
    assert_eq!(session.status_message, "Ready.");
}

#[test]
fn no_device_scenario() {
    let mut calls = 0;
    let events = run(Command::DetectAndRefresh, |a| {
        calls += 1;
        match a {
            Action::Detect => Reply::Detected(detect_device("List of devices attached\n\n")),
            _ => panic!("the chain must stop at the first failure"),
        }
    });
    assert_eq!(calls, 1);
    assert_eq!(events, vec![Event::RefreshFailed(DeviceError::NoAuthorizedDevice)]);
    let mut session = Session::new();
    session.submit(Command::DetectAndRefresh).unwrap();
    session.apply(Event::RefreshSucceeded(s("Pixel-7"), vec![s("com.a")]));
    session.submit(Command::DetectAndRefresh).unwrap();
    session.apply(events[0].clone());
    assert!(session.installed.is_empty());
    assert_eq!(session.status, Status::Error(DeviceError::NoAuthorizedDevice));
    assert_eq!(session.device_name, "No Device Connected");
    assert_eq!(session.status_message, "Error: No authorized device found.");
}

#[test]
fn model_failure_stops_before_listing() {
    let events = run(Command::DetectAndRefresh, |a| match a {
        Action::Detect => Reply::Detected(Ok(())),
        Action::QueryModel => Reply::Model(Err(DeviceError::EmptyModel)),
        _ => panic!("the chain must stop at the first failure"),
    });
    assert_eq!(events, vec![Event::RefreshFailed(DeviceError::EmptyModel)]);
}

#[test]
fn batch_uninstall_scenario() {
    let mut session = Session::new();
    session.submit(Command::DetectAndRefresh).unwrap();
    session.apply(Event::RefreshSucceeded(
        s("Pixel-7"),
        vec![s("com.a"), s("com.b"), s("com.c"), s("com.d")],
    ));
    session.toggle(&s("com.a"));
    session.toggle(&s("com.b"));
    session.toggle(&s("com.c"));
    let cmd = session.purge_selected().expect("a purge is due");
    assert_eq!(session.status, Status::Busy);
    let mut attempted = Vec::new();
    let events = run(cmd, |a| match a {
        Action::Uninstall(id) => {
            attempted.push(id.clone());
            Reply::Attempted
        }
        Action::Conclude => Reply::Concluded,
        _ => panic!("unexpected action"),
    });
    assert_eq!(sorted(&attempted), vec![s("com.a"), s("com.b"), s("com.c")]);
    assert_eq!(
        events,
        vec![
            Event::UninstallProgress(1, 3),
            Event::UninstallProgress(2, 3),
            Event::UninstallProgress(3, 3),
            Event::UninstallFinished,
        ]
    );
    let mut chained = Vec::new();
    for e in events {
        if let Some(c) = session.apply(e.clone()) {
            chained.push(c);
        }
        if e == Event::UninstallProgress(2, 3) {
            assert_eq!(session.status_message, "Purging 2 of 3...");
            assert_eq!(session.progress, (2, 3));
        }
    }
    assert_eq!(chained, vec![Command::DetectAndRefresh]);
    assert!(session.selected.is_empty());
    assert_eq!(session.status, Status::Busy);
    assert_eq!(session.status_message, "Purge complete. Refreshing...");
    assert_eq!(session.progress, (0, 0));
}

#[test]
fn empty_batch_only_finishes() {
    let events = run(Command::Uninstall(vec![]), |a| match a {
        Action::Conclude => Reply::Concluded,
        _ => panic!("unexpected action"),
    });
    assert_eq!(events, vec![Event::UninstallFinished]);
}

#[test]
fn progress_counts_large_batches() {
    let ids: Vec<String> = (0..12).map(|i| format!("com.p{}", i)).collect();
    let events = run(Command::Uninstall(ids), |a| match a {
        Action::Uninstall(_) => Reply::Attempted,
        _ => Reply::Concluded,
    });
    assert_eq!(events.len(), 13);
    assert_eq!(events[11], Event::UninstallProgress(12, 12));
    let mut session = Session::new();
    session.apply(events[9].clone());
    assert_eq!(session.status_message, "Purging 10 of 12...");
}

#[test]
fn command_while_busy_is_refused() {
    let mut session = Session::new();
    assert_eq!(session.submit(Command::Reboot), Ok(Command::Reboot));
    assert_eq!(session.status_message, "Sending reboot command...");
    assert_eq!(
        session.submit(Command::Uninstall(vec![s("com.a")])),
        Err(Command::Uninstall(vec![s("com.a")]))
    );
    assert_eq!(session.submit(Command::DetectAndRefresh), Err(Command::DetectAndRefresh));
    assert_eq!(session.purge_selected(), None);
    assert_eq!(session.apply(Event::RebootFinished), None);
    assert_eq!(session.status, Status::Ready);
    assert_eq!(session.status_message, "Reboot command sent.");
    assert_eq!(session.submit(Command::DetectAndRefresh), Ok(Command::DetectAndRefresh));
}

#[test]
fn reboot_job_reports_once() {
    let events = run(Command::Reboot, |a| match a {
        Action::Reboot => Reply::Rebooted,
        _ => panic!("unexpected action"),
    });
    assert_eq!(events, vec![Event::RebootFinished]);
}

#[test]
fn refresh_drops_stale_selections() {
    let mut session = Session::new();
    session.submit(Command::DetectAndRefresh).unwrap();
    session.apply(Event::RefreshSucceeded(s("M"), vec![s("com.a"), s("com.b"), s("com.c")]));
    session.toggle(&s("com.a"));
    session.toggle(&s("com.c"));
    session.submit(Command::DetectAndRefresh).unwrap();
    session.apply(Event::RefreshSucceeded(s("M"), vec![s("com.b"), s("com.c"), s("com.c")]));
    assert_eq!(session.selected, vec![s("com.c")]);
    assert_eq!(sorted(&session.installed), vec![s("com.b"), s("com.c")]);
}

#[test]
fn selection_toggles_and_ignores_unknown() {
    let mut session = Session::new();
    session.apply(Event::RefreshSucceeded(s("M"), vec![s("com.a"), s("com.b")]));
    session.toggle(&s("com.x"));
    assert!(session.selected.is_empty());
    session.toggle(&s("com.a"));
    assert_eq!(session.selected, vec![s("com.a")]);
    session.toggle(&s("com.a"));
    assert!(session.selected.is_empty());
    session.select_all(&vec![s("com.b"), s("com.x"), s("com.a"), s("com.b")]);
    assert_eq!(session.selected, vec![s("com.b"), s("com.a")]);
    session.clear_selection();
    assert!(session.selected.is_empty());
}

fn info(id: &str, list: Option<&str>, removal: Option<&str>) -> PackageInfo {
    PackageInfo {
        id: s(id),
        list: list.map(s),
        description: None,
        dependencies: None,
        needed_by: None,
        labels: None,
        removal: removal.map(s),
    }
}

#[test]
fn catalog_filter_applies_every_condition() {
    let catalog = vec![
        info("com.google.Maps", Some("Google"), Some("Recommended")),
        info("com.google.photos", Some("Google"), Some("Advanced")),
        info("com.samsung.notes", Some("Oem"), Some("Recommended")),
        info("com.absent", Some("Google"), Some("Recommended")),
    ];
    let installed = vec![s("com.google.Maps"), s("com.google.photos"), s("com.samsung.notes")];
    let all = s("All");
    assert_eq!(visible_packages(&catalog, &installed, "", &all, &all), vec![0, 1, 2]);
    assert_eq!(visible_packages(&catalog, &installed, "MAPS", &all, &all), vec![0]);
    assert_eq!(visible_packages(&catalog, &installed, "google", &s("Google"), &s("Advanced")), vec![1]);
    assert_eq!(visible_packages(&catalog, &installed, "", &s("Oem"), &all), vec![2]);
    assert_eq!(visible_packages(&catalog, &installed, "zzz", &all, &all), Vec::<usize>::new());
}

#[test]
fn shown_takes_lowered_forms() {
    let p = info("com.Example", None, None);
    let installed = vec![s("com.Example")];
    let all = s("All");
    assert!(is_shown(&p, &installed, "com.example", "exam", &all, &all));
    assert!(!is_shown(&p, &installed, "com.example", "EXAM", &all, &all));
    assert!(!is_shown(&p, &installed, "com.example", "", &s("Google"), &all));
    assert!(!is_shown(&p, &vec![], "com.example", "", &all, &all));
}
