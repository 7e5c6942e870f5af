use strand::fetch::{FetchError, RetryPolicy};
use strand::install::{
    Action, Event, InstallError, InstallState, InstallStateKind, Installer, Phase, Step,
};
use strand::Plugin;

fn policy(max_attempts: u32) -> RetryPolicy {
    RetryPolicy {
        max_attempts,
        backoff_millis: 250,
    }
}

fn state(status: InstallStateKind, name: &str) -> InstallState {
    InstallState {
        status,
        name: name.to_string(),
    }
}

fn statuses(shown: &[InstallState]) -> Vec<InstallStateKind> {
    shown.iter().map(|s| s.status.clone()).collect()
}

const URL: &str = "https://codeload.github.com/alice/tool/tar.gz/master";

// Drives an installer as the caller of the library does, with scripted outcomes
// for the requests and for the unpacking.
fn drive(
    installer: &mut Installer,
    plugin: &Plugin,
    responses: Vec<Result<Vec<u8>, String>>,
    unpack: Result<(), String>,
) -> (Vec<InstallState>, Vec<u64>, Result<(), InstallError>) {
    let mut shown = Vec::new();
    let mut waits = Vec::new();
    let mut responses = responses.into_iter();
    let mut step = installer.start(plugin);
    loop {
        shown.append(&mut step.emit);
        step = match step.action {
            Action::Fetch { url, wait_millis } => {
                assert_eq!(url, URL);
                waits.push(wait_millis);
                installer.step(Event::Fetched(responses.next().expect("a response")))
            }
            Action::Extract { bytes } => {
                assert_eq!(bytes, b"archive".to_vec());
                installer.step(Event::Extracted(unpack.clone()))
            }
            Action::Finish(result) => return (shown, waits, result),
            Action::Ignore => panic!("an event was ignored"),
        };
    }
}

#[test]
fn successful_install_shows_the_three_phases() {
    let plugin = Plugin::from_str("alice/tool").unwrap();
    let mut installer = Installer::for_plugin(&plugin, policy(5));
    assert_eq!(installer.phase(), Phase::Ready);
    assert_eq!(installer.name(), "tool");
    let (shown, waits, result) = drive(
        &mut installer,
        &plugin,
        vec![Ok(b"archive".to_vec())],
        Ok(()),
    );
    assert_eq!(
        shown,
        vec![
            state(InstallStateKind::Downloading, "tool"),
            state(InstallStateKind::Extracting, "tool"),
            state(InstallStateKind::Installed, "tool"),
        ]
    );
    assert_eq!(waits, vec![0]);
    assert_eq!(result, Ok(()));
    assert_eq!(installer.phase(), Phase::Installed);
}

#[test]
fn retries_come_before_extracting() {
    let plugin = Plugin::from_str("alice/tool").unwrap();
    let mut installer = Installer::for_plugin(&plugin, policy(5));
    let (shown, waits, result) = drive(
        &mut installer,
        &plugin,
        vec![
            Err("timed out".to_string()),
            Err("timed out".to_string()),
            Ok(b"archive".to_vec()),
        ],
        Ok(()),
    );
    assert_eq!(
        statuses(&shown),
        vec![
            InstallStateKind::Downloading,
            InstallStateKind::Retry(1),
            InstallStateKind::Retry(2),
            InstallStateKind::Extracting,
            InstallStateKind::Installed,
        ]
    );
    assert_eq!(waits, vec![0, 250, 250]);
    assert_eq!(result, Ok(()));
}

#[test]
fn exhausted_fetch_ends_in_one_error() {
    let plugin = Plugin::from_str("alice/tool").unwrap();
    let mut installer = Installer::for_plugin(&plugin, policy(3));
    let (shown, waits, result) = drive(
        &mut installer,
        &plugin,
        vec![
            Err("refused 1".to_string()),
            Err("refused 2".to_string()),
            Err("refused 3".to_string()),
        ],
        Ok(()),
    );
    assert_eq!(
        statuses(&shown),
        vec![
            InstallStateKind::Downloading,
            InstallStateKind::Retry(1),
            InstallStateKind::Retry(2),
            InstallStateKind::Error("failed downloading plugin".to_string()),
        ]
    );
    assert_eq!(waits, vec![0, 250, 250]);
    assert_eq!(
        result,
        Err(InstallError::Fetch(FetchError::Exhausted(
            "refused 3".to_string()
        )))
    );
    assert_eq!(installer.phase(), Phase::Failed);
}

#[test]
fn missing_archive_fails_without_retry() {
    let plugin = Plugin::from_str("alice/tool").unwrap();
    let mut installer = Installer::for_plugin(&plugin, policy(5));
    let (shown, waits, result) = drive(
        &mut installer,
        &plugin,
        vec![Ok(b"404: Not Found\n".to_vec())],
        Ok(()),
    );
    assert_eq!(
        statuses(&shown),
        vec![
            InstallStateKind::Downloading,
            InstallStateKind::Error("plugin does not exist (404)".to_string()),
        ]
    );
    assert_eq!(waits, vec![0]);
    assert_eq!(result, Err(InstallError::Fetch(FetchError::NotFound)));
}

#[test]
fn failed_unpacking_ends_in_one_error() {
    let plugin = Plugin::from_str("alice/tool").unwrap();
    let mut installer = Installer::for_plugin(&plugin, policy(5));
    let (shown, _, result) = drive(
        &mut installer,
        &plugin,
        vec![Ok(b"archive".to_vec())],
        Err("not a gzip stream".to_string()),
    );
    assert_eq!(
        statuses(&shown),
        vec![
            InstallStateKind::Downloading,
            InstallStateKind::Extracting,
            InstallStateKind::Error("failed to extract plugin archive".to_string()),
        ]
    );
    assert_eq!(
        result,
        Err(InstallError::Extract("not a gzip stream".to_string()))
    );
    assert_eq!(installer.phase(), Phase::Failed);
}

#[test]
fn unresolvable_plugin_fails_before_any_request() {
    let mut installer = Installer::new("broken", policy(5));
    let step = installer.step(Event::Resolved(Err("empty host".to_string())));
    assert_eq!(
        step,
        Step {
            emit: vec![
                state(InstallStateKind::Downloading, "broken"),
                state(InstallStateKind::Error("empty host".to_string()), "broken"),
            ],
            action: Action::Finish(Err(InstallError::Resolve("empty host".to_string()))),
        }
    );
    assert_eq!(installer.phase(), Phase::Failed);
}

#[test]
fn no_attempts_fail_before_any_request() {
    let mut installer = Installer::new("tool", policy(0));
    let step = installer.step(Event::Resolved(Ok(URL.to_string())));
    assert_eq!(
        step,
        Step {
            emit: vec![
                state(InstallStateKind::Downloading, "tool"),
                state(
                    InstallStateKind::Error("failed downloading plugin".to_string()),
                    "tool"
                ),
            ],
            action: Action::Finish(Err(InstallError::Fetch(FetchError::Exhausted(
                String::new()
            )))),
        }
    );
}

#[test]
fn start_asks_for_the_resolved_url() {
    let plugin = Plugin::from_str("gitlab@bob/lib:main").unwrap();
    let mut installer = Installer::for_plugin(&plugin, policy(2));
    let step = installer.start(&plugin);
    assert_eq!(
        step,
        Step {
            emit: vec![state(InstallStateKind::Downloading, "lib")],
            action: Action::Fetch {
                url: "https://gitlab.com/bob/lib/-/archive/main/bob-main.tar.gz".to_string(),
                wait_millis: 0
            },
        }
    );
    assert_eq!(installer.phase(), Phase::Downloading);
}

#[test]
fn events_out_of_turn_are_ignored() {
    let ignored = Step {
        emit: Vec::new(),
        action: Action::Ignore,
    };
    let mut installer = Installer::new("tool", policy(5));
    assert_eq!(installer.step(Event::Fetched(Ok(Vec::new()))), ignored);
    assert_eq!(installer.step(Event::Extracted(Ok(()))), ignored);
    assert_eq!(installer.phase(), Phase::Ready);

    installer.step(Event::Resolved(Ok(URL.to_string())));
    assert_eq!(installer.step(Event::Resolved(Ok(URL.to_string()))), ignored);
    assert_eq!(installer.step(Event::Extracted(Ok(()))), ignored);
    assert_eq!(installer.phase(), Phase::Downloading);

    installer.step(Event::Fetched(Ok(b"archive".to_vec())));
    assert_eq!(installer.step(Event::Fetched(Ok(Vec::new()))), ignored);
    assert_eq!(installer.phase(), Phase::Extracting);
}

#[test]
fn nothing_follows_the_end() {
    let ignored = Step {
        emit: Vec::new(),
        action: Action::Ignore,
    };
    let mut done = Installer::new("tool", policy(5));
    done.step(Event::Resolved(Ok(URL.to_string())));
    done.step(Event::Fetched(Ok(b"archive".to_vec())));
    done.step(Event::Extracted(Ok(())));
    assert_eq!(done.phase(), Phase::Installed);
    assert_eq!(done.step(Event::Extracted(Ok(()))), ignored);
    assert_eq!(done.step(Event::Fetched(Err("late".to_string()))), ignored);
    assert_eq!(done.step(Event::Resolved(Err("late".to_string()))), ignored);
    assert_eq!(done.phase(), Phase::Installed);

    let mut failed = Installer::new("tool", policy(5));
    failed.step(Event::Resolved(Err("empty host".to_string())));
    assert_eq!(failed.step(Event::Resolved(Ok(URL.to_string()))), ignored);
    assert_eq!(failed.step(Event::Extracted(Ok(()))), ignored);
    assert_eq!(failed.phase(), Phase::Failed);
}

#[test]
fn one_failing_plugin_leaves_the_others_alone() {
    let good = Plugin::from_str("alice/tool").unwrap();
    let bad = Plugin::from_str("alice/tool").unwrap();
    let mut first = Installer::new("first", policy(2));
    let mut broken = Installer::new("broken", policy(2));
    let mut last = Installer::new("last", policy(2));

    // The three installations take turns.
    let mut shown_first = first.start(&good).emit;
    let mut shown_broken = broken.start(&bad).emit;
    let mut shown_last = last.start(&good).emit;
    shown_broken.append(&mut broken.step(Event::Fetched(Err("unreachable".to_string()))).emit);
    shown_first.append(&mut first.step(Event::Fetched(Ok(b"archive".to_vec()))).emit);
    let end_broken = broken.step(Event::Fetched(Err("unreachable".to_string())));
    shown_broken.extend(end_broken.emit);
    shown_last.append(&mut last.step(Event::Fetched(Ok(b"archive".to_vec()))).emit);
    let end_first = first.step(Event::Extracted(Ok(())));
    shown_first.extend(end_first.emit);
    let end_last = last.step(Event::Extracted(Ok(())));
    shown_last.extend(end_last.emit);

    assert_eq!(end_first.action, Action::Finish(Ok(())));
    assert_eq!(end_last.action, Action::Finish(Ok(())));
    assert_eq!(
        end_broken.action,
        Action::Finish(Err(InstallError::Fetch(FetchError::Exhausted(
            "unreachable".to_string()
        ))))
    );
    assert_eq!(
        statuses(&shown_first),
        vec![
            InstallStateKind::Downloading,
            InstallStateKind::Extracting,
            InstallStateKind::Installed
        ]
    );
    assert_eq!(statuses(&shown_last), statuses(&shown_first));
    assert_eq!(
        statuses(&shown_broken),
        vec![
            InstallStateKind::Downloading,
            InstallStateKind::Retry(1),
            InstallStateKind::Error("failed downloading plugin".to_string())
        ]
    );
    assert!(shown_first.iter().all(|s| s.name == "first"));
    assert!(shown_broken.iter().all(|s| s.name == "broken"));
    assert!(shown_last.iter().all(|s| s.name == "last"));
}

#[test]
fn install_error_messages() {
    assert_eq!(
        InstallError::Resolve("empty host".to_string()).to_string(),
        "empty host"
    );
    assert_eq!(
        InstallError::Fetch(FetchError::NotFound).to_string(),
        "plugin does not exist (404)"
    );
    assert_eq!(
        InstallError::Fetch(FetchError::Exhausted("x".to_string())).to_string(),
        "failed downloading plugin"
    );
    assert_eq!(
        InstallError::Extract("x".to_string()).to_string(),
        "failed to extract plugin archive"
    );
}
