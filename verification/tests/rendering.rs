use strand::install::{InstallState, InstallStateKind};
use strand::progress::{line_for, line_with, Line};

fn state(status: InstallStateKind) -> InstallState {
    InstallState {
        status,
        name: "tool".to_string(),
    }
}

#[test]
fn labels() {
    assert_eq!(InstallStateKind::Downloading.label(), "Downloading");
    assert_eq!(InstallStateKind::Extracting.label(), "Extracting");
    assert_eq!(InstallStateKind::Installed.label(), "Installed");
    assert_eq!(InstallStateKind::Retry(1).label(), "Retry");
    assert_eq!(InstallStateKind::Error(String::new()).label(), "Error");
}

#[test]
fn statuses_are_laid_out_around_their_label() {
    assert_eq!(InstallStateKind::Downloading.render("Downloading"), "Downloading");
    assert_eq!(InstallStateKind::Extracting.render("Extracting"), " Extracting");
    assert_eq!(InstallStateKind::Installed.render("Installed"), "✓ Installed");
    assert_eq!(
        InstallStateKind::Retry(3).render("Retry"),
        "      Retry: attempt #3 of"
    );
    assert_eq!(
        InstallStateKind::Retry(12).render("Retry"),
        "      Retry: attempt #12 of"
    );
    assert_eq!(
        InstallStateKind::Error("plugin does not exist (404)".to_string()).render("Error"),
        "×     Error: plugin does not exist (404)"
    );
}

#[test]
fn reports_end_with_the_name() {
    assert_eq!(
        state(InstallStateKind::Downloading).render("Downloading"),
        "Downloading tool"
    );
    assert_eq!(
        state(InstallStateKind::Retry(2)).render("Retry"),
        "      Retry: attempt #2 of tool"
    );
    assert_eq!(
        state(InstallStateKind::Error("failed downloading plugin".to_string())).render("Error"),
        "×     Error: failed downloading plugin tool"
    );
}

#[test]
fn lines_end_with_two_spaces() {
    assert_eq!(
        line_with(&state(InstallStateKind::Extracting), "Extracting"),
        Line {
            text: " Extracting tool  ".to_string(),
            last: false
        }
    );
    assert_eq!(
        line_with(&state(InstallStateKind::Installed), "Installed"),
        Line {
            text: "✓ Installed tool  ".to_string(),
            last: true
        }
    );
}

#[test]
fn only_terminal_states_give_the_last_line() {
    assert!(!line_for(&state(InstallStateKind::Downloading)).last);
    assert!(!line_for(&state(InstallStateKind::Extracting)).last);
    assert!(!line_for(&state(InstallStateKind::Retry(1))).last);
    assert!(line_for(&state(InstallStateKind::Installed)).last);
    assert!(line_for(&state(InstallStateKind::Error("x".to_string()))).last);
}

#[test]
fn styled_text_with_and_without_colours() {
    colored::control::set_override(false);
    assert_eq!(state(InstallStateKind::Downloading).to_string(), "Downloading tool");
    assert_eq!(InstallStateKind::Installed.to_string(), "✓ Installed");
    assert_eq!(
        line_for(&state(InstallStateKind::Retry(4))).text,
        "      Retry: attempt #4 of tool  "
    );

    colored::control::set_override(true);
    assert_eq!(
        InstallStateKind::Downloading.to_string(),
        "\u{1b}[1;36mDownloading\u{1b}[0m"
    );
    assert_eq!(
        InstallStateKind::Extracting.to_string(),
        " \u{1b}[1;34mExtracting\u{1b}[0m"
    );
    assert_eq!(
        InstallStateKind::Installed.to_string(),
        "✓ \u{1b}[1;32mInstalled\u{1b}[0m"
    );
    assert_eq!(
        InstallStateKind::Retry(1).to_string(),
        "      \u{1b}[1;33mRetry\u{1b}[0m: attempt #1 of"
    );
    assert_eq!(
        state(InstallStateKind::Error("x".to_string())).to_string(),
        "×     \u{1b}[1;31mError\u{1b}[0m: x tool"
    );
    colored::control::unset_override();
}
