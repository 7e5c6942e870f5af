//! The lines that show the progress of an installation.

use crate::install::{InstallState, InstallStateKind, InstallStateView, Status};
use crate::text::{chars_of, decimal, decimal_text, find_chars, lemma_first_occurrence, occurs_at};
use colored::Colorize;
use vstd::prelude::*;
use vstd::string::*;

verus! {

/// `colored::ColoredString`, a text together with the style it is to be
/// shown in. It is carried along as it comes; nothing is read from it.
#[verifier::external_type_specification]
#[verifier::external_body]
pub struct ExColoredString(colored::ColoredString);

/// `colored`'s `Colorize::cyan` on a string slice: the text, marked to be
/// shown in cyan.
#[verifier::external_body]
fn cyan(label: &str) -> colored::ColoredString {
    label.cyan()
}

/// `colored`'s `Colorize::blue` on a string slice.
#[verifier::external_body]
fn blue(label: &str) -> colored::ColoredString {
    label.blue()
}

/// `colored`'s `Colorize::green` on a string slice.
#[verifier::external_body]
fn green(label: &str) -> colored::ColoredString {
    label.green()
}

/// `colored`'s `Colorize::yellow` on a string slice.
#[verifier::external_body]
fn yellow(label: &str) -> colored::ColoredString {
    label.yellow()
}

/// `colored`'s `Colorize::red` on a string slice.
#[verifier::external_body]
fn red(label: &str) -> colored::ColoredString {
    label.red()
}

/// `colored`'s `Colorize::bold` on a text that has its colour.
#[verifier::external_body]
fn bold(label: colored::ColoredString) -> colored::ColoredString {
    label.bold()
}

/// What `colored::ColoredString` displays for a styled text, by `to_string`.
/// Whether the text comes with escape codes around it depends on the
/// terminal and the environment, so nothing is claimed of it.
#[verifier::external_body]
fn written(label: &colored::ColoredString) -> String {
    label.to_string()
}

/// The word that names a status.
pub open spec fn label_of(status: Status) -> Seq<char> {
    match status {
        Status::Downloading => "Downloading"@,
        Status::Extracting => "Extracting"@,
        Status::Installed => "Installed"@,
        Status::Retry(_) => "Retry"@,
        Status::Error(_) => "Error"@,
    }
}

/// A status written out around its label, which may have been styled.
pub open spec fn status_text(status: Status, label: Seq<char>) -> Seq<char> {
    match status {
        Status::Downloading => label,
        Status::Extracting => " "@ + label,
        Status::Installed => "✓ "@ + label,
        Status::Retry(attempt) => "      "@ + label + ": attempt #"@ + decimal_text(attempt)
            + " of"@,
        Status::Error(cause) => "×     "@ + label + ": "@ + cause,
    }
}

/// A progress report written out: the status, a space, the plugin's name.
pub open spec fn state_text(state: InstallStateView, label: Seq<char>) -> Seq<char> {
    status_text(state.status, label) + " "@ + state.name
}

impl InstallStateKind {
    /// The word that names this status.
    pub fn label(&self) -> (label: &'static str)
        ensures
            label@ == label_of(self@),
    {
        match self {
            InstallStateKind::Downloading => "Downloading",
            InstallStateKind::Extracting => "Extracting",
            InstallStateKind::Installed => "Installed",
            InstallStateKind::Retry(_) => "Retry",
            InstallStateKind::Error(_) => "Error",
        }
    }

    /// The label in bold and in the colour of this status, as the terminal
    /// is to get it; the plain label, should the styled text not hold it.
    fn styled_label(&self) -> (styled: String)
        ensures
            holds_label(styled@, label_of(self@)),
    {
        let label = self.label();
        let colored = match self {
            InstallStateKind::Downloading => cyan(label),
            InstallStateKind::Extracting => blue(label),
            InstallStateKind::Installed => green(label),
            InstallStateKind::Retry(_) => yellow(label),
            InstallStateKind::Error(_) => red(label),
        };
        let styled = written(&bold(colored));
        let wanted = chars_of(label);
        match find_chars(&chars_of(styled.as_str()), &wanted) {
            Some(_) => {
                proof {
                    lemma_first_occurrence(styled@, label@);
                }
                styled
            },
            None => {
                assert(label@.subrange(0, label@.len() as int) =~= label@);
                assert(occurs_at(label@, label@, 0));
                String::from_str(label)
            },
        }
    }

    /// Writes the status out around `label`.
    pub fn render(&self, label: &str) -> (text: String)
        ensures
            text@ == status_text(self@, label@),
    {
        match self {
            InstallStateKind::Downloading => String::from_str(label),
            InstallStateKind::Extracting => {
                let mut text = String::from_str(" ");
                text.append(label);
                text
            },
            InstallStateKind::Installed => {
                let mut text = String::from_str("✓ ");
                text.append(label);
                text
            },
            InstallStateKind::Retry(attempt) => {
                let mut text = String::from_str("      ");
                text.append(label);
                text.append(": attempt #");
                let number = decimal(*attempt);
                text.append(number.as_str());
                text.append(" of");
                text
            },
            InstallStateKind::Error(cause) => {
                let mut text = String::from_str("×     ");
                text.append(label);
                text.append(": ");
                text.append(cause.as_str());
                text
            },
        }
    }

    /// Writes the status out, with its label in bold and in its colour where
    /// the terminal shows colours.
    pub fn to_string(&self) -> (text: String)
        ensures
            exists|styled: Seq<char>|
                holds_label(styled, label_of(self@)) && text@ == #[trigger] status_text(
                    self@,
                    styled,
                ),
    {
        let styled = self.styled_label();
        self.render(styled.as_str())
    }
}

impl InstallState {
    /// Writes the report out around `label`.
    pub fn render(&self, label: &str) -> (text: String)
        ensures
            text@ == state_text(self@, label@),
    {
        let mut text = self.status.render(label);
        text.append(" ");
        text.append(self.name.as_str());
        text
    }

    /// Writes the report out, with its label in bold and in its colour where
    /// the terminal shows colours.
    pub fn to_string(&self) -> (text: String)
        ensures
            exists|styled: Seq<char>|
                holds_label(styled, label_of(self@.status)) && text@ == #[trigger] state_text(
                    self@,
                    styled,
                ),
    {
        let styled = self.status.styled_label();
        self.render(styled.as_str())
    }
}

/// `label` stands somewhere in `styled`: a style puts text around a label
/// and leaves the label itself as it is.
pub open spec fn holds_label(styled: Seq<char>, label: Seq<char>) -> bool {
    exists|at: int| occurs_at(styled, label, at)
}

/// What the renderer does with one progress report.
#[derive(Debug, PartialEq, Eq)]
pub struct Line {
    /// The text to show.
    pub text: String,
    /// The text is the last one for its plugin: it stays, and the renderer
    /// stops reading.
    pub last: bool,
}

/// The line for `state`, written around `label`: the report and two spaces.
/// It is the last line exactly where the status is `Installed` or an error.
pub fn line_with(state: &InstallState, label: &str) -> (line: Line)
    ensures
        line.text@ == state_text(state@, label@) + "  "@,
        line.last == state@.status.is_terminal(),
{
    let mut text = state.render(label);
    text.append("  ");
    let last = match state.status {
        InstallStateKind::Installed => true,
        InstallStateKind::Error(_) => true,
        _ => false,
    };
    Line { text, last }
}

/// The line for `state`, with its label styled for the terminal.
pub fn line_for(state: &InstallState) -> (line: Line)
    ensures
        exists|styled: Seq<char>|
            holds_label(styled, label_of(state@.status)) && line.text@ == #[trigger] state_text(
                state@,
                styled,
            ) + "  "@,
        line.last == state@.status.is_terminal(),
{
    let styled = state.status.styled_label();
    line_with(state, styled.as_str())
}

} // verus!
