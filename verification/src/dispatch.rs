//! One run of the decompiler: its command line, and what is reported of how it ended.

use crate::export_type::{spelling, Category, ExportType};
use crate::names::{export_file_name, export_name, is_container};
use crate::path::RelPath;
use vstd::prelude::*;
use vstd::string::*;

verus! {

/// One run of the decompiler on one container file.
#[derive(Debug, Clone, PartialEq, Eq)]
pub struct Invocation {
    /// The category, spelled as the decompiler expects it.
    pub category: String,
    /// Where the export goes, below the output root.
    pub output: RelPath,
    /// The container file, below the input root.
    pub input: RelPath,
}

/// The mathematical value of an [`Invocation`].
pub struct InvocationView {
    pub category: Seq<char>,
    pub output: Seq<Seq<char>>,
    pub input: Seq<Seq<char>>,
}

impl View for Invocation {
    type V = InvocationView;

    open spec fn view(&self) -> InvocationView {
        InvocationView { category: self.category@, output: self.output@, input: self.input@ }
    }
}

/// The run that exports `category` from the container `name` in the
/// directory `dir`: the export goes to the same directory below the output
/// root, under the export name.
pub open spec fn invocation_for(category: Category, dir: Seq<Seq<char>>, name: Seq<char>)
    -> InvocationView {
    InvocationView {
        category: spelling(category),
        output: dir.push(export_name(name)),
        input: dir.push(name),
    }
}

/// One word of the decompiler's command line.
#[derive(Debug, Clone, PartialEq, Eq)]
pub enum Argument {
    /// A word that is passed as it is.
    Word(String),
    /// The path of an entry below the output root.
    UnderOutputRoot(RelPath),
    /// The path of an entry below the input root.
    UnderInputRoot(RelPath),
}

/// The mathematical value of an [`Argument`].
pub enum ArgumentView {
    Word(Seq<char>),
    UnderOutputRoot(Seq<Seq<char>>),
    UnderInputRoot(Seq<Seq<char>>),
}

impl View for Argument {
    type V = ArgumentView;

    open spec fn view(&self) -> ArgumentView {
        match self {
            Argument::Word(word) => ArgumentView::Word(word@),
            Argument::UnderOutputRoot(path) => ArgumentView::UnderOutputRoot(path@),
            Argument::UnderInputRoot(path) => ArgumentView::UnderInputRoot(path@),
        }
    }
}

/// The command line of a run, after the program's name: the export flag, the
/// category, the output path and the input path, in this order.
pub open spec fn command_line(run: InvocationView) -> Seq<ArgumentView> {
    seq![
        ArgumentView::Word("-export"@),
        ArgumentView::Word(run.category),
        ArgumentView::UnderOutputRoot(run.output),
        ArgumentView::UnderInputRoot(run.input),
    ]
}

impl Invocation {
    /// The run for the file `name` in the directory `dir`, if `name` names a
    /// container file. Any other name gets no run.
    pub fn plan(category: &ExportType, dir: &RelPath, name: &str) -> (planned: Option<Invocation>)
        ensures
            planned is Some <==> is_container(name@),
            planned is Some ==> planned->Some_0@ == invocation_for(category@, dir@, name@),
    {
        match export_file_name(name) {
            Some(exported) => Some(
                Invocation {
                    category: String::from_str(category.as_str()),
                    output: dir.child(exported.as_str()),
                    input: dir.child(name),
                },
            ),
            None => None,
        }
    }

    /// The name of the decompiler's command.
    pub fn program() -> (name: &'static str)
        ensures
            name@ == "ffdec-cli"@,
    {
        "ffdec-cli"
    }

    /// The words of the command line after the program's name.
    pub fn arguments(&self) -> (words: Vec<Argument>)
        ensures
            words@.len() == 4,
            forall|i: int| 0 <= i < 4 ==> (#[trigger] words@[i])@ == command_line(self@)[i],
    {
        vec![
            Argument::Word(String::from_str("-export")),
            Argument::Word(self.category.clone()),
            Argument::UnderOutputRoot(self.output.clone()),
            Argument::UnderInputRoot(self.input.clone()),
        ]
    }
}

/// How a run of the decompiler ended.
#[derive(Debug, Clone, Copy, PartialEq, Eq, Structural)]
pub enum Outcome {
    /// The command could not be started.
    NotStarted,
    /// The command ran and did not exit with status zero.
    Failed,
    /// The command exited with status zero.
    Succeeded,
}

/// Where a notice is written.
#[derive(Debug, Clone, Copy, PartialEq, Eq, Structural)]
pub enum Channel {
    /// Standard output.
    Output,
    /// Standard error.
    Error,
}

/// What is said of a run that ended.
#[derive(Debug, Clone, PartialEq, Eq)]
pub enum Notice {
    /// The command of this name could not be started.
    MissingCommand(String),
    /// The export of this container file failed.
    ExportFailed(RelPath),
    /// The export was written under this output path.
    Exported(RelPath),
}

/// The mathematical value of a [`Notice`].
pub enum NoticeView {
    MissingCommand(Seq<char>),
    ExportFailed(Seq<Seq<char>>),
    Exported(Seq<Seq<char>>),
}

impl View for Notice {
    type V = NoticeView;

    open spec fn view(&self) -> NoticeView {
        match self {
            Notice::MissingCommand(name) => NoticeView::MissingCommand(name@),
            Notice::ExportFailed(path) => NoticeView::ExportFailed(path@),
            Notice::Exported(path) => NoticeView::Exported(path@),
        }
    }
}

/// The outcome of a run that started or not, and, if it ended by itself, its
/// exit status: only status zero is a success.
pub open spec fn outcome_of(started: bool, status: Option<i32>) -> Outcome {
    if !started {
        Outcome::NotStarted
    } else if status == Some(0i32) {
        Outcome::Succeeded
    } else {
        Outcome::Failed
    }
}

/// What is said of `run` after it ended with `outcome`.
pub open spec fn notice_of(outcome: Outcome, run: InvocationView) -> NoticeView {
    match outcome {
        Outcome::NotStarted => NoticeView::MissingCommand("ffdec-cli"@),
        Outcome::Failed => NoticeView::ExportFailed(run.input),
        Outcome::Succeeded => NoticeView::Exported(run.output),
    }
}

/// Where the notice of an outcome is written: a success to standard output,
/// anything else to standard error.
pub open spec fn channel_of(outcome: Outcome) -> Channel {
    match outcome {
        Outcome::Succeeded => Channel::Output,
        _ => Channel::Error,
    }
}

impl Outcome {
    /// The outcome of a run. `started` says whether the command could be
    /// started, `status` is its exit status where it ended by itself.
    pub fn from_status(started: bool, status: Option<i32>) -> (outcome: Outcome)
        ensures
            outcome == outcome_of(started, status),
    {
        if !started {
            return Outcome::NotStarted;
        }
        match status {
            Some(code) => if code == 0 {
                Outcome::Succeeded
            } else {
                Outcome::Failed
            },
            None => Outcome::Failed,
        }
    }

    /// Where the notice of this outcome is written.
    pub fn channel(&self) -> (channel: Channel)
        ensures
            channel == channel_of(*self),
    {
        match self {
            Outcome::Succeeded => Channel::Output,
            _ => Channel::Error,
        }
    }

    /// What is said of `run` after it ended with this outcome.
    pub fn notice(&self, run: &Invocation) -> (notice: Notice)
        ensures
            notice@ == notice_of(*self, run@),
    {
        match self {
            Outcome::NotStarted => Notice::MissingCommand(String::from_str(Invocation::program())),
            Outcome::Failed => Notice::ExportFailed(run.input.clone()),
            Outcome::Succeeded => Notice::Exported(run.output.clone()),
        }
    }
}

} // verus!
