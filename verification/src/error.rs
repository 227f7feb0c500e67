//! Errors that the tool reports to its user, each with a suggestion.

use crate::models::text_of;
use vstd::prelude::*;
use vstd::string::StringExecFns;

verus! {

/// An error with the message for the user and, where there is one, a
/// suggestion of what to do about it.
#[derive(Debug)]
pub struct CodeDebtError {
    pub message: String,
    pub suggestion: Option<String>,
}

/// What became of the path that a scan was asked to start from.
#[derive(Clone, Copy, Debug, PartialEq, Eq, Structural)]
pub enum PathProblem {
    /// Nothing exists at the path.
    Missing,
    /// The path names something that is no directory.
    NotADirectory,
    /// The directory is there but cannot be read.
    Inaccessible,
}

/// The problem with a root path, from what the file system says of it.
pub open spec fn path_problem(exists: bool, is_dir: bool) -> PathProblem {
    if !exists {
        PathProblem::Missing
    } else if !is_dir {
        PathProblem::NotADirectory
    } else {
        PathProblem::Inaccessible
    }
}

/// The message for a problem with a root path.
pub open spec fn path_message(path: Seq<char>, problem: PathProblem) -> Seq<char> {
    match problem {
        PathProblem::Missing => "Path '"@ + path + "' does not exist"@,
        PathProblem::NotADirectory => "Path '"@ + path + "' is not a directory"@,
        PathProblem::Inaccessible => "Cannot access path '"@ + path + "'"@,
    }
}

/// The suggestion for a problem with a root path.
pub open spec fn path_suggestion(problem: PathProblem) -> Seq<char> {
    match problem {
        PathProblem::Missing => "Check the path and try again. Use '.' for current directory."@,
        PathProblem::NotADirectory => "Please provide a directory path, not a file."@,
        PathProblem::Inaccessible => "Check permissions and try again."@,
    }
}

/// The text of an error: the message, and the suggestion on a line of its
/// own where there is one.
pub open spec fn error_text(message: Seq<char>, suggestion: Option<Seq<char>>) -> Seq<char> {
    match suggestion {
        Some(s) => "Error: "@ + message + "\nSuggestion: "@ + s,
        None => "Error: "@ + message,
    }
}

impl CodeDebtError {
    /// An error with a message and no suggestion.
    pub fn new(message: &str) -> (error: CodeDebtError)
        ensures
            error.message@ == message@,
            error.suggestion is None,
    {
        CodeDebtError { message: message.to_owned(), suggestion: None }
    }

    /// The error with a suggestion, which replaces the one it had.
    pub fn with_suggestion(self, suggestion: &str) -> (error: CodeDebtError)
        ensures
            error.message == self.message,
            text_of(error.suggestion) == Some(suggestion@),
    {
        let mut error = self;
        error.suggestion = Some(suggestion.to_owned());
        error
    }

    /// The error as plain text.
    pub fn to_text(&self) -> (text: String)
        ensures
            text@ == error_text(self.message@, text_of(self.suggestion)),
    {
        let mut text = "Error: ".to_owned();
        text.append(self.message.as_str());
        match &self.suggestion {
            Some(s) => {
                text.append("\nSuggestion: ");
                text.append(s.as_str());
            },
            None => {},
        }
        text
    }
}

/// The error for a root path that cannot be scanned, from what the file
/// system says of the path: whether anything exists there, and whether it is
/// a directory.
pub fn handle_path_error(path: &str, exists: bool, is_dir: bool) -> (error: CodeDebtError)
    ensures
        error.message@ == path_message(path@, path_problem(exists, is_dir)),
        text_of(error.suggestion) == Some(path_suggestion(path_problem(exists, is_dir))),
{
    if !exists {
        let mut message = "Path '".to_owned();
        message.append(path);
        message.append("' does not exist");
        CodeDebtError::new(message.as_str()).with_suggestion(
            "Check the path and try again. Use '.' for current directory.",
        )
    } else if !is_dir {
        let mut message = "Path '".to_owned();
        message.append(path);
        message.append("' is not a directory");
        CodeDebtError::new(message.as_str()).with_suggestion(
            "Please provide a directory path, not a file.",
        )
    } else {
        let mut message = "Cannot access path '".to_owned();
        message.append(path);
        message.append("'");
        CodeDebtError::new(message.as_str()).with_suggestion("Check permissions and try again.")
    }
}

/// Decides whether a scan can start from a root path, from what the file
/// system says of the path: whether anything exists there, whether it is a
/// directory, and whether the directory can be read. A root that cannot be
/// scanned yields the error that says why.
pub fn check_root(path: &str, exists: bool, is_dir: bool, readable: bool) -> (r: Result<
    (),
    CodeDebtError,
>)
    ensures
        r is Ok <==> exists && is_dir && readable,
        r matches Err(error) ==> error.message@ == path_message(
            path@,
            path_problem(exists, is_dir),
        ) && text_of(error.suggestion) == Some(path_suggestion(path_problem(exists, is_dir))),
{
    if exists && is_dir && readable {
        Ok(())
    } else {
        Err(handle_path_error(path, exists, is_dir))
    }
}

/// The error for history enrichment without a repository.
pub fn handle_git_error() -> (error: CodeDebtError)
    ensures
        error.message@ == "Git repository not found"@,
        text_of(error.suggestion) == Some(
            "Run 'git init' first, or disable git features with --no-git-blame"@,
        ),
{
    CodeDebtError::new("Git repository not found").with_suggestion(
        "Run 'git init' first, or disable git features with --no-git-blame",
    )
}

} // verus!
