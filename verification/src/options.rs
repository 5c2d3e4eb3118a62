//! The settings of one search run.

use vstd::prelude::*;

verus! {

/// What one run searches for, where, and how. Built once and only read afterwards.
#[derive(Debug, Clone)]
pub struct Options {
    /// The regular expression, as the user wrote it.
    pub pattern: String,
    /// The paths to search, when any were given.
    pub files: Option<Vec<String>>,
    /// The text to search, when no path was given.
    pub text: Option<String>,
    /// Descend into directories instead of skipping them.
    pub recursive: bool,
    /// Match letters regardless of case.
    pub case_insensitive: bool,
    /// Report the lines that do not match.
    pub invert_match: bool,
}

/// Where a run takes its input from.
pub enum Source<'a> {
    /// One text held in memory.
    Text(&'a String),
    /// A list of files and directories, never empty.
    Paths(&'a Vec<String>),
    /// Neither a text nor a path; no well-formed options give this.
    Nothing,
}

impl Options {
    /// Exactly one of the text and the path list is present, and a present
    /// path list is not empty.
    pub open spec fn well_formed(&self) -> bool {
        &&& (self.files is Some) != (self.text is Some)
        &&& (self.files matches Some(files) ==> files@.len() > 0)
    }

    /// Whether the options hold a path list with at least one path.
    pub open spec fn has_paths(&self) -> bool {
        self.files matches Some(files) && files@.len() > 0
    }

    /// Whether a run with these path arguments takes its text from standard
    /// input: exactly when no path was given.
    pub fn reads_standard_input(files: &Vec<String>) -> (reads: bool)
        ensures
            reads == (files@.len() == 0),
    {
        files.len() == 0
    }

    /// Builds the options of a run from the parsed arguments and the text
    /// read from standard input. A non-empty path list is the source and the
    /// text is ignored; without paths the text is the source, empty or not.
    pub fn assemble(
        pattern: String,
        files: Vec<String>,
        input: String,
        recursive: bool,
        case_insensitive: bool,
        invert_match: bool,
    ) -> (options: Options)
        ensures
            options.well_formed(),
            options.pattern == pattern,
            options.recursive == recursive,
            options.case_insensitive == case_insensitive,
            options.invert_match == invert_match,
            options.files == (if files@.len() > 0 {
                Some(files)
            } else {
                None::<Vec<String>>
            }),
            options.text == (if files@.len() == 0 {
                Some(input)
            } else {
                None::<String>
            }),
    {
        if files.len() == 0 {
            Options {
                pattern,
                files: None,
                text: Some(input),
                recursive,
                case_insensitive,
                invert_match,
            }
        } else {
            Options {
                pattern,
                files: Some(files),
                text: None,
                recursive,
                case_insensitive,
                invert_match,
            }
        }
    }

    /// The input of the run: the paths when the list holds any, else the
    /// text when one is present. Well-formed options always have one of the
    /// two.
    pub fn source(&self) -> (source: Source<'_>)
        ensures
            match source {
                Source::Paths(files) => self.has_paths() && self.files == Some(*files),
                Source::Text(text) => !self.has_paths() && self.text == Some(*text),
                Source::Nothing => !self.has_paths() && self.text is None,
            },
            self.well_formed() ==> !(source is Nothing),
    {
        if let Some(files) = &self.files {
            if files.len() > 0 {
                return Source::Paths(files);
            }
        }
        match &self.text {
            Some(text) => Source::Text(text),
            None => Source::Nothing,
        }
    }
}

} // verus!
