//! The closed taxonomy of failures the front end can report.
//!
//! Every diagnostic owns a copy of the data that identifies what went wrong
//! (a path, a location, a line/column pair), so it outlives the structures
//! whose processing raised it.

use vstd::prelude::*;
use vstd::string::*;

use crate::location::join_segments;
use crate::strutil::{spec_dec_digits, usize_to_string};

verus! {

/// Mathematical model of a [`CompileException`]: the same taxonomy over
/// sequences and unbounded integers.
pub enum ExceptionModel {
    /// A source file could not be read; carries the file's path text.
    NoFileAccess(Seq<char>),
    /// An I/O failure inside a file; carries the file's path text.
    FileException(Seq<char>),
    /// Two declarations share one resource location; carries that location.
    DuplicateResource(Seq<Seq<char>>),
    /// A character no lexical rule covers; carries its text and (line, column).
    UnrecognizedToken(Seq<char>, int, int),
    /// End of input inside a string literal; carries the literal's starting
    /// (line, column).
    UnfinishedString(int, int),
    /// A backslash with nothing after it; carries its (line, column).
    UnrecognizedEscape(int, int),
}

/// One failure found while compiling: a file-access failure, a namespace
/// collision, or one of the lexical errors, each with the context needed to
/// render a message.
#[derive(Debug)]
pub enum CompileException {
    /// A source file could not be read.
    NoFileAccess(String),
    /// An I/O failure occurred inside a file.
    FileException(String),
    /// Two declarations share one resource location.
    DuplicateResource(crate::location::FireLocation),
    /// A character no lexical rule covers, with its text and (line, column).
    UnrecognizedToken(String, usize, usize),
    /// End of input inside a string literal, with its starting (line, column).
    UnfinishedString(usize, usize),
    /// A backslash with nothing after it, with its (line, column).
    UnrecognizedEscape(usize, usize),
}

impl View for CompileException {
    type V = ExceptionModel;

    open spec fn view(&self) -> ExceptionModel {
        match self {
            CompileException::NoFileAccess(p) => ExceptionModel::NoFileAccess(p@),
            CompileException::FileException(p) => ExceptionModel::FileException(p@),
            CompileException::DuplicateResource(l) => ExceptionModel::DuplicateResource(l@),
            CompileException::UnrecognizedToken(t, l, c) => ExceptionModel::UnrecognizedToken(
                t@,
                *l as int,
                *c as int,
            ),
            CompileException::UnfinishedString(l, c) => ExceptionModel::UnfinishedString(
                *l as int,
                *c as int,
            ),
            CompileException::UnrecognizedEscape(l, c) => ExceptionModel::UnrecognizedEscape(
                *l as int,
                *c as int,
            ),
        }
    }
}

/// The message text of a compile diagnostic: the kind of failure, the
/// offending text or location, and — for the lexical errors — the line and
/// column, as `line:column`.
pub open spec fn spec_exception_message(e: ExceptionModel) -> Seq<char> {
    match e {
        ExceptionModel::NoFileAccess(p) => "Cannot read file "@ + p + "."@,
        ExceptionModel::FileException(p) => "An error occurred inside of "@ + p + "."@,
        ExceptionModel::DuplicateResource(l) => "Duplicate resource "@ + join_segments(l) + "."@,
        ExceptionModel::UnrecognizedToken(t, l, c) => "Unrecognized token "@ + t + ". At "@
            + spec_dec_digits(l as nat) + ":"@ + spec_dec_digits(c as nat),
        ExceptionModel::UnfinishedString(l, c) => "Unfinished string. Started at "@
            + spec_dec_digits(l as nat) + ":"@ + spec_dec_digits(c as nat),
        ExceptionModel::UnrecognizedEscape(l, c) => "Unrecognized escape code. At "@
            + spec_dec_digits(l as nat) + ":"@ + spec_dec_digits(c as nat),
    }
}

impl CompileException {
    /// Renders this diagnostic as one human-readable line.
    pub fn message(&self) -> (r: String)
        ensures
            r@ == spec_exception_message(self@),
    {
        match self {
            CompileException::NoFileAccess(p) => {
                let mut s = String::from_str("Cannot read file ");
                s.append(p.as_str());
                s.append(".");
                s
            },
            CompileException::FileException(p) => {
                let mut s = String::from_str("An error occurred inside of ");
                s.append(p.as_str());
                s.append(".");
                s
            },
            CompileException::DuplicateResource(l) => {
                let mut s = String::from_str("Duplicate resource ");
                let rendered = l.render();
                s.append(rendered.as_str());
                s.append(".");
                s
            },
            CompileException::UnrecognizedToken(t, l, c) => {
                let mut s = String::from_str("Unrecognized token ");
                s.append(t.as_str());
                s.append(". At ");
                let ln = usize_to_string(*l);
                s.append(ln.as_str());
                s.append(":");
                let cn = usize_to_string(*c);
                s.append(cn.as_str());
                s
            },
            CompileException::UnfinishedString(l, c) => {
                let mut s = String::from_str("Unfinished string. Started at ");
                let ln = usize_to_string(*l);
                s.append(ln.as_str());
                s.append(":");
                let cn = usize_to_string(*c);
                s.append(cn.as_str());
                s
            },
            CompileException::UnrecognizedEscape(l, c) => {
                let mut s = String::from_str("Unrecognized escape code. At ");
                let ln = usize_to_string(*l);
                s.append(ln.as_str());
                s.append(":");
                let cn = usize_to_string(*c);
                s.append(cn.as_str());
                s
            },
        }
    }
}

/// A violation of the required project shape, found before any file is read.
#[derive(Clone, Copy, Debug, PartialEq, Eq, Structural)]
pub enum ProjectStructureException {
    /// The project path is not a directory.
    NotDir,
    /// The project has no `src` subdirectory.
    NoSrc,
    /// The project has no `target` subdirectory.
    NoTarget,
    /// The project's `src` subdirectory holds no entries at all.
    EmptySrc,
}

impl ProjectStructureException {
    /// The message text of this project-shape diagnostic.
    pub open spec fn spec_message(self) -> Seq<char> {
        match self {
            ProjectStructureException::NotDir => "Project must be a directory."@,
            ProjectStructureException::NoSrc => "Project does not contain a src subdirectory."@,
            ProjectStructureException::NoTarget => (
            "Project does not contain a target subdirectory."@),
            ProjectStructureException::EmptySrc => (
            "Project src folder does not contain any modules."@),
        }
    }

    /// Renders this diagnostic as one human-readable line.
    pub fn message(&self) -> (r: String)
        ensures
            r@ == self.spec_message(),
    {
        match self {
            ProjectStructureException::NotDir => String::from_str("Project must be a directory."),
            ProjectStructureException::NoSrc => String::from_str(
                "Project does not contain a src subdirectory.",
            ),
            ProjectStructureException::NoTarget => String::from_str(
                "Project does not contain a target subdirectory.",
            ),
            ProjectStructureException::EmptySrc => String::from_str(
                "Project src folder does not contain any modules.",
            ),
        }
    }
}

} // verus!
