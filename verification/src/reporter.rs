//! Findings as they are reported: each with the file and the stretch of text
//! that it points at. The host prints them, with the files of the reporter.

use crate::checker::{CheckError, Severity};
use crate::diagnostic;
use crate::diagnostic::join_strings;
use crate::lexer::LexError;
use crate::parser::ParseError;
use crate::text;
use crate::text::concat2;
use crate::token::LocSpan;
use codespan_reporting::files::SimpleFiles;
use vstd::prelude::*;

verus! {

/// The files of `codespan_reporting`: their contents are named by `files_held`.
#[verifier::external_type_specification]
#[verifier::external_body]
#[verifier::reject_recursive_types(Name)]
#[verifier::reject_recursive_types(Source)]
pub struct ExSimpleFiles<Name, Source>(codespan_reporting::files::SimpleFiles<Name, Source>);

/// The files of a database, in the order in which they were added: each with its
/// name and its text.
pub uninterp spec fn files_held(files: SimpleFiles<String, String>) -> Seq<(Seq<char>, Seq<char>)>;

/// `SimpleFiles::new`: a database without files.
#[verifier::external_body]
fn no_files() -> (r: SimpleFiles<String, String>)
    ensures
        files_held(r) == Seq::<(Seq<char>, Seq<char>)>::empty(),
{
    SimpleFiles::new()
}

/// `SimpleFiles::add`: the file comes behind those that are there, and is known
/// by their number.
#[verifier::external_body]
fn hold_file(files: &mut SimpleFiles<String, String>, name: String, source: String) -> (id: usize)
    ensures
        id == files_held(*old(files)).len(),
        files_held(*final(files)) == files_held(*old(files)).push((name@, source@)),
{
    files.add(name, source)
}

/// A finding that points at a stretch of a file.
#[derive(Debug, PartialEq, Eq)]
pub struct Finding<S = String> {
    pub severity: Severity,
    pub message: S,
    pub file_id: usize,
    /// The stretch, from its start up to its end.
    pub start: usize,
    pub end: usize,
    /// What stands below it.
    pub note: Option<S>,
}

impl View for Finding<String> {
    type V = Finding<Seq<char>>;

    open spec fn view(&self) -> Finding<Seq<char>> {
        Finding {
            severity: self.severity,
            message: self.message@,
            file_id: self.file_id,
            start: self.start,
            end: self.end,
            note: text::opt_view(self.note),
        }
    }
}

pub open spec fn finding_views(v: Seq<Finding>) -> Seq<Finding<Seq<char>>> {
    Seq::new(v.len(), |i: int| v[i]@)
}

/// What is reported of a message with a hint.
pub open spec fn reported(
    severity: Severity,
    file_id: usize,
    message: Seq<char>,
    span: LocSpan,
    hint: Option<Seq<char>>,
) -> Finding<Seq<char>> {
    Finding {
        severity,
        message,
        file_id,
        start: span.start,
        end: span.end,
        note: match hint {
            Some(h) => Some("hint: "@ + h),
            None => None,
        },
    }
}

/// What is reported of a lexical error.
pub open spec fn lex_finding(file_id: usize, e: LexError<Seq<char>>) -> Finding<Seq<char>> {
    reported(Severity::Error, file_id, e.message, e.span, None)
}

/// What is reported of a syntax error.
pub open spec fn parse_finding(file_id: usize, e: ParseError<Seq<char>>) -> Finding<Seq<char>> {
    reported(Severity::Error, file_id, e.message, e.span, e.hint)
}

/// What is reported of a finding of the checker.
pub open spec fn check_finding(file_id: usize, e: CheckError<Seq<char>>) -> Finding<Seq<char>> {
    reported(e.severity, file_id, e.message, e.span, e.hint)
}

fn report_on(
    severity: Severity,
    file_id: usize,
    message: &String,
    span: &LocSpan,
    hint: &Option<String>,
) -> (r: Finding)
    ensures
        r@ == reported(severity, file_id, message@, *span, text::opt_view(*hint)),
{
    Finding {
        severity,
        message: message.clone(),
        file_id,
        start: span.start,
        end: span.end,
        note: match hint {
            Some(h) => Some(concat2("hint: ", h.as_str())),
            None => None,
        },
    }
}

/// The files that findings point at.
pub struct Reporter {
    files: SimpleFiles<String, String>,
}

impl View for Reporter {
    type V = Seq<(Seq<char>, Seq<char>)>;

    closed spec fn view(&self) -> Seq<(Seq<char>, Seq<char>)> {
        files_held(self.files)
    }
}

impl Default for Reporter {
    fn default() -> (r: Self)
        ensures
            r@ == Seq::<(Seq<char>, Seq<char>)>::empty(),
    {
        Reporter::new()
    }
}

impl Reporter {
    /// A reporter without files.
    pub fn new() -> (r: Self)
        ensures
            r@ == Seq::<(Seq<char>, Seq<char>)>::empty(),
    {
        Reporter { files: no_files() }
    }

    /// Adds a file and returns its number.
    pub fn add_file(&mut self, name: String, source: String) -> (id: usize)
        ensures
            id == old(self)@.len(),
            final(self)@ == old(self)@.push((name@, source@)),
    {
        hold_file(&mut self.files, name, source)
    }

    /// The files, for the host to print findings with.
    pub fn files(&self) -> (r: &SimpleFiles<String, String>)
        ensures
            files_held(*r) == self@,
    {
        &self.files
    }

    /// What is reported of lexical errors.
    pub fn emit_lex_errors(&self, file_id: usize, errors: &[LexError]) -> (r: Vec<Finding>)
        ensures
            finding_views(r@) == Seq::new(
                errors@.len(),
                |i: int| lex_finding(file_id, errors@[i]@),
            ),
    {
        let mut r: Vec<Finding> = Vec::new();
        let mut i: usize = 0;
        while i < errors.len()
            invariant
                i <= errors@.len(),
                r@.len() == i,
                forall|k: int| 0 <= k < i ==> (#[trigger] r@[k])@ == lex_finding(file_id, errors@[k]@),
            decreases errors@.len() - i,
        {
            let e: &LexError = &errors[i];
            r.push(report_on(Severity::Error, file_id, &e.message, &e.span, &None));
            i = i + 1;
        }
        assert(finding_views(r@) =~= Seq::new(
            errors@.len(),
            |i: int| lex_finding(file_id, errors@[i]@),
        ));
        r
    }

    /// What is reported of syntax errors.
    pub fn emit_parse_errors(&self, file_id: usize, errors: &[ParseError]) -> (r: Vec<Finding>)
        ensures
            finding_views(r@) == Seq::new(
                errors@.len(),
                |i: int| parse_finding(file_id, errors@[i]@),
            ),
    {
        let mut r: Vec<Finding> = Vec::new();
        let mut i: usize = 0;
        while i < errors.len()
            invariant
                i <= errors@.len(),
                r@.len() == i,
                forall|k: int| 0 <= k < i ==> (#[trigger] r@[k])@ == parse_finding(file_id, errors@[k]@),
            decreases errors@.len() - i,
        {
            let e: &ParseError = &errors[i];
            r.push(report_on(Severity::Error, file_id, &e.message, &e.span, &e.hint));
            i = i + 1;
        }
        assert(finding_views(r@) =~= Seq::new(
            errors@.len(),
            |i: int| parse_finding(file_id, errors@[i]@),
        ));
        r
    }

    /// What is reported of the findings of the checker.
    pub fn emit_check_errors(&self, file_id: usize, errors: &[CheckError]) -> (r: Vec<Finding>)
        ensures
            finding_views(r@) == Seq::new(
                errors@.len(),
                |i: int| check_finding(file_id, errors@[i]@),
            ),
    {
        let mut r: Vec<Finding> = Vec::new();
        let mut i: usize = 0;
        while i < errors.len()
            invariant
                i <= errors@.len(),
                r@.len() == i,
                forall|k: int| 0 <= k < i ==> (#[trigger] r@[k])@ == check_finding(file_id, errors@[k]@),
            decreases errors@.len() - i,
        {
            let e: &CheckError = &errors[i];
            r.push(report_on(e.severity, file_id, &e.message, &e.span, &e.hint));
            i = i + 1;
        }
        assert(finding_views(r@) =~= Seq::new(
            errors@.len(),
            |i: int| check_finding(file_id, errors@[i]@),
        ));
        r
    }

    /// Error texts, one per line. Neither the file nor its text makes a
    /// difference.
    pub fn format_errors(&self, _file_id: usize, _source: &str, errors: &Vec<String>) -> (out:
        String)
        ensures
            out@ == diagnostic::joined(text::views(errors@), "\n"@),
    {
        join_strings(errors, "\n")
    }
}

} // verus!
