//! From source text to a checked program.

use crate::ast::{Program, ProgramView};
use crate::checker;
use crate::checker::{CheckError, Checker, Severity};
use crate::grammar;
use crate::lexer;
use crate::lexer::{LexError, Lexer};
use crate::parser;
use crate::parser::{ParseError, Parser};
use crate::text;
use crate::token;
use crate::token::{LocSpan, Token};
use crate::vm;
use crate::vm::Vm;
use vstd::prelude::*;

verus! {

#[derive(Debug, Clone, Copy, PartialEq, Eq, Structural)]
pub enum ErrSeverity {
    Error,
    Warning,
    Note,
}

/// A finding of any stage.
#[derive(Debug, Clone)]
pub struct CompileError<S = String> {
    pub message: S,
    pub span: LocSpan,
    pub hint: Option<S>,
    pub severity: ErrSeverity,
}

impl View for CompileError<String> {
    type V = CompileError<Seq<char>>;

    open spec fn view(&self) -> CompileError<Seq<char>> {
        CompileError {
            message: self.message@,
            span: self.span,
            hint: text::opt_view(self.hint),
            severity: self.severity,
        }
    }
}

/// The views of a sequence of findings.
pub open spec fn compile_error_views(s: Seq<CompileError>) -> Seq<CompileError<Seq<char>>> {
    Seq::new(s.len(), |i: int| s[i]@)
}

pub open spec fn severity_of(s: Severity) -> ErrSeverity {
    match s {
        Severity::Error => ErrSeverity::Error,
        Severity::Warning => ErrSeverity::Warning,
        Severity::Note => ErrSeverity::Note,
    }
}

pub open spec fn of_lexer(e: LexError<Seq<char>>) -> CompileError<Seq<char>> {
    CompileError { message: e.message, span: e.span, hint: None, severity: ErrSeverity::Error }
}

pub open spec fn of_parser(e: ParseError<Seq<char>>) -> CompileError<Seq<char>> {
    CompileError { message: e.message, span: e.span, hint: e.hint, severity: ErrSeverity::Error }
}

pub open spec fn of_checker(e: CheckError<Seq<char>>) -> CompileError<Seq<char>> {
    CompileError {
        message: e.message,
        span: e.span,
        hint: e.hint,
        severity: severity_of(e.severity),
    }
}

/// The program of a source, where it has one, and all findings about it. A
/// stage that finds errors is the last one; warnings and notes of the checker
/// do not stand in the way.
pub open spec fn compiled(source: Seq<char>, resources: Seq<Seq<char>>) -> (
    Option<ProgramView>,
    Seq<CompileError<Seq<char>>>,
) {
    let l = lexer::lexed(source);
    if l.errors.len() > 0 {
        (None, Seq::new(l.errors.len(), |i: int| of_lexer(l.errors[i])))
    } else {
        let (program, faults) = grammar::parsed(l.tokens);
        if faults.len() > 0 {
            (None, Seq::new(faults.len(), |i: int| of_parser(faults[i])))
        } else {
            let found = checker::findings(program, resources);
            (
                if exists|i: int| 0 <= i < found.len() && (#[trigger] found[i]).severity is Error {
                    None
                } else {
                    Some(program)
                },
                Seq::new(found.len(), |i: int| of_checker(found[i])),
            )
        }
    }
}

pub open spec fn program_view(p: Option<Program>) -> Option<ProgramView> {
    match p {
        Some(x) => Some(x@),
        None => None,
    }
}

fn from_lexer(errors: Vec<LexError>) -> (r: Vec<CompileError>)
    ensures
        compile_error_views(r@) == Seq::new(
            errors@.len(),
            |i: int| of_lexer(lexer::lex_error_views(errors@)[i]),
        ),
{
    let mut r: Vec<CompileError> = Vec::new();
    let mut i: usize = 0;
    while i < errors.len()
        invariant
            i <= errors@.len(),
            r@.len() == i,
            forall|k: int| 0 <= k < i ==> (#[trigger] r@[k])@ == of_lexer(errors@[k]@),
        decreases errors@.len() - i,
    {
        r.push(
            CompileError {
                message: errors[i].message.clone(),
                span: errors[i].span,
                hint: None,
                severity: ErrSeverity::Error,
            },
        );
        i = i + 1;
    }
    assert(compile_error_views(r@) =~= Seq::new(
        errors@.len(),
        |i: int| of_lexer(lexer::lex_error_views(errors@)[i]),
    ));
    r
}

fn from_parser(errors: Vec<ParseError>) -> (r: Vec<CompileError>)
    ensures
        compile_error_views(r@) == Seq::new(
            errors@.len(),
            |i: int| of_parser(parser::parse_error_views(errors@)[i]),
        ),
{
    let mut r: Vec<CompileError> = Vec::new();
    let mut i: usize = 0;
    while i < errors.len()
        invariant
            i <= errors@.len(),
            r@.len() == i,
            forall|k: int| 0 <= k < i ==> (#[trigger] r@[k])@ == of_parser(errors@[k]@),
        decreases errors@.len() - i,
    {
        r.push(
            CompileError {
                message: errors[i].message.clone(),
                span: errors[i].span,
                hint: text::opt_clone(&errors[i].hint),
                severity: ErrSeverity::Error,
            },
        );
        i = i + 1;
    }
    assert(compile_error_views(r@) =~= Seq::new(
        errors@.len(),
        |i: int| of_parser(parser::parse_error_views(errors@)[i]),
    ));
    r
}

fn from_checker(errors: &Vec<CheckError>) -> (r: Vec<CompileError>)
    ensures
        compile_error_views(r@) == Seq::new(
            errors@.len(),
            |i: int| of_checker(checker::check_error_views(errors@)[i]),
        ),
{
    let mut r: Vec<CompileError> = Vec::new();
    let mut i: usize = 0;
    while i < errors.len()
        invariant
            i <= errors@.len(),
            r@.len() == i,
            forall|k: int| 0 <= k < i ==> (#[trigger] r@[k])@ == of_checker(errors@[k]@),
        decreases errors@.len() - i,
    {
        r.push(
            CompileError {
                message: errors[i].message.clone(),
                span: errors[i].span,
                hint: text::opt_clone(&errors[i].hint),
                severity: match errors[i].severity {
                    Severity::Error => ErrSeverity::Error,
                    Severity::Warning => ErrSeverity::Warning,
                    Severity::Note => ErrSeverity::Note,
                },
            },
        );
        i = i + 1;
    }
    assert(compile_error_views(r@) =~= Seq::new(
        errors@.len(),
        |i: int| of_checker(checker::check_error_views(errors@)[i]),
    ));
    r
}

fn has_errors(errors: &Vec<CheckError>) -> (r: bool)
    ensures
        r == exists|i: int|
            0 <= i < checker::check_error_views(errors@).len()
                && (#[trigger] checker::check_error_views(errors@)[i]).severity is Error,
{
    let ghost all = checker::check_error_views(errors@);
    let mut i: usize = 0;
    while i < errors.len()
        invariant
            i <= errors@.len(),
            all == checker::check_error_views(errors@),
            forall|k: int| 0 <= k < i ==> !((#[trigger] all[k]).severity is Error),
        decreases errors@.len() - i,
    {
        if errors[i].severity == Severity::Error {
            assert(all[i as int].severity is Error);
            return true;
        }
        i = i + 1;
    }
    false
}

/// The program of a source, and all findings about it.
pub fn compile(source: &str) -> (r: (Option<Program>, Vec<CompileError>))
    ensures
        (program_view(r.0), compile_error_views(r.1@)) == compiled(source@, Seq::empty()),
{
    let resources: Vec<String> = Vec::new();
    assert(text::views(resources@) =~= Seq::empty());
    compile_with_resources(source, resources)
}

/// The program of a source, and all findings about it, with resource
/// references checked against the given names.
pub fn compile_with_resources(source: &str, resources: Vec<String>) -> (r: (
    Option<Program>,
    Vec<CompileError>,
))
    ensures
        (program_view(r.0), compile_error_views(r.1@)) == compiled(
            source@,
            text::views(resources@),
        ),
{
    let lexer: Lexer = Lexer::new(source);
    proof {
        lexer::lemma_end_mark(source@);
    }
    let tokens: Vec<Token> = match lexer.tokenize() {
        Ok(t) => t,
        Err(errors) => {
            let found: Vec<CompileError> = from_lexer(errors);
            proof {
                let l = lexer::lexed(source@);
                assert(compile_error_views(found@) =~= Seq::new(
                    l.errors.len(),
                    |i: int| of_lexer(l.errors[i]),
                ));
            }
            return (None, found);
        },
    };
    proof {
        let views = token::token_views(tokens@);
        assert(views.last().kind is Eof);
        assert(tokens@[tokens@.len() - 1].kind is Eof);
    }
    let program: Program = match Parser::new(tokens).parse() {
        Ok(p) => p,
        Err(errors) => {
            let found: Vec<CompileError> = from_parser(errors);
            proof {
                let faults = grammar::parsed(lexer::lexed(source@).tokens).1;
                assert(compile_error_views(found@) =~= Seq::new(
                    faults.len(),
                    |i: int| of_parser(faults[i]),
                ));
            }
            return (None, found);
        },
    };
    let errors: Vec<CheckError> = Checker::new().with_resources(resources).check(&program);
    let failed: bool = has_errors(&errors);
    let found: Vec<CompileError> = from_checker(&errors);
    proof {
        let all = checker::findings(program@, text::views(resources@));
        assert(compile_error_views(found@) =~= Seq::new(all.len(), |i: int| of_checker(all[i])));
    }
    if failed {
        (None, found)
    } else {
        (Some(program), found)
    }
}

/// The machine of a source, or the findings that stand in its way.
pub fn compile_and_create_vm(source: &str) -> (r: Result<Vm, Vec<CompileError>>)
    ensures
        match r {
            Ok(machine) => compiled(source@, Seq::empty()).0 matches Some(p) && machine@
                == vm::initial(p),
            Err(errors) => compiled(source@, Seq::empty()).0 is None && compile_error_views(
                errors@,
            ) == compiled(source@, Seq::empty()).1,
        },
{
    let (program, errors) = compile(source);
    match program {
        Some(p) => Ok(Vm::new(&p)),
        None => Err(errors),
    }
}

/// The machine of a source, with resource references checked, or the findings
/// that stand in its way.
pub fn compile_and_create_vm_with_resources(source: &str, resources: Vec<String>) -> (r: Result<
    Vm,
    Vec<CompileError>,
>)
    ensures
        match r {
            Ok(machine) => compiled(source@, text::views(resources@)).0 matches Some(p) && machine@
                == vm::initial(p),
            Err(errors) => compiled(source@, text::views(resources@)).0 is None
                && compile_error_views(errors@) == compiled(source@, text::views(resources@)).1,
        },
{
    let (program, errors) = compile_with_resources(source, resources);
    match program {
        Some(p) => Ok(Vm::new(&p)),
        None => Err(errors),
    }
}

/// A source has a program if and only if nothing found about it is an error.
pub proof fn law_program_iff_no_error(source: Seq<char>, resources: Seq<Seq<char>>)
    ensures
        compiled(source, resources).0 is Some <==> forall|i: int|
            0 <= i < compiled(source, resources).1.len() ==> !((#[trigger] compiled(
                source,
                resources,
            ).1[i]).severity is Error),
{
    let (p, errs) = compiled(source, resources);
    let l = lexer::lexed(source);
    if l.errors.len() > 0 {
        assert(errs[0].severity is Error);
    } else {
        let (program, faults) = grammar::parsed(l.tokens);
        if faults.len() > 0 {
            assert(errs[0].severity is Error);
        } else {
            let found = checker::findings(program, resources);
            assert forall|i: int| 0 <= i < found.len() implies ((#[trigger] errs[i]).severity is Error)
                == (found[i].severity is Error) by {}
            if p is None {
                let i = choose|i: int| 0 <= i < found.len() && (#[trigger] found[i]).severity is Error;
                assert(errs[i].severity is Error);
            }
        }
    }
}

} // verus!
