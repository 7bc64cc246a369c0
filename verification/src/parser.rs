//! Recursive descent parser of the script language.
//!
//! Blocks use explicit markers: `?` opens and closes a choice, `if` ... `else`
//! ... `end` a conditional, `#` starts a section. An error inside a section is
//! recorded and the parser goes on behind it, so that one pass reports all.

use crate::ast;
use crate::ast::{
    BinOp, ChoiceOption, DirectionAction, DirectionKind, Expr, Node, NodeView, Number, Position,
    Program, Section, SectionView, Transition, UnOp, VarOpKind,
};
use crate::grammar;
use crate::grammar::{Fault, Stop, Tok};
use crate::text;
use crate::text::{concat2, concat3, concat4, lower_char, str_eq, to_chars};
use crate::token;
use crate::token::{LocSpan, Token, TokenKind};
use vstd::prelude::*;

verus! {

/// A syntax error with its location and a hint.
#[derive(Debug, Clone)]
pub struct ParseError<S = String> {
    pub message: S,
    pub span: LocSpan,
    pub hint: Option<S>,
}

impl View for ParseError<String> {
    type V = ParseError<Seq<char>>;

    open spec fn view(&self) -> ParseError<Seq<char>> {
        ParseError { message: self.message@, span: self.span, hint: text::opt_view(self.hint) }
    }
}

/// The views of a sequence of syntax errors.
pub open spec fn parse_error_views(s: Seq<ParseError>) -> Seq<ParseError<Seq<char>>> {
    Seq::new(s.len(), |i: int| s[i]@)
}

/// The parser of a sequence of tokens.
pub struct Parser {
    tokens: Vec<Token>,
    pos: usize,
    errors: Vec<ParseError>,
}

/// What a rule of the grammar says of a returned expression.
spec fn expr_result(r: Result<Expr, ParseError>) -> Result<Expr<Seq<char>>, Fault> {
    match r {
        Ok(e) => Ok(e@),
        Err(f) => Err(f@),
    }
}

spec fn node_result(r: Result<Node, ParseError>) -> Result<NodeView, Fault> {
    match r {
        Ok(n) => Ok(ast::node_view(n)),
        Err(f) => Err(f@),
    }
}

spec fn section_result(r: Result<Section, ParseError>) -> Result<SectionView, Fault> {
    match r {
        Ok(s) => Ok(ast::section_view(s)),
        Err(f) => Err(f@),
    }
}

spec fn text_result(r: Result<String, ParseError>) -> Result<Seq<char>, Fault> {
    match r {
        Ok(s) => Ok(s@),
        Err(f) => Err(f@),
    }
}

spec fn opt_text_result(r: Result<Option<String>, ParseError>) -> Result<Option<Seq<char>>, Fault> {
    match r {
        Ok(s) => Ok(text::opt_view(s)),
        Err(f) => Err(f@),
    }
}

spec fn plain_result<T>(r: Result<T, ParseError>) -> Result<T, Fault> {
    match r {
        Ok(t) => Ok(t),
        Err(f) => Err(f@),
    }
}

impl Parser {
    /// The tokens.
    pub closed spec fn toks(&self) -> Seq<Tok> {
        token::token_views(self.tokens@)
    }

    /// The parser stands at its first token, and an end mark follows.
    pub closed spec fn is_fresh(&self) -> bool {
        self.pos == 0 && self.errors@.len() == 0 && self.wf()
    }

    /// An end mark lies ahead.
    spec fn wf(&self) -> bool {
        exists|e: int| self.pos <= e < self.tokens@.len() && (#[trigger] self.tokens@[e]).kind is Eof
    }

    /// The parser moved from `pre` to here, by a rule that records no errors.
    spec fn moved(&self, pre: &Parser, pos: int) -> bool {
        &&& self.tokens == pre.tokens
        &&& self.errors == pre.errors
        &&& self.wf()
        &&& self.pos == pos
        &&& pre.pos <= self.pos < self.tokens@.len()
    }

    /// The parser moved from `pre` to here and recorded `errs`.
    spec fn went(&self, pre: &Parser, pos: int, errs: Seq<Fault>) -> bool {
        &&& self.tokens == pre.tokens
        &&& parse_error_views(self.errors@) == parse_error_views(pre.errors@) + errs
        &&& self.wf()
        &&& self.pos == pos
        &&& pre.pos <= self.pos < self.tokens@.len()
    }

    pub fn new(tokens: Vec<Token>) -> (p: Self)
        requires
            exists|e: int| 0 <= e < tokens@.len() && (#[trigger] tokens@[e]).kind is Eof,
        ensures
            p.is_fresh(),
            p.toks() == token::token_views(tokens@),
    {
        Parser { tokens, pos: 0, errors: Vec::new() }
    }

    // -- single tokens ------------------------------------------------------

    fn kind(&self) -> (k: &TokenKind)
        requires
            self.wf(),
        ensures
            k@ == self.toks()[self.pos as int].kind,
            self.pos < self.tokens@.len(),
    {
        &self.tokens[self.pos].kind
    }

    fn current_span(&self) -> (s: LocSpan)
        requires
            self.wf(),
        ensures
            s == self.toks()[self.pos as int].span,
    {
        self.tokens[self.pos].span
    }

    /// Moves over the current token, which is not the end mark.
    fn advance(&mut self)
        requires
            old(self).wf(),
            !(old(self).toks()[old(self).pos as int].kind is Eof),
        ensures
            final(self).moved(old(self), old(self).pos + 1),
    {
        let n: usize = self.tokens.len();
        assert(!(self.tokens@[self.pos as int].kind is Eof));
        assert(self.pos < n);
        self.pos = self.pos + 1;
    }

    fn fault(&self, message: String, hint: Option<String>) -> (f: ParseError)
        requires
            self.wf(),
        ensures
            f@ == (ParseError {
                message: message@,
                span: self.toks()[self.pos as int].span,
                hint: text::opt_view(hint),
            }),
    {
        ParseError { message, span: self.current_span(), hint }
    }

    /// The error that `what` was expected.
    fn unexpected(&self, what: &str, hint: Option<String>) -> (f: ParseError)
        requires
            self.wf(),
        ensures
            f@ == (ParseError {
                message: grammar::expected(self.toks(), self.pos as int, what@),
                span: self.toks()[self.pos as int].span,
                hint: text::opt_view(hint),
            }),
    {
        let found: String = self.kind().text();
        self.fault(concat4("expected ", what, ", found ", found.as_str()), hint)
    }

    fn expect_ident(&mut self, what: &str) -> (r: Result<String, ParseError>)
        requires
            old(self).wf(),
        ensures
            ({
                let s = grammar::ident_at(old(self).toks(), old(self).pos as int, what@);
                text_result(r) == s.res && final(self).moved(old(self), s.pos)
            }),
            r is Ok ==> old(self).pos < final(self).pos,
    {
        match self.kind() {
            TokenKind::Ident(s) => {
                let name: String = s.clone();
                self.advance();
                Ok(name)
            },
            _ => Err(self.unexpected(what, None)),
        }
    }

    fn expect_string(&mut self, what: &str) -> (r: Result<String, ParseError>)
        requires
            old(self).wf(),
        ensures
            ({
                let s = grammar::string_at(old(self).toks(), old(self).pos as int, what@);
                text_result(r) == s.res && final(self).moved(old(self), s.pos)
            }),
            r is Ok ==> old(self).pos < final(self).pos,
    {
        match self.kind() {
            TokenKind::String(s) => {
                let t: String = s.clone();
                self.advance();
                Ok(t)
            },
            _ => {
                let what_full: String = concat2(what, " (quoted string)");
                Err(
                    self.unexpected(
                        what_full.as_str(),
                        Some("strings must be in double quotes".to_owned()),
                    ),
                )
            },
        }
    }

    /// Moves over a mark, which is there if `here`.
    fn expect(&mut self, here: bool, what: &str) -> (r: Result<(), ParseError>)
        requires
            old(self).wf(),
            here ==> !(old(self).toks()[old(self).pos as int].kind is Eof),
        ensures
            ({
                let s = grammar::mark_at(old(self).toks(), old(self).pos as int, here, what@);
                plain_result(r) == s.res && final(self).moved(old(self), s.pos)
            }),
            r is Ok ==> old(self).pos < final(self).pos,
    {
        if here {
            self.advance();
            Ok(())
        } else {
            Err(self.unexpected(what, None))
        }
    }

    fn consume_newline(&mut self)
        requires
            old(self).wf(),
        ensures
            final(self).moved(
                old(self),
                grammar::past_newline(old(self).toks(), old(self).pos as int),
            ),
    {
        if matches!(self.kind(), TokenKind::Newline) {
            self.advance();
        }
    }

    fn skip_newlines(&mut self)
        requires
            old(self).wf(),
        ensures
            final(self).moved(
                old(self),
                grammar::past_newlines(old(self).toks(), old(self).pos as int),
            ),
    {
        while matches!(self.kind(), TokenKind::Newline)
            invariant
                self.moved(old(self), self.pos as int),
                grammar::past_newlines(old(self).toks(), old(self).pos as int)
                    == grammar::past_newlines(self.toks(), self.pos as int),
            decreases self.tokens@.len() - self.pos,
        {
            self.advance();
        }
    }

    fn sync_to_section(&mut self)
        requires
            old(self).wf(),
        ensures
            final(self).moved(
                old(self),
                grammar::next_section(old(self).toks(), old(self).pos as int),
            ),
    {
        while !matches!(self.kind(), TokenKind::Eof | TokenKind::SectionMark)
            invariant
                self.moved(old(self), self.pos as int),
                grammar::next_section(old(self).toks(), old(self).pos as int)
                    == grammar::next_section(self.toks(), self.pos as int),
            decreases self.tokens@.len() - self.pos,
        {
            self.advance();
        }
    }

    fn sync_in_section(&mut self)
        requires
            old(self).wf(),
        ensures
            final(self).moved(
                old(self),
                grammar::next_resume(old(self).toks(), old(self).pos as int),
            ),
    {
        while !matches!(
            self.kind(),
            TokenKind::Eof | TokenKind::SectionMark | TokenKind::Question | TokenKind::End
        )
            invariant
                self.moved(old(self), self.pos as int),
                grammar::next_resume(old(self).toks(), old(self).pos as int)
                    == grammar::next_resume(self.toks(), self.pos as int),
            decreases self.tokens@.len() - self.pos,
        {
            self.advance();
        }
    }

    // -- expressions --------------------------------------------------------

    fn binary_operator(&self, level: u8) -> (op: Option<BinOp>)
        requires
            self.wf(),
        ensures
            op == grammar::binop_at(level as int, self.toks()[self.pos as int].kind),
    {
        let k: &TokenKind = self.kind();
        match level {
            0 => match k {
                TokenKind::Or => Some(BinOp::Or),
                _ => None,
            },
            1 => match k {
                TokenKind::And => Some(BinOp::And),
                _ => None,
            },
            3 => match k {
                TokenKind::EqEq => Some(BinOp::Eq),
                TokenKind::NotEq => Some(BinOp::Neq),
                TokenKind::Lt => Some(BinOp::Lt),
                TokenKind::Gt => Some(BinOp::Gt),
                TokenKind::LtEq => Some(BinOp::LtEq),
                TokenKind::GtEq => Some(BinOp::GtEq),
                _ => None,
            },
            4 => match k {
                TokenKind::Plus | TokenKind::Plus2 => Some(BinOp::Add),
                TokenKind::Minus2 => Some(BinOp::Sub),
                _ => None,
            },
            5 => match k {
                TokenKind::Star => Some(BinOp::Mul),
                TokenKind::Slash => Some(BinOp::Div),
                _ => None,
            },
            _ => None,
        }
    }

    fn prefix_operator(&self, level: u8) -> (op: Option<UnOp>)
        requires
            self.wf(),
        ensures
            op == grammar::unop_at(level as int, self.toks()[self.pos as int].kind),
    {
        if level == 2 && matches!(self.kind(), TokenKind::Not) {
            Some(UnOp::Not)
        } else if level == 6 && matches!(self.kind(), TokenKind::Minus2) {
            Some(UnOp::Neg)
        } else {
            None
        }
    }

    /// An expression of the given level.
    fn parse_expr(&mut self, level: u8) -> (r: Result<Expr, ParseError>)
        requires
            old(self).wf(),
            level <= 6,
        ensures
            ({
                let s = grammar::expr_at(old(self).toks(), old(self).pos as int, level as int);
                expr_result(r) == s.res && final(self).moved(old(self), s.pos)
            }),
            r is Ok ==> old(self).pos < final(self).pos,
        decreases old(self).tokens@.len() - old(self).pos, 7 - level, 1int,
    {
        if level == 2 || level == 6 {
            if let Some(op) = self.prefix_operator(level) {
                let span: LocSpan = self.current_span();
                self.advance();
                return match self.parse_expr(level) {
                    Ok(e) => Ok(Expr::Unary { op, operand: Box::new(e), span }),
                    Err(f) => Err(f),
                };
            }
            if level == 2 {
                return self.parse_expr(3);
            }
            return self.parse_primary();
        }
        let mut left: Expr = match self.parse_expr(level + 1) {
            Ok(e) => e,
            Err(f) => {
                return Err(f);
            },
        };
        loop
            invariant
                level <= 5,
                self.moved(old(self), self.pos as int),
                old(self).pos < self.pos,
                grammar::expr_at(old(self).toks(), old(self).pos as int, level as int)
                    == grammar::operators_at(self.toks(), self.pos as int, level as int, left@),
            decreases self.tokens@.len() - self.pos,
        {
            match self.binary_operator(level) {
                None => {
                    return Ok(left);
                },
                Some(op) => {
                    let span: LocSpan = self.current_span();
                    self.advance();
                    match self.parse_expr(level + 1) {
                        Ok(right) => {
                            left = Expr::Binary {
                                op,
                                left: Box::new(left),
                                right: Box::new(right),
                                span,
                            };
                        },
                        Err(f) => {
                            return Err(f);
                        },
                    }
                },
            }
        }
    }

    fn parse_primary(&mut self) -> (r: Result<Expr, ParseError>)
        requires
            old(self).wf(),
        ensures
            ({
                let s = grammar::primary_at(old(self).toks(), old(self).pos as int);
                expr_result(r) == s.res && final(self).moved(old(self), s.pos)
            }),
            r is Ok ==> old(self).pos < final(self).pos,
        decreases old(self).tokens@.len() - old(self).pos, 0int, 0int,
    {
        match self.kind() {
            TokenKind::Integer(n) => {
                let e: Expr = Expr::Int(*n);
                self.advance();
                Ok(e)
            },
            TokenKind::Float(s) => {
                let e: Expr = Expr::Float(s.clone());
                self.advance();
                Ok(e)
            },
            TokenKind::String(s) => {
                let e: Expr = Expr::Str(s.clone());
                self.advance();
                Ok(e)
            },
            TokenKind::Dollar => {
                self.advance();
                match self.expect_ident("variable name") {
                    Ok(name) => Ok(Expr::Var(name)),
                    Err(f) => Err(f),
                }
            },
            TokenKind::LParen => {
                self.advance();
                match self.parse_expr(0) {
                    Ok(e) => {
                        let here: bool = matches!(self.kind(), TokenKind::RParen);
                        match self.expect(here, ")") {
                            Ok(_) => Ok(e),
                            Err(f) => Err(f),
                        }
                    },
                    Err(f) => Err(f),
                }
            },
            _ => {
                let found: String = self.kind().text();
                Err(
                    self.fault(
                        concat2("expected expression, found ", found.as_str()),
                        Some("expressions: numbers, strings, $variables, or (expr)".to_owned()),
                    ),
                )
            },
        }
    }

    // -- nodes without a body -----------------------------------------------

    fn parse_narration(&mut self) -> (r: Result<Node, ParseError>)
        requires
            old(self).wf(),
        ensures
            ({
                let s = grammar::narration_at(old(self).toks(), old(self).pos as int);
                node_result(r) == s.res && final(self).moved(old(self), s.pos)
            }),
            r is Ok ==> old(self).pos < final(self).pos,
    {
        let span: LocSpan = self.current_span();
        match self.expect_string("narration text") {
            Ok(text) => {
                self.consume_newline();
                Ok(Node::Narration { text, span })
            },
            Err(f) => Err(f),
        }
    }

    fn parse_pose(&mut self, what: &str) -> (r: Result<Option<String>, ParseError>)
        requires
            old(self).wf(),
        ensures
            ({
                let s = grammar::pose_at(old(self).toks(), old(self).pos as int, what@);
                opt_text_result(r) == s.res && final(self).moved(old(self), s.pos)
            }),
    {
        if matches!(self.kind(), TokenKind::LParen) {
            self.advance();
            match self.expect_ident(what) {
                Ok(p) => {
                    let here: bool = matches!(self.kind(), TokenKind::RParen);
                    match self.expect(here, ")") {
                        Ok(_) => Ok(Some(p)),
                        Err(f) => Err(f),
                    }
                },
                Err(f) => Err(f),
            }
        } else {
            Ok(None)
        }
    }

    fn parse_dialogue(&mut self) -> (r: Result<Node, ParseError>)
        requires
            old(self).wf(),
        ensures
            ({
                let s = grammar::dialogue_at(old(self).toks(), old(self).pos as int);
                node_result(r) == s.res && final(self).moved(old(self), s.pos)
            }),
            r is Ok ==> old(self).pos < final(self).pos,
    {
        let span: LocSpan = self.current_span();
        let speaker: String = match self.expect_ident("speaker name") {
            Ok(s) => s,
            Err(f) => {
                return Err(f);
            },
        };
        let pose: Option<String> = match self.parse_pose("pose name") {
            Ok(p) => p,
            Err(f) => {
                return Err(f);
            },
        };
        let here: bool = matches!(self.kind(), TokenKind::Colon);
        match self.expect(here, ":") {
            Ok(_) => {},
            Err(f) => {
                return Err(f);
            },
        }
        match self.expect_string("dialogue text") {
            Ok(text) => {
                self.consume_newline();
                Ok(Node::Dialogue { speaker, pose, text, span })
            },
            Err(f) => Err(f),
        }
    }

    /// Whether the current token is the word `w`.
    fn at_word(&self, w: &str) -> (r: bool)
        requires
            self.wf(),
        ensures
            r == grammar::is_word(self.toks()[self.pos as int].kind, w@),
            r ==> self.toks()[self.pos as int].kind is Ident,
    {
        match self.kind() {
            TokenKind::Ident(s) => str_eq(s.as_str(), w),
            _ => false,
        }
    }

    fn parse_transition(&mut self, hint: &str) -> (r: Result<Transition, ParseError>)
        requires
            old(self).wf(),
        ensures
            ({
                let s = grammar::transition_at(old(self).toks(), old(self).pos as int, hint@);
                plain_result(r) == s.res && final(self).moved(old(self), s.pos)
            }),
            r is Ok ==> old(self).pos < final(self).pos,
    {
        match self.expect_ident("transition name") {
            Ok(name) => match Transition::from_name(name.as_str()) {
                Some(t) => Ok(t),
                None => Err(
                    self.fault(
                        concat3("unknown transition: '", name.as_str(), "'"),
                        Some(hint.to_owned()),
                    ),
                ),
            },
            Err(f) => Err(f),
        }
    }

    fn parse_args(&mut self) -> (args: Vec<String>)
        requires
            old(self).wf(),
        ensures
            ({
                let (a, p) = grammar::args_at(
                    old(self).toks(),
                    old(self).pos as int,
                    Seq::empty(),
                );
                text::views(args@) == a && final(self).moved(old(self), p)
            }),
    {
        let mut args: Vec<String> = Vec::new();
        assert(text::views(args@) =~= Seq::empty());
        loop
            invariant
                self.moved(old(self), self.pos as int),
                grammar::args_at(old(self).toks(), old(self).pos as int, Seq::empty())
                    == grammar::args_at(self.toks(), self.pos as int, text::views(args@)),
            decreases self.tokens@.len() - self.pos,
        {
            if self.at_word("with") {
                return args;
            }
            let ghost before = args@;
            match self.kind() {
                TokenKind::Ident(s) => {
                    let a: String = s.clone();
                    self.advance();
                    args.push(a);
                    assert(text::views(args@) =~= text::views(before).push(a@));
                },
                TokenKind::String(s) => {
                    let a: String = s.clone();
                    self.advance();
                    args.push(a);
                    assert(text::views(args@) =~= text::views(before).push(a@));
                },
                _ => {
                    return args;
                },
            }
        }
    }

    fn parse_command(&mut self) -> (r: Result<Node, ParseError>)
        requires
            old(self).wf(),
            old(self).toks()[old(self).pos as int].kind is At,
        ensures
            ({
                let s = grammar::command_at(old(self).toks(), old(self).pos as int);
                node_result(r) == s.res && final(self).moved(old(self), s.pos)
            }),
            old(self).pos < final(self).pos,
    {
        let span: LocSpan = self.current_span();
        self.advance();
        let cmd: String = match self.expect_ident("command name") {
            Ok(s) => s,
            Err(f) => {
                return Err(f);
            },
        };
        let args: Vec<String> = self.parse_args();
        let mut transition: Option<Transition> = None;
        if self.at_word("with") {
            self.advance();
            match self.parse_transition(
                "valid: fade, fade_black, fade_white, slide_left, slide_right, slide_up, slide_down, dissolve, wipe_left, wipe_right, blur, instant",
            ) {
                Ok(t) => {
                    transition = Some(t);
                },
                Err(f) => {
                    return Err(f);
                },
            }
        }
        self.consume_newline();
        Ok(Node::Command { cmd, args, transition, span })
    }

    fn parse_direction(&mut self) -> (r: Result<Node, ParseError>)
        requires
            old(self).wf(),
            old(self).toks()[old(self).pos as int].kind is Plus,
        ensures
            ({
                let s = grammar::direction_at(old(self).toks(), old(self).pos as int);
                node_result(r) == s.res && final(self).moved(old(self), s.pos)
            }),
            old(self).pos < final(self).pos,
    {
        let span: LocSpan = self.current_span();
        self.advance();
        self.skip_newlines();
        let character: String = match self.expect_ident("character name") {
            Ok(s) => s,
            Err(f) => {
                return Err(f);
            },
        };
        let pose: Option<String> = match self.parse_pose("pose/sprite name") {
            Ok(p) => p,
            Err(f) => {
                return Err(f);
            },
        };
        let mut action: DirectionAction = DirectionAction {
            kind: DirectionKind::Enter,
            character,
            pose,
            position: None,
            y: None,
            size: None,
            transition: None,
        };
        match self.parse_direction_words(&mut action) {
            Ok(_) => {
                self.consume_newline();
                Ok(Node::Direction { action, span })
            },
            Err(f) => Err(f),
        }
    }

    /// The number that token `i` is.
    fn number_at(&self, i: usize) -> (r: Option<Number>)
        requires
            i < self.tokens@.len(),
        ensures
            ast::opt_number_view(r) == grammar::number_of(self.toks()[i as int].kind),
    {
        match &self.tokens[i].kind {
            TokenKind::Integer(n) => Some(Number::Int(*n)),
            TokenKind::Float(s) => Some(Number::Decimal(s.clone())),
            _ => None,
        }
    }

    /// The rest of a place that begins with the number `x`, the current token.
    fn parse_spot(&mut self, x: Number, action: &mut DirectionAction)
        requires
            old(self).wf(),
            grammar::number_of(old(self).toks()[old(self).pos as int].kind) is Some,
        ensures
            ({
                let s = grammar::spot_at(
                    old(self).toks(),
                    old(self).pos as int,
                    x@,
                    old(action)@,
                );
                final(action)@ == s.0 && final(self).moved(old(self), s.1)
            }),
            old(self).pos < final(self).pos,
    {
        self.advance();
        action.position = Some(Position::Custom(x));
        if matches!(self.kind(), TokenKind::Comma) {
            let n: usize = self.tokens.len();
            assert(!(self.tokens@[self.pos as int].kind is Eof));
            assert(self.pos + 1 < n);
            if let Some(y) = self.number_at(self.pos + 1) {
                action.y = Some(y);
                self.advance();
                self.advance();
            }
        }
    }

    /// The words of a direction.
    fn parse_direction_words(&mut self, action: &mut DirectionAction) -> (r: Result<(), ParseError>)
        requires
            old(self).wf(),
        ensures
            ({
                let s = grammar::direction_words(
                    old(self).toks(),
                    old(self).pos as int,
                    old(action)@,
                );
                &&& final(self).moved(old(self), s.pos)
                &&& match r {
                    Ok(_) => s.res == Ok::<DirectionAction<Seq<char>>, Fault>(final(action)@),
                    Err(f) => s.res == Err::<DirectionAction<Seq<char>>, Fault>(f@),
                }
            }),
    {
        loop
            invariant
                self.moved(old(self), self.pos as int),
                grammar::direction_words(old(self).toks(), old(self).pos as int, old(action)@)
                    == grammar::direction_words(self.toks(), self.pos as int, action@),
            decreases self.tokens@.len() - self.pos,
        {
            let word: String = match self.kind() {
                TokenKind::Ident(s) => s.clone(),
                _ => match self.number_at(self.pos) {
                    Some(x) => {
                        self.parse_spot(x, action);
                        continue;
                    },
                    None => {
                        return Ok(());
                    },
                },
            };
            let w: &str = word.as_str();
            self.advance();
            if str_eq(w, "enters") || str_eq(w, "enter") {
            } else if str_eq(w, "exits") || str_eq(w, "exit") || str_eq(w, "leaves") || str_eq(
                w,
                "leave",
            ) {
                action.kind = DirectionKind::Exit;
            } else if str_eq(w, "from") || str_eq(w, "to") || str_eq(w, "at") {
                if let TokenKind::Ident(s) = self.kind() {
                    let name: String = s.clone();
                    self.advance();
                    match read_position(name.as_str()) {
                        Some(p) => {
                            action.position = Some(p);
                        },
                        None => {
                            return Err(
                                self.fault(
                                    concat3("unknown position: '", name.as_str(), "'"),
                                    Some(
                                        "use 'left'/'居左', 'center'/'居中', 'right'/'居右', or a number".to_owned(),
                                    ),
                                ),
                            );
                        },
                    }
                }
            } else if str_eq(w, "size") {
                if let Some(n) = self.number_at(self.pos) {
                    action.size = Some(n);
                    self.advance();
                }
            } else if str_eq(w, "with") {
                match self.parse_transition("valid: fade, dissolve, slide_left, etc.") {
                    Ok(t) => {
                        action.transition = Some(t);
                    },
                    Err(f) => {
                        return Err(f);
                    },
                }
            } else {
                match read_position(w) {
                    Some(p) => {
                        action.position = Some(p);
                    },
                    None => {},
                }
            }
        }
    }

    fn parse_exit_direction(&mut self) -> (r: Result<Node, ParseError>)
        requires
            old(self).wf(),
            old(self).toks()[old(self).pos as int].kind is Minus2,
        ensures
            ({
                let s = grammar::exit_at(old(self).toks(), old(self).pos as int);
                node_result(r) == s.res && final(self).moved(old(self), s.pos)
            }),
            old(self).pos < final(self).pos,
    {
        let span: LocSpan = self.current_span();
        self.advance();
        self.skip_newlines();
        let character: String = match self.expect_ident("character name") {
            Ok(s) => s,
            Err(f) => {
                return Err(f);
            },
        };
        match self.parse_exit_words() {
            Ok(transition) => {
                self.consume_newline();
                let action: DirectionAction = DirectionAction {
                    kind: DirectionKind::Exit,
                    character,
                    pose: None,
                    position: None,
                    y: None,
                    size: None,
                    transition,
                };
                Ok(Node::Direction { action, span })
            },
            Err(f) => Err(f),
        }
    }

    /// The words of an exit.
    fn parse_exit_words(&mut self) -> (r: Result<Option<Transition>, ParseError>)
        requires
            old(self).wf(),
        ensures
            ({
                let s = grammar::exit_words(old(self).toks(), old(self).pos as int, None);
                plain_result(r) == s.res && final(self).moved(old(self), s.pos)
            }),
    {
        let mut transition: Option<Transition> = None;
        loop
            invariant
                self.moved(old(self), self.pos as int),
                grammar::exit_words(old(self).toks(), old(self).pos as int, None)
                    == grammar::exit_words(self.toks(), self.pos as int, transition),
            decreases self.tokens@.len() - self.pos,
        {
            if self.at_word("with") {
                self.advance();
                match self.parse_transition("valid: fade, dissolve, slide_left, etc.") {
                    Ok(t) => {
                        transition = Some(t);
                    },
                    Err(f) => {
                        return Err(f);
                    },
                }
            } else if matches!(self.kind(), TokenKind::Ident(_)) {
                self.advance();
            } else {
                return Ok(transition);
            }
        }
    }

    fn parse_varop(&mut self) -> (r: Result<Node, ParseError>)
        requires
            old(self).wf(),
            old(self).toks()[old(self).pos as int].kind is Dollar,
        ensures
            ({
                let s = grammar::varop_at(old(self).toks(), old(self).pos as int);
                node_result(r) == s.res && final(self).moved(old(self), s.pos)
            }),
            old(self).pos < final(self).pos,
    {
        let span: LocSpan = self.current_span();
        self.advance();
        let name: String = match self.expect_ident("variable name") {
            Ok(s) => s,
            Err(f) => {
                return Err(f);
            },
        };
        let op: VarOpKind = match self.kind() {
            TokenKind::Assign => VarOpKind::Assign,
            TokenKind::PlusEq => VarOpKind::PlusEq,
            TokenKind::MinusEq => VarOpKind::MinusEq,
            _ => {
                return Err(
                    self.unexpected(
                        "=, +=, or -=",
                        Some("use $var = value, $var += value, or $var -= value".to_owned()),
                    ),
                );
            },
        };
        self.advance();
        match self.parse_expr(0) {
            Ok(expr) => {
                self.consume_newline();
                Ok(Node::VarOp { name, op, expr, span })
            },
            Err(f) => Err(f),
        }
    }

    /// The section name behind an arrow, to the end of its line.
    fn parse_target(&mut self) -> (r: Result<String, ParseError>)
        requires
            old(self).wf(),
            !(old(self).toks()[old(self).pos as int].kind is Eof),
        ensures
            ({
                let s = grammar::target_at(old(self).toks(), old(self).pos as int);
                text_result(r) == s.res && final(self).moved(old(self), s.pos)
            }),
            old(self).pos < final(self).pos,
    {
        self.advance();
        match self.expect_ident("section name") {
            Ok(target) => {
                self.consume_newline();
                Ok(target)
            },
            Err(f) => Err(f),
        }
    }

    fn parse_wait(&mut self) -> (r: Result<Node, ParseError>)
        requires
            old(self).wf(),
            old(self).toks()[old(self).pos as int].kind is Wait,
        ensures
            ({
                let s = grammar::wait_at(old(self).toks(), old(self).pos as int);
                node_result(r) == s.res && final(self).moved(old(self), s.pos)
            }),
            old(self).pos < final(self).pos,
    {
        let span: LocSpan = self.current_span();
        self.advance();
        let seconds: Number = match self.number_at(self.pos) {
            Some(n) => n,
            None => {
                return Err(
                    self.fault(
                        "expected a number after 'wait'".to_owned(),
                        Some("use 'wait 2.0' for 2 seconds".to_owned()),
                    ),
                );
            },
        };
        self.advance();
        self.consume_newline();
        Ok(Node::Wait { seconds, span })
    }

    // -- nodes with a body --------------------------------------------------

    /// Records an error.
    fn record(&mut self, f: ParseError)
        ensures
            final(self).tokens == old(self).tokens,
            final(self).pos == old(self).pos,
            parse_error_views(final(self).errors@) == parse_error_views(old(self).errors@).push(
                f@,
            ),
    {
        self.errors.push(f);
        assert(parse_error_views(self.errors@) =~= parse_error_views(old(self).errors@).push(f@));
    }

    fn parse_node(&mut self) -> (r: Result<Node, ParseError>)
        requires
            old(self).wf(),
        ensures
            ({
                let n = grammar::node_at(old(self).toks(), old(self).pos as int);
                node_result(r) == n.res && final(self).went(old(self), n.pos, n.errs)
            }),
            r is Ok ==> old(self).pos < final(self).pos,
        decreases old(self).tokens@.len() - old(self).pos, 2int,
    {
        let ghost errs0 = parse_error_views(self.errors@);
        assert(errs0 + Seq::empty() =~= errs0);
        let span: LocSpan = self.current_span();
        match self.kind() {
            TokenKind::SectionMark => Err(
                self.fault(
                    "unexpected section header".to_owned(),
                    Some("close the current section before starting a new one".to_owned()),
                ),
            ),
            TokenKind::String(_) => self.parse_narration(),
            TokenKind::Ident(_) => self.parse_dialogue(),
            TokenKind::At => self.parse_command(),
            TokenKind::Plus => self.parse_direction(),
            TokenKind::Minus2 => self.parse_exit_direction(),
            TokenKind::Dollar => self.parse_varop(),
            TokenKind::Question => self.parse_choice(),
            TokenKind::If => self.parse_conditional(),
            TokenKind::FlowArrow => match self.parse_target() {
                Ok(target) => Ok(Node::Flow { target, span }),
                Err(f) => Err(f),
            },
            TokenKind::VisitArrow => match self.parse_target() {
                Ok(target) => Ok(Node::Visit { target, span }),
                Err(f) => Err(f),
            },
            TokenKind::LtEq => {
                self.advance();
                self.consume_newline();
                Ok(Node::Return { span })
            },
            TokenKind::StoryEnd => {
                self.advance();
                self.consume_newline();
                Ok(Node::StoryEnd { span })
            },
            TokenKind::Wait => self.parse_wait(),
            _ => {
                let found: String = self.kind().text();
                Err(
                    self.fault(
                        concat2("unexpected token: ", found.as_str()),
                        Some(
                            "expected dialogue, narration, @command, +enter, -exit, $var, ?, if, ->, =>, <=, ~~, or wait".to_owned(),
                        ),
                    ),
                )
            },
        }
    }

    /// Whether the current token ends a body.
    fn at_stop(&self, stop: &Stop) -> (r: bool)
        requires
            self.wf(),
        ensures
            r == (self.toks()[self.pos as int].kind is Eof || grammar::stops(
                *stop,
                self.toks()[self.pos as int].kind,
            )),
    {
        let k: &TokenKind = self.kind();
        if matches!(k, TokenKind::Eof) {
            return true;
        }
        match stop {
            Stop::Option => matches!(k, TokenKind::Pipe | TokenKind::Question),
            Stop::Branch => matches!(k, TokenKind::Else | TokenKind::End),
            Stop::Else => matches!(k, TokenKind::End),
        }
    }

    fn parse_body(&mut self, stop: Stop) -> (nodes: Vec<Node>)
        requires
            old(self).wf(),
        ensures
            ({
                let (n, p, e) = grammar::body_at(
                    old(self).toks(),
                    old(self).pos as int,
                    stop,
                    Seq::empty(),
                    Seq::empty(),
                );
                ast::node_views(nodes@) == n && final(self).went(old(self), p, e)
            }),
        decreases old(self).tokens@.len() - old(self).pos, 3int,
    {
        let mut nodes: Vec<Node> = Vec::new();
        let ghost mut errs: Seq<Fault> = Seq::empty();
        let ghost base = parse_error_views(self.errors@);
        assert(base + errs =~= base);
        loop
            invariant
                self.went(old(self), self.pos as int, errs),
                base == parse_error_views(old(self).errors@),
                grammar::body_at(
                    old(self).toks(),
                    old(self).pos as int,
                    stop,
                    Seq::empty(),
                    Seq::empty(),
                ) == grammar::body_at(
                    self.toks(),
                    self.pos as int,
                    stop,
                    ast::node_views(nodes@),
                    errs,
                ),
            decreases self.tokens@.len() - self.pos,
        {
            if self.at_stop(&stop) {
                return nodes;
            }
            let ghost n = grammar::node_at(self.toks(), self.pos as int);
            match self.parse_node() {
                Ok(node) => {
                    self.skip_newlines();
                    proof {
                        ast::lemma_node_views_push(nodes@, node);
                        assert(base + errs + n.errs =~= base + (errs + n.errs));
                        errs = errs + n.errs;
                    }
                    nodes.push(node);
                },
                Err(f) => {
                    self.record(f);
                    proof {
                        assert((base + errs + n.errs).push(f@) =~= base + (errs + n.errs).push(
                            f@,
                        ));
                    }
                    return nodes;
                },
            }
        }
    }

    fn parse_option_condition(&mut self) -> (r: Result<Option<Expr>, ParseError>)
        requires
            old(self).wf(),
        ensures
            ({
                let s = grammar::option_condition(old(self).toks(), old(self).pos as int);
                &&& final(self).moved(old(self), s.pos)
                &&& match r {
                    Ok(c) => s.res == Ok::<Option<Expr<Seq<char>>>, Fault>(ast::opt_expr_view(c)),
                    Err(f) => s.res == Err::<Option<Expr<Seq<char>>>, Fault>(f@),
                }
            }),
    {
        if matches!(self.kind(), TokenKind::If) {
            self.advance();
            match self.parse_expr(0) {
                Ok(e) => Ok(Some(e)),
                Err(f) => Err(f),
            }
        } else {
            Ok(None)
        }
    }

    fn parse_options(&mut self) -> (r: Result<Vec<ChoiceOption>, ParseError>)
        requires
            old(self).wf(),
        ensures
            ({
                let o = grammar::options_at(
                    old(self).toks(),
                    old(self).pos as int,
                    Seq::empty(),
                    Seq::empty(),
                );
                &&& final(self).went(old(self), o.pos, o.errs)
                &&& match r {
                    Ok(options) => o.res matches Ok(v) && v == ast::option_views(options@),
                    Err(f) => o.res matches Err(g) && g == f@,
                }
            }),
        decreases old(self).tokens@.len() - old(self).pos, 0int,
    {
        let mut options: Vec<ChoiceOption> = Vec::new();
        let ghost mut errs: Seq<Fault> = Seq::empty();
        let ghost base = parse_error_views(self.errors@);
        assert(base + errs =~= base);
        loop
            invariant
                self.went(old(self), self.pos as int, errs),
                base == parse_error_views(old(self).errors@),
                grammar::options_at(
                    old(self).toks(),
                    old(self).pos as int,
                    Seq::empty(),
                    Seq::empty(),
                ) == grammar::options_at(
                    self.toks(),
                    self.pos as int,
                    ast::option_views(options@),
                    errs,
                ),
            decreases self.tokens@.len() - self.pos,
        {
            if !matches!(self.kind(), TokenKind::Pipe) {
                return Ok(options);
            }
            let span: LocSpan = self.current_span();
            self.advance();
            let text: String = match self.expect_string("choice text") {
                Ok(t) => t,
                Err(f) => {
                    return Err(f);
                },
            };
            let condition: Option<Expr> = match self.parse_option_condition() {
                Ok(c) => c,
                Err(f) => {
                    return Err(f);
                },
            };
            self.consume_newline();
            self.skip_newlines();
            let ghost b = grammar::body_at(
                self.toks(),
                self.pos as int,
                Stop::Option,
                Seq::empty(),
                Seq::empty(),
            );
            let body: Vec<Node> = self.parse_body(Stop::Option);
            let option: ChoiceOption = ChoiceOption { text, condition, body, span };
            proof {
                ast::lemma_option_views_push(options@, option);
                assert(base + errs + b.2 =~= base + (errs + b.2));
                errs = errs + b.2;
            }
            options.push(option);
        }
    }

    fn parse_choice(&mut self) -> (r: Result<Node, ParseError>)
        requires
            old(self).wf(),
            old(self).toks()[old(self).pos as int].kind is Question,
        ensures
            ({
                let n = grammar::choice_at(old(self).toks(), old(self).pos as int);
                node_result(r) == n.res && final(self).went(old(self), n.pos, n.errs)
            }),
            old(self).pos < final(self).pos,
        decreases old(self).tokens@.len() - old(self).pos, 1int,
    {
        let span: LocSpan = self.current_span();
        self.advance();
        let mut prompt: Option<String> = None;
        if let TokenKind::String(s) = self.kind() {
            let p: String = s.clone();
            self.advance();
            prompt = Some(p);
        }
        self.consume_newline();
        self.skip_newlines();
        let options: Vec<ChoiceOption> = match self.parse_options() {
            Ok(o) => o,
            Err(f) => {
                return Err(f);
            },
        };
        let here: bool = matches!(self.kind(), TokenKind::Question);
        match self.expect(here, "? (to close choice block)") {
            Ok(_) => {
                self.consume_newline();
                Ok(Node::Choice { prompt, options, span })
            },
            Err(f) => Err(f),
        }
    }

    fn parse_else(&mut self) -> (r: Option<Vec<Node>>)
        requires
            old(self).wf(),
        ensures
            ({
                let (b, p, e) = grammar::else_at(old(self).toks(), old(self).pos as int);
                &&& final(self).went(old(self), p, e)
                &&& match r {
                    Some(nodes) => b == Some(ast::node_views(nodes@)),
                    None => b is None,
                }
            }),
        decreases old(self).tokens@.len() - old(self).pos, 4int,
    {
        let ghost base = parse_error_views(self.errors@);
        assert(base + Seq::empty() =~= base);
        if matches!(self.kind(), TokenKind::Else) {
            self.advance();
            self.consume_newline();
            self.skip_newlines();
            Some(self.parse_body(Stop::Else))
        } else {
            None
        }
    }

    fn parse_conditional(&mut self) -> (r: Result<Node, ParseError>)
        requires
            old(self).wf(),
            old(self).toks()[old(self).pos as int].kind is If,
        ensures
            ({
                let n = grammar::conditional_at(old(self).toks(), old(self).pos as int);
                node_result(r) == n.res && final(self).went(old(self), n.pos, n.errs)
            }),
            old(self).pos < final(self).pos,
        decreases old(self).tokens@.len() - old(self).pos, 1int,
    {
        let ghost base = parse_error_views(self.errors@);
        assert(base + Seq::empty() =~= base);
        let span: LocSpan = self.current_span();
        self.advance();
        let cond: Expr = match self.parse_expr(0) {
            Ok(e) => e,
            Err(f) => {
                return Err(f);
            },
        };
        self.consume_newline();
        self.skip_newlines();
        let ghost b = grammar::body_at(
            self.toks(),
            self.pos as int,
            Stop::Branch,
            Seq::empty(),
            Seq::empty(),
        );
        let body: Vec<Node> = self.parse_body(Stop::Branch);
        let ghost o = grammar::else_at(self.toks(), self.pos as int);
        let else_branch: Option<Vec<Node>> = self.parse_else();
        assert(base + b.2 + o.2 =~= base + (b.2 + o.2));
        let here: bool = matches!(self.kind(), TokenKind::End);
        match self.expect(here, "end") {
            Ok(_) => {
                self.consume_newline();
                let mut branches: Vec<(Expr, Vec<Node>)> = Vec::new();
                branches.push((cond, body));
                proof {
                    ast::lemma_branch_views(branches@);
                    assert(ast::branch_views(branches@) =~= seq![
                        (cond@, ast::node_views(body@)),
                    ]);
                }
                Ok(Node::Conditional { branches, else_branch, span })
            },
            Err(f) => Err(f),
        }
    }

    // -- sections and programs ----------------------------------------------

    fn parse_section_body(&mut self) -> (nodes: Vec<Node>)
        requires
            old(self).wf(),
        ensures
            ({
                let (n, p, e) = grammar::section_body(
                    old(self).toks(),
                    old(self).pos as int,
                    Seq::empty(),
                    Seq::empty(),
                );
                ast::node_views(nodes@) == n && final(self).went(old(self), p, e)
            }),
    {
        let mut nodes: Vec<Node> = Vec::new();
        let ghost mut errs: Seq<Fault> = Seq::empty();
        let ghost base = parse_error_views(self.errors@);
        assert(base + errs =~= base);
        while !matches!(self.kind(), TokenKind::Eof | TokenKind::SectionMark)
            invariant
                self.went(old(self), self.pos as int, errs),
                base == parse_error_views(old(self).errors@),
                grammar::section_body(
                    old(self).toks(),
                    old(self).pos as int,
                    Seq::empty(),
                    Seq::empty(),
                ) == grammar::section_body(
                    self.toks(),
                    self.pos as int,
                    ast::node_views(nodes@),
                    errs,
                ),
            decreases self.tokens@.len() - self.pos,
        {
            let start: usize = self.pos;
            let ghost n = grammar::node_at(self.toks(), self.pos as int);
            match self.parse_node() {
                Ok(node) => {
                    proof {
                        ast::lemma_node_views_push(nodes@, node);
                        assert(base + errs + n.errs =~= base + (errs + n.errs));
                        errs = errs + n.errs;
                    }
                    nodes.push(node);
                },
                Err(f) => {
                    self.record(f);
                    self.sync_in_section();
                    if self.pos <= start {
                        self.advance();
                    }
                    proof {
                        assert((base + errs + n.errs).push(f@) =~= base + (errs + n.errs).push(
                            f@,
                        ));
                        errs = (errs + n.errs).push(f@);
                    }
                },
            }
            self.skip_newlines();
        }
        nodes
    }

    fn parse_section(&mut self) -> (r: Result<Section, ParseError>)
        requires
            old(self).wf(),
            old(self).toks()[old(self).pos as int].kind is SectionMark,
        ensures
            ({
                let s = grammar::section_at(old(self).toks(), old(self).pos as int);
                section_result(r) == s.res && final(self).went(old(self), s.pos, s.errs)
            }),
            old(self).pos < final(self).pos,
    {
        let ghost base = parse_error_views(self.errors@);
        assert(base + Seq::empty() =~= base);
        let span: LocSpan = self.current_span();
        self.advance();
        self.skip_newlines();
        let name: String = match self.expect_ident("section name") {
            Ok(s) => s,
            Err(f) => {
                return Err(f);
            },
        };
        self.skip_newlines();
        if matches!(self.kind(), TokenKind::SectionMark) {
            self.advance();
        }
        self.skip_newlines();
        let nodes: Vec<Node> = self.parse_section_body();
        Ok(Section { name, nodes, span })
    }

    /// The section that starts here, or the error that none does.
    fn parse_section_step(&mut self) -> (r: Result<Section, ParseError>)
        requires
            old(self).wf(),
            !(old(self).toks()[old(self).pos as int].kind is Eof),
        ensures
            ({
                let s = grammar::section_step(old(self).toks(), old(self).pos as int);
                section_result(r) == s.res && final(self).went(old(self), s.pos, s.errs)
            }),
            old(self).pos < final(self).pos,
    {
        let ghost base = parse_error_views(self.errors@);
        assert(base + Seq::empty() =~= base);
        let r: Result<Section, ParseError> = if matches!(self.kind(), TokenKind::SectionMark) {
            let s: Result<Section, ParseError> = self.parse_section();
            if s.is_err() {
                self.sync_to_section();
            }
            s
        } else {
            let f: ParseError = self.fault(
                "nodes must be inside a section (# Name)".to_owned(),
                Some("add a section header like '# Start' before this".to_owned()),
            );
            self.advance();
            self.sync_to_section();
            Err(f)
        };
        self.skip_newlines();
        r
    }

    /// The program of the tokens, or all the errors in them.
    pub fn parse(self) -> (r: Result<Program, Vec<ParseError>>)
        requires
            self.is_fresh(),
        ensures
            r is Ok <==> grammar::parsed(self.toks()).1.len() == 0,
            r matches Ok(p) ==> p@ == grammar::parsed(self.toks()).0,
            r matches Err(errors) ==> parse_error_views(errors@) == grammar::parsed(self.toks()).1,
    {
        let mut me: Parser = self;
        let mut sections: Vec<Section> = Vec::new();
        me.skip_newlines();
        assert(ast::section_views(sections@) =~= Seq::empty());
        assert(parse_error_views(me.errors@) =~= Seq::empty());
        while !matches!(me.kind(), TokenKind::Eof)
            invariant
                me.wf(),
                me.tokens == self.tokens,
                grammar::sections_at(
                    self.toks(),
                    grammar::past_newlines(self.toks(), 0),
                    Seq::empty(),
                    Seq::empty(),
                ) == grammar::sections_at(
                    me.toks(),
                    me.pos as int,
                    ast::section_views(sections@),
                    parse_error_views(me.errors@),
                ),
            decreases me.tokens@.len() - me.pos,
        {
            let ghost before = sections@;
            match me.parse_section_step() {
                Ok(s) => {
                    sections.push(s);
                    assert(ast::section_views(sections@) =~= ast::section_views(before).push(
                        ast::section_view(s),
                    ));
                },
                Err(f) => {
                    me.record(f);
                },
            }
        }
        if me.errors.len() > 0 {
            return Err(me.errors);
        }
        let entry: Option<String> = if sections.len() > 0 {
            Some(sections[0].name.clone())
        } else {
            None
        };
        Ok(Program { sections, entry })
    }
}

/// Whether the word in lower case is `w`.
fn lowered_is(s: &str, w: &str) -> (r: bool)
    ensures
        r == (text::lowered(s@) == w@),
{
    let cs: Vec<char> = to_chars(s);
    let ws: Vec<char> = to_chars(w);
    if cs.len() != ws.len() {
        return false;
    }
    let mut i: usize = 0;
    while i < cs.len()
        invariant
            i <= cs@.len(),
            cs@.len() == ws@.len(),
            cs@ == s@,
            ws@ == w@,
            forall|k: int| 0 <= k < i ==> text::lower(cs@[k]) == ws@[k],
        decreases cs@.len() - i,
    {
        let c: char = cs[i];
        if lower_char(c) != ws[i] {
            assert(text::lowered(s@)[i as int] != w@[i as int]);
            return false;
        }
        i = i + 1;
    }
    assert(text::lowered(s@) =~= w@);
    true
}

/// The position of a word, by name or as a number.
fn read_position(s: &str) -> (p: Option<Position>)
    ensures
        ast::opt_position_view(p) == grammar::position_of(s@),
{
    match Position::from_name(s) {
        Some(p) => Some(p),
        None => if lowered_is(s, "inf") || lowered_is(s, "infinity") || lowered_is(s, "nan") {
            Some(Position::Custom(Number::Decimal(s.to_owned())))
        } else {
            None
        },
    }
}

} // verus!
