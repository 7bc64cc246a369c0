//! Syntax trees of the script language.
//!
//! Each tree type has a mathematical counterpart, over `Seq` in place of `Vec`
//! and `String`, which the specifications speak of.

use crate::text::{opt_clone, str_eq};
use crate::token::LocSpan;
use crate::text;
use vstd::prelude::*;

verus! {

#[derive(Debug, Clone, Copy, PartialEq, Eq, Structural)]
pub enum DirectionKind {
    Enter,
    Exit,
}

/// A number as the script writes it.
#[derive(Debug, Clone, PartialEq, Eq)]
pub enum Number<S = String> {
    Int(i64),
    /// A decimal literal.
    Decimal(S),
}

impl View for Number<String> {
    type V = Number<Seq<char>>;

    open spec fn view(&self) -> Number<Seq<char>> {
        match *self {
            Number::Int(n) => Number::Int(n),
            Number::Decimal(s) => Number::Decimal(s@),
        }
    }
}

pub open spec fn opt_number_view(o: Option<Number>) -> Option<Number<Seq<char>>> {
    match o {
        Some(n) => Some(n@),
        None => None,
    }
}

/// Sprite position. A custom position is a fraction of the stage width.
#[derive(Debug, Clone, PartialEq, Eq)]
pub enum Position<S = String> {
    Left,
    Center,
    Right,
    Custom(Number<S>),
}

impl View for Position<String> {
    type V = Position<Seq<char>>;

    open spec fn view(&self) -> Position<Seq<char>> {
        match *self {
            Position::Left => Position::Left,
            Position::Center => Position::Center,
            Position::Right => Position::Right,
            Position::Custom(n) => Position::Custom(n@),
        }
    }
}

pub open spec fn opt_position_view(o: Option<Position>) -> Option<Position<Seq<char>>> {
    match o {
        Some(p) => Some(p@),
        None => None,
    }
}

/// The position that a word names.
pub open spec fn position_named(name: Seq<char>) -> Option<Position<Seq<char>>> {
    if name == "left"@ || name == "居左"@ || name == "左"@ {
        Some(Position::Left)
    } else if name == "center"@ || name == "centre"@ || name == "居中"@ || name == "中"@ {
        Some(Position::Center)
    } else if name == "right"@ || name == "居右"@ || name == "右"@ {
        Some(Position::Right)
    } else {
        None
    }
}

impl Position<String> {
    pub fn from_name(name: &str) -> (p: Option<Self>)
        ensures
            opt_position_view(p) == position_named(name@),
    {
        if str_eq(name, "left") || str_eq(name, "居左") || str_eq(name, "左") {
            Some(Position::Left)
        } else if str_eq(name, "center") || str_eq(name, "centre") || str_eq(name, "居中")
            || str_eq(name, "中") {
            Some(Position::Center)
        } else if str_eq(name, "right") || str_eq(name, "居右") || str_eq(name, "右") {
            Some(Position::Right)
        } else {
            None
        }
    }

    /// The horizontal position as a fraction of the stage width: one quarter,
    /// one half, three quarters, or the custom one.
    pub fn x_fraction(&self) -> (x: Number)
        ensures
            x@ == (match self@ {
                Position::Left => Number::Decimal("0.25"@),
                Position::Center => Number::Decimal("0.5"@),
                Position::Right => Number::Decimal("0.75"@),
                Position::Custom(n) => n,
            }),
    {
        match self {
            Position::Left => Number::Decimal("0.25".to_owned()),
            Position::Center => Number::Decimal("0.5".to_owned()),
            Position::Right => Number::Decimal("0.75".to_owned()),
            Position::Custom(n) => clone_number(n),
        }
    }
}

pub fn clone_number(n: &Number) -> (r: Number)
    ensures
        r@ == n@,
{
    match n {
        Number::Int(i) => Number::Int(*i),
        Number::Decimal(s) => Number::Decimal(s.clone()),
    }
}

fn clone_position(p: &Position) -> (r: Position)
    ensures
        r@ == p@,
{
    match p {
        Position::Left => Position::Left,
        Position::Center => Position::Center,
        Position::Right => Position::Right,
        Position::Custom(n) => Position::Custom(clone_number(n)),
    }
}

fn clone_opt_number(o: &Option<Number>) -> (r: Option<Number>)
    ensures
        opt_number_view(r) == opt_number_view(*o),
{
    match o {
        Some(n) => Some(clone_number(n)),
        None => None,
    }
}

pub fn clone_action(a: &DirectionAction) -> (r: DirectionAction)
    ensures
        r@ == a@,
{
    DirectionAction {
        kind: a.kind,
        character: a.character.clone(),
        pose: opt_clone(&a.pose),
        position: match &a.position {
            Some(p) => Some(clone_position(p)),
            None => None,
        },
        y: clone_opt_number(&a.y),
        size: clone_opt_number(&a.size),
        transition: a.transition,
    }
}

/// Transition effect.
#[derive(Debug, Clone, Copy, PartialEq, Eq, Structural)]
pub enum Transition {
    Fade,
    FadeBlack,
    FadeWhite,
    SlideLeft,
    SlideRight,
    SlideUp,
    SlideDown,
    Dissolve,
    WipeLeft,
    WipeRight,
    Blur,
    Instant,
}

/// The transition that a word names.
pub open spec fn transition_named(name: Seq<char>) -> Option<Transition> {
    if name == "fade"@ {
        Some(Transition::Fade)
    } else if name == "fade_black"@ {
        Some(Transition::FadeBlack)
    } else if name == "fade_white"@ {
        Some(Transition::FadeWhite)
    } else if name == "slide_left"@ {
        Some(Transition::SlideLeft)
    } else if name == "slide_right"@ {
        Some(Transition::SlideRight)
    } else if name == "slide_up"@ {
        Some(Transition::SlideUp)
    } else if name == "slide_down"@ {
        Some(Transition::SlideDown)
    } else if name == "dissolve"@ {
        Some(Transition::Dissolve)
    } else if name == "wipe_left"@ {
        Some(Transition::WipeLeft)
    } else if name == "wipe_right"@ {
        Some(Transition::WipeRight)
    } else if name == "blur"@ {
        Some(Transition::Blur)
    } else if name == "instant"@ || name == "cut"@ {
        Some(Transition::Instant)
    } else {
        None
    }
}

impl Transition {
    pub fn from_name(name: &str) -> (t: Option<Self>)
        ensures
            t == transition_named(name@),
    {
        if str_eq(name, "fade") {
            Some(Transition::Fade)
        } else if str_eq(name, "fade_black") {
            Some(Transition::FadeBlack)
        } else if str_eq(name, "fade_white") {
            Some(Transition::FadeWhite)
        } else if str_eq(name, "slide_left") {
            Some(Transition::SlideLeft)
        } else if str_eq(name, "slide_right") {
            Some(Transition::SlideRight)
        } else if str_eq(name, "slide_up") {
            Some(Transition::SlideUp)
        } else if str_eq(name, "slide_down") {
            Some(Transition::SlideDown)
        } else if str_eq(name, "dissolve") {
            Some(Transition::Dissolve)
        } else if str_eq(name, "wipe_left") {
            Some(Transition::WipeLeft)
        } else if str_eq(name, "wipe_right") {
            Some(Transition::WipeRight)
        } else if str_eq(name, "blur") {
            Some(Transition::Blur)
        } else if str_eq(name, "instant") || str_eq(name, "cut") {
            Some(Transition::Instant)
        } else {
            None
        }
    }

    /// The usual length of the transition, in milliseconds.
    pub open spec fn duration_ms(self) -> u32 {
        match self {
            Transition::Fade => 600,
            Transition::FadeBlack => 800,
            Transition::FadeWhite => 800,
            Transition::SlideLeft => 500,
            Transition::SlideRight => 500,
            Transition::SlideUp => 500,
            Transition::SlideDown => 500,
            Transition::Dissolve => 800,
            Transition::WipeLeft => 500,
            Transition::WipeRight => 500,
            Transition::Blur => 600,
            Transition::Instant => 0,
        }
    }

    /// The usual length of the transition, in milliseconds.
    pub fn default_duration(&self) -> (ms: u32)
        ensures
            ms == self.duration_ms(),
    {
        match self {
            Transition::Fade => 600,
            Transition::FadeBlack | Transition::FadeWhite => 800,
            Transition::SlideLeft
            | Transition::SlideRight
            | Transition::SlideUp
            | Transition::SlideDown => 500,
            Transition::Dissolve => 800,
            Transition::WipeLeft | Transition::WipeRight => 500,
            Transition::Blur => 600,
            Transition::Instant => 0,
        }
    }
}

/// Variable operation kind.
#[derive(Debug, Clone, Copy, PartialEq, Eq, Structural)]
pub enum VarOpKind {
    Assign,
    PlusEq,
    MinusEq,
}

#[derive(Debug, Clone, Copy, PartialEq, Eq, Structural)]
pub enum BinOp {
    Add,
    Sub,
    Mul,
    Div,
    Eq,
    Neq,
    Lt,
    Gt,
    LtEq,
    GtEq,
    And,
    Or,
}

#[derive(Debug, Clone, Copy, PartialEq, Eq, Structural)]
pub enum UnOp {
    Neg,
    Not,
}

/// Expressions for conditions and variable values. The parameter is the type
/// of the texts in it.
#[derive(Debug)]
#[allow(inconsistent_fields)]
pub enum Expr<S = String> {
    Int(i64),
    /// A decimal literal.
    Float(S),
    Str(S),
    Var(S),
    Bool(bool),
    Binary { op: BinOp, left: Box<Expr<S>>, right: Box<Expr<S>>, span: LocSpan },
    Unary { op: UnOp, operand: Box<Expr<S>>, span: LocSpan },
}

/// The expression over character sequences.
pub open spec fn expr_view(e: Expr<String>) -> Expr<Seq<char>>
    decreases e,
{
    match e {
        Expr::Int(n) => Expr::Int(n),
        Expr::Float(s) => Expr::Float(s@),
        Expr::Str(s) => Expr::Str(s@),
        Expr::Var(s) => Expr::Var(s@),
        Expr::Bool(b) => Expr::Bool(b),
        Expr::Binary { op, left, right, span } => Expr::Binary {
            op,
            left: Box::new(expr_view(*left)),
            right: Box::new(expr_view(*right)),
            span,
        },
        Expr::Unary { op, operand, span } => Expr::Unary {
            op,
            operand: Box::new(expr_view(*operand)),
            span,
        },
    }
}

impl View for Expr<String> {
    type V = Expr<Seq<char>>;

    open spec fn view(&self) -> Expr<Seq<char>> {
        expr_view(*self)
    }
}

impl Expr<String> {
    pub fn span(&self) -> (s: LocSpan)
        ensures
            s == (match *self {
                Expr::Binary { span, .. } => span,
                Expr::Unary { span, .. } => span,
                _ => LocSpan::origin(),
            }),
    {
        match self {
            Expr::Binary { span, .. } => *span,
            Expr::Unary { span, .. } => *span,
            _ => LocSpan::dummy(),
        }
    }
}

impl Clone for Expr<String> {
    fn clone(&self) -> (r: Self)
        ensures
            r@ == self@,
        decreases *self,
    {
        match self {
            Expr::Int(n) => Expr::Int(*n),
            Expr::Float(s) => Expr::Float(s.clone()),
            Expr::Str(s) => Expr::Str(s.clone()),
            Expr::Var(s) => Expr::Var(s.clone()),
            Expr::Bool(b) => Expr::Bool(*b),
            Expr::Binary { op, left, right, span } => {
                let l: Expr = (**left).clone();
                let r: Expr = (**right).clone();
                Expr::Binary { op: *op, left: Box::new(l), right: Box::new(r), span: *span }
            },
            Expr::Unary { op, operand, span } => {
                let o: Expr = (**operand).clone();
                Expr::Unary { op: *op, operand: Box::new(o), span: *span }
            },
        }
    }
}

/// A stage direction: who comes or goes, how and where to.
#[derive(Debug, Clone)]
pub struct DirectionAction<S = String> {
    pub kind: DirectionKind,
    pub character: S,
    /// The sprite's name, as in `+ Aki (happy)`.
    pub pose: Option<S>,
    pub position: Option<Position<S>>,
    /// The height on the stage, as in `+ Aki at 0.5,1.0`.
    pub y: Option<Number<S>>,
    /// The size, as in `+ Aki size 1.2`.
    pub size: Option<Number<S>>,
    pub transition: Option<Transition>,
}

impl View for DirectionAction<String> {
    type V = DirectionAction<Seq<char>>;

    open spec fn view(&self) -> DirectionAction<Seq<char>> {
        DirectionAction {
            kind: self.kind,
            character: self.character@,
            pose: text::opt_view(self.pose),
            position: opt_position_view(self.position),
            y: opt_number_view(self.y),
            size: opt_number_view(self.size),
            transition: self.transition,
        }
    }
}

/// Nodes within a section.
#[derive(Debug)]
pub enum Node {
    /// `Character: "text"` or `Character (pose): "text"`
    Dialogue { speaker: String, pose: Option<String>, text: String, span: LocSpan },
    /// A standalone `"text"`
    Narration { text: String, span: LocSpan },
    /// `@bg name`, `@music file`, `@sound file`
    Command { cmd: String, args: Vec<String>, transition: Option<Transition>, span: LocSpan },
    /// `+ Character ...` or `- Character ...`
    Direction { action: DirectionAction, span: LocSpan },
    /// `$var = expr`, `$var += expr`, `$var -= expr`
    VarOp { name: String, op: VarOpKind, expr: Expr, span: LocSpan },
    /// `? "prompt"` ... `?`
    Choice { prompt: Option<String>, options: Vec<ChoiceOption>, span: LocSpan },
    /// `if expr` ... `else` ... `end`
    Conditional { branches: Vec<(Expr, Vec<Node>)>, else_branch: Option<Vec<Node>>, span: LocSpan },
    /// `-> Target`
    Flow { target: String, span: LocSpan },
    /// `=> Target`
    Visit { target: String, span: LocSpan },
    /// `<=`
    Return { span: LocSpan },
    /// `wait 2.0`
    Wait { seconds: Number, span: LocSpan },
    /// `~~`
    StoryEnd { span: LocSpan },
}

/// An option of a choice block.
#[derive(Debug)]
pub struct ChoiceOption {
    pub text: String,
    pub condition: Option<Expr>,
    pub body: Vec<Node>,
    pub span: LocSpan,
}

/// A named section, opened by `# Name`.
#[derive(Debug)]
pub struct Section {
    pub name: String,
    pub nodes: Vec<Node>,
    pub span: LocSpan,
}

/// A whole script. The entry is the first section.
#[derive(Debug)]
pub struct Program {
    pub sections: Vec<Section>,
    pub entry: Option<String>,
}

// ---------------------------------------------------------------------------
// Trees over sequences
// ---------------------------------------------------------------------------

pub enum NodeView {
    Dialogue { speaker: Seq<char>, pose: Option<Seq<char>>, text: Seq<char>, span: LocSpan },
    Narration { text: Seq<char>, span: LocSpan },
    Command {
        cmd: Seq<char>,
        args: Seq<Seq<char>>,
        transition: Option<Transition>,
        span: LocSpan,
    },
    Direction { action: DirectionAction<Seq<char>>, span: LocSpan },
    VarOp { name: Seq<char>, op: VarOpKind, expr: Expr<Seq<char>>, span: LocSpan },
    Choice { prompt: Option<Seq<char>>, options: Seq<ChoiceOptionView>, span: LocSpan },
    Conditional {
        branches: Seq<(Expr<Seq<char>>, Seq<NodeView>)>,
        else_branch: Option<Seq<NodeView>>,
        span: LocSpan,
    },
    Flow { target: Seq<char>, span: LocSpan },
    Visit { target: Seq<char>, span: LocSpan },
    Return { span: LocSpan },
    Wait { seconds: Number<Seq<char>>, span: LocSpan },
    StoryEnd { span: LocSpan },
}

pub struct ChoiceOptionView {
    pub text: Seq<char>,
    pub condition: Option<Expr<Seq<char>>>,
    pub body: Seq<NodeView>,
    pub span: LocSpan,
}

pub struct SectionView {
    pub name: Seq<char>,
    pub nodes: Seq<NodeView>,
    pub span: LocSpan,
}

pub struct ProgramView {
    pub sections: Seq<SectionView>,
    pub entry: Option<Seq<char>>,
}

pub open spec fn opt_expr_view(e: Option<Expr>) -> Option<Expr<Seq<char>>> {
    match e {
        Some(x) => Some(x@),
        None => None,
    }
}

pub open spec fn node_view(n: Node) -> NodeView
    decreases n,
{
    match n {
        Node::Dialogue { speaker, pose, text, span } => NodeView::Dialogue {
            speaker: speaker@,
            pose: text::opt_view(pose),
            text: text@,
            span,
        },
        Node::Narration { text, span } => NodeView::Narration { text: text@, span },
        Node::Command { cmd, args, transition, span } => NodeView::Command {
            cmd: cmd@,
            args: text::views(args@),
            transition,
            span,
        },
        Node::Direction { action, span } => NodeView::Direction { action: action@, span },
        Node::VarOp { name, op, expr, span } => NodeView::VarOp {
            name: name@,
            op,
            expr: expr@,
            span,
        },
        Node::Choice { prompt, options, span } => NodeView::Choice {
            prompt: text::opt_view(prompt),
            options: option_views(options@),
            span,
        },
        Node::Conditional { branches, else_branch, span } => NodeView::Conditional {
            branches: branch_views(branches@),
            else_branch: match else_branch {
                Some(b) => Some(node_views(b@)),
                None => None,
            },
            span,
        },
        Node::Flow { target, span } => NodeView::Flow { target: target@, span },
        Node::Visit { target, span } => NodeView::Visit { target: target@, span },
        Node::Return { span } => NodeView::Return { span },
        Node::Wait { seconds, span } => NodeView::Wait { seconds: seconds@, span },
        Node::StoryEnd { span } => NodeView::StoryEnd { span },
    }
}

pub open spec fn node_views(s: Seq<Node>) -> Seq<NodeView>
    decreases s,
{
    if s.len() == 0 {
        Seq::empty()
    } else {
        node_views(s.drop_last()).push(node_view(s.last()))
    }
}

pub open spec fn option_views(s: Seq<ChoiceOption>) -> Seq<ChoiceOptionView>
    decreases s,
{
    if s.len() == 0 {
        Seq::empty()
    } else {
        option_views(s.drop_last()).push(option_view(s.last()))
    }
}

pub open spec fn option_view(o: ChoiceOption) -> ChoiceOptionView
    decreases o,
{
    ChoiceOptionView {
        text: o.text@,
        condition: opt_expr_view(o.condition),
        body: node_views(o.body@),
        span: o.span,
    }
}

pub open spec fn branch_views(s: Seq<(Expr, Vec<Node>)>) -> Seq<(Expr<Seq<char>>, Seq<NodeView>)>
    decreases s,
{
    if s.len() == 0 {
        Seq::empty()
    } else {
        branch_views(s.drop_last()).push((s.last().0@, node_views(s.last().1@)))
    }
}

pub open spec fn section_view(s: Section) -> SectionView {
    SectionView { name: s.name@, nodes: node_views(s.nodes@), span: s.span }
}

pub open spec fn section_views(s: Seq<Section>) -> Seq<SectionView> {
    Seq::new(s.len(), |i: int| section_view(s[i]))
}

impl View for Program {
    type V = ProgramView;

    open spec fn view(&self) -> ProgramView {
        ProgramView { sections: section_views(self.sections@), entry: text::opt_view(self.entry) }
    }
}

/// Element-wise facts about the views of node sequences.
pub proof fn lemma_node_views(s: Seq<Node>)
    ensures
        node_views(s).len() == s.len(),
        forall|i: int| 0 <= i < s.len() ==> #[trigger] node_views(s)[i] == node_view(s[i]),
    decreases s.len(),
{
    if s.len() > 0 {
        lemma_node_views(s.drop_last());
    }
}

pub proof fn lemma_option_views(s: Seq<ChoiceOption>)
    ensures
        option_views(s).len() == s.len(),
        forall|i: int| 0 <= i < s.len() ==> #[trigger] option_views(s)[i] == option_view(s[i]),
    decreases s.len(),
{
    if s.len() > 0 {
        lemma_option_views(s.drop_last());
    }
}

pub proof fn lemma_branch_views(s: Seq<(Expr, Vec<Node>)>)
    ensures
        branch_views(s).len() == s.len(),
        forall|i: int|
            0 <= i < s.len() ==> #[trigger] branch_views(s)[i] == (s[i].0@, node_views(s[i].1@)),
    decreases s.len(),
{
    if s.len() > 0 {
        lemma_branch_views(s.drop_last());
    }
}

/// Adding a node adds its view.
pub proof fn lemma_node_views_push(s: Seq<Node>, n: Node)
    ensures
        node_views(s.push(n)) == node_views(s).push(node_view(n)),
{
    assert(s.push(n).drop_last() =~= s);
}

/// Adding an option adds its view.
pub proof fn lemma_option_views_push(s: Seq<ChoiceOption>, o: ChoiceOption)
    ensures
        option_views(s.push(o)) == option_views(s).push(option_view(o)),
{
    assert(s.push(o).drop_last() =~= s);
}

} // verus!
