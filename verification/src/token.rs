//! Tokens as the lexer hands them over.

use vstd::prelude::*;

use crate::domain::Position;

verus! {

/// The kind of a token, as far as any capability tells kinds apart. Of those that
/// none of them looks at, reserved words are [`TokenKind::OtherKeyword`] and the
/// rest, strings among them, [`TokenKind::Other`].
#[derive(Clone, Copy, Debug, PartialEq, Eq, Structural)]
pub enum TokenKind {
    Abstract,
    Ampersand,
    AmpersandAmpersand,
    AmpersandAmpersandEqual,
    AmpersandEqual,
    And,
    Array,
    As,
    Asterisk,
    AsteriskEqual,
    At,
    Bang,
    BangEqual,
    BangEqualEqual,
    Break,
    Callable,
    Caret,
    CaretEqual,
    Case,
    Catch,
    Class,
    ClassConstant,
    Clone,
    Colon,
    ColonColon,
    Comma,
    Const,
    Continue,
    Declare,
    Default,
    DirConstant,
    Do,
    DocBlockComment,
    Dot,
    DotDotDot,
    DotEqual,
    Echo,
    Else,
    ElseIf,
    Empty,
    EndDeclare,
    EndFor,
    EndForeach,
    EndIf,
    EndSwitch,
    EndWhile,
    Enum,
    Equal,
    EqualEqual,
    EqualEqualEqual,
    EqualGreaterThan,
    Eval,
    Exit,
    Extends,
    False,
    FileConstant,
    Final,
    Finally,
    Fn,
    For,
    Foreach,
    From,
    FullyQualifiedIdentifier,
    Function,
    FunctionConstant,
    Global,
    Goto,
    GreaterThan,
    GreaterThanEqual,
    HaltCompiler,
    HashComment,
    Identifier,
    If,
    Implements,
    Include,
    IncludeOnce,
    Instanceof,
    Insteadof,
    Interface,
    Isset,
    LeftParenthesis,
    LessThan,
    LessThanEqual,
    LessThanEqualGreaterThan,
    LessThanGreaterThan,
    LineConstant,
    List,
    LiteralFloat,
    LiteralInteger,
    Match,
    MethodConstant,
    Minus,
    MinusEqual,
    MinusGreaterThan,
    MinusMinus,
    MultiLineComment,
    Namespace,
    NamespaceConstant,
    New,
    Null,
    Or,
    Other,
    OtherKeyword,
    Parent,
    Percent,
    PercentEqual,
    Pipe,
    PipeEqual,
    PipePipe,
    Plus,
    PlusEqual,
    PlusPlus,
    Print,
    Private,
    Protected,
    Public,
    QualifiedIdentifier,
    Question,
    QuestionMinusGreaterThan,
    QuestionQuestion,
    QuestionQuestionEqual,
    Readonly,
    Require,
    RequireOnce,
    Return,
    Self_,
    SingleLineComment,
    Slash,
    SlashEqual,
    Static,
    Switch,
    Throw,
    Tilde,
    Trait,
    TraitConstant,
    True,
    Try,
    Unset,
    Use,
    Var,
    Variable,
    While,
    Whitespace,
    Xor,
    Yield,
}

/// A token of a file, with the text it covers.
#[derive(Clone, Copy, Debug)]
pub struct Token<'file> {
    pub kind: TokenKind,
    pub start: Position,
    pub value: &'file [u8],
}

/// What a [`Token`] says: its kind, where it starts, and its text.
pub struct TokenView {
    pub kind: TokenKind,
    pub start: u32,
    pub value: Seq<u8>,
}

impl View for Token<'_> {
    type V = TokenView;

    open spec fn view(&self) -> TokenView {
        TokenView {
            kind: self.kind,
            start: self.start.offset,
            value: self.value@,
        }
    }
}

/// The views of a row of tokens.
pub open spec fn token_views(tokens: Seq<Token<'_>>) -> Seq<TokenView> {
    Seq::new(tokens.len(), |i: int| tokens[i]@)
}

/// A token without its text: the stretch of the file that it covers.
#[derive(Clone, Copy, Debug, PartialEq, Eq, Structural)]
pub struct RawToken {
    pub kind: TokenKind,
    pub start: u32,
    pub end: u32,
}

} // verus!
