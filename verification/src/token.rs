//! Lexical tokens of the Fire language, and their mathematical models.

use vstd::prelude::*;

verus! {

/// A floating literal, held exactly as the lexer read it: the value before
/// the point and the digits after it (most significant first, each `0..=9`).
/// The number denoted is `whole + sum(frac[k] * 10^-(k+1))`.
#[derive(Debug)]
pub struct NumLit {
    /// The integer part (or the whole value, for an integer literal with a
    /// trailing `f`).
    pub whole: i64,
    /// The decimal digits after the point, in source order.
    pub frac: Vec<u8>,
}

/// Mathematical model of a [`NumLit`].
pub struct NumModel {
    pub whole: int,
    pub frac: Seq<u8>,
}

impl View for NumLit {
    type V = NumModel;

    open spec fn view(&self) -> NumModel {
        NumModel { whole: self.whole as int, frac: self.frac@ }
    }
}

/// One lexical unit of Fire source text.
#[derive(Debug)]
pub enum Token {
    Plus,
    Minus,
    Multiply,
    Divide,
    Mod,
    And,
    Or,
    Not,
    Xor,
    StrictAnd,
    StrictOr,
    Assign,
    PlusAssign,
    MinusAssign,
    MultiplyAssign,
    DivideAssign,
    ModAssign,
    Increment,
    Decrement,
    Equals,
    NotEqual,
    Greater,
    Less,
    GreaterEqual,
    LessEqual,
    FatArrow,
    Colon,
    Comma,
    OpenParen,
    CloseParen,
    OpenBrace,
    CloseBrace,
    OpenBracket,
    CloseBracket,
    Dot,
    Accesser,
    /// A string literal's decoded contents.
    StringLit(String),
    /// An annotation name, without the leading `@`.
    Annotation(String),
    /// A lowercase-leading name that is not a keyword.
    Identifier(String),
    /// An uppercase-leading type name other than `Self`.
    Type(String),
    /// An integer literal's value.
    Int(i64),
    /// A floating literal's exact digits.
    Num(NumLit),
    FuncDef,
    ProcDef,
    StructDef,
    EnumDef,
    TraitDef,
    Implementation,
    GroupDef,
    Private,
    Const,
    Let,
    Import,
    SelfIdent,
    SelfType,
    For,
    While,
    If,
    In,
    Else,
}

/// Mathematical model of a [`Token`]: the same shape over character
/// sequences and unbounded integers.
pub enum TokenModel {
    Plus,
    Minus,
    Multiply,
    Divide,
    Mod,
    And,
    Or,
    Not,
    Xor,
    StrictAnd,
    StrictOr,
    Assign,
    PlusAssign,
    MinusAssign,
    MultiplyAssign,
    DivideAssign,
    ModAssign,
    Increment,
    Decrement,
    Equals,
    NotEqual,
    Greater,
    Less,
    GreaterEqual,
    LessEqual,
    FatArrow,
    Colon,
    Comma,
    OpenParen,
    CloseParen,
    OpenBrace,
    CloseBrace,
    OpenBracket,
    CloseBracket,
    Dot,
    Accesser,
    StringLit(Seq<char>),
    Annotation(Seq<char>),
    Identifier(Seq<char>),
    Type(Seq<char>),
    Int(int),
    Num(NumModel),
    FuncDef,
    ProcDef,
    StructDef,
    EnumDef,
    TraitDef,
    Implementation,
    GroupDef,
    Private,
    Const,
    Let,
    Import,
    SelfIdent,
    SelfType,
    For,
    While,
    If,
    In,
    Else,
}

impl View for Token {
    type V = TokenModel;

    open spec fn view(&self) -> TokenModel {
        match self {
            Token::Plus => TokenModel::Plus,
            Token::Minus => TokenModel::Minus,
            Token::Multiply => TokenModel::Multiply,
            Token::Divide => TokenModel::Divide,
            Token::Mod => TokenModel::Mod,
            Token::And => TokenModel::And,
            Token::Or => TokenModel::Or,
            Token::Not => TokenModel::Not,
            Token::Xor => TokenModel::Xor,
            Token::StrictAnd => TokenModel::StrictAnd,
            Token::StrictOr => TokenModel::StrictOr,
            Token::Assign => TokenModel::Assign,
            Token::PlusAssign => TokenModel::PlusAssign,
            Token::MinusAssign => TokenModel::MinusAssign,
            Token::MultiplyAssign => TokenModel::MultiplyAssign,
            Token::DivideAssign => TokenModel::DivideAssign,
            Token::ModAssign => TokenModel::ModAssign,
            Token::Increment => TokenModel::Increment,
            Token::Decrement => TokenModel::Decrement,
            Token::Equals => TokenModel::Equals,
            Token::NotEqual => TokenModel::NotEqual,
            Token::Greater => TokenModel::Greater,
            Token::Less => TokenModel::Less,
            Token::GreaterEqual => TokenModel::GreaterEqual,
            Token::LessEqual => TokenModel::LessEqual,
            Token::FatArrow => TokenModel::FatArrow,
            Token::Colon => TokenModel::Colon,
            Token::Comma => TokenModel::Comma,
            Token::OpenParen => TokenModel::OpenParen,
            Token::CloseParen => TokenModel::CloseParen,
            Token::OpenBrace => TokenModel::OpenBrace,
            Token::CloseBrace => TokenModel::CloseBrace,
            Token::OpenBracket => TokenModel::OpenBracket,
            Token::CloseBracket => TokenModel::CloseBracket,
            Token::Dot => TokenModel::Dot,
            Token::Accesser => TokenModel::Accesser,
            Token::StringLit(s) => TokenModel::StringLit(s@),
            Token::Annotation(s) => TokenModel::Annotation(s@),
            Token::Identifier(s) => TokenModel::Identifier(s@),
            Token::Type(s) => TokenModel::Type(s@),
            Token::Int(n) => TokenModel::Int(*n as int),
            Token::Num(m) => TokenModel::Num(m@),
            Token::FuncDef => TokenModel::FuncDef,
            Token::ProcDef => TokenModel::ProcDef,
            Token::StructDef => TokenModel::StructDef,
            Token::EnumDef => TokenModel::EnumDef,
            Token::TraitDef => TokenModel::TraitDef,
            Token::Implementation => TokenModel::Implementation,
            Token::GroupDef => TokenModel::GroupDef,
            Token::Private => TokenModel::Private,
            Token::Const => TokenModel::Const,
            Token::Let => TokenModel::Let,
            Token::Import => TokenModel::Import,
            Token::SelfIdent => TokenModel::SelfIdent,
            Token::SelfType => TokenModel::SelfType,
            Token::For => TokenModel::For,
            Token::While => TokenModel::While,
            Token::If => TokenModel::If,
            Token::In => TokenModel::In,
            Token::Else => TokenModel::Else,
        }
    }
}

/// The token a lowercase-leading word denotes: its keyword token if the word
/// is one of the fixed keywords, an identifier carrying the word otherwise.
pub open spec fn keyword_token(w: Seq<char>) -> TokenModel {
    if w == "fn"@ {
        TokenModel::FuncDef
    } else if w == "pc"@ {
        TokenModel::ProcDef
    } else if w == "struct"@ {
        TokenModel::StructDef
    } else if w == "trait"@ {
        TokenModel::TraitDef
    } else if w == "enum"@ {
        TokenModel::EnumDef
    } else if w == "group"@ {
        TokenModel::GroupDef
    } else if w == "private"@ {
        TokenModel::Private
    } else if w == "let"@ {
        TokenModel::Let
    } else if w == "const"@ {
        TokenModel::Const
    } else if w == "self"@ {
        TokenModel::SelfIdent
    } else if w == "import"@ {
        TokenModel::Import
    } else if w == "impl"@ {
        TokenModel::Implementation
    } else if w == "in"@ {
        TokenModel::In
    } else if w == "for"@ {
        TokenModel::For
    } else if w == "while"@ {
        TokenModel::While
    } else if w == "if"@ {
        TokenModel::If
    } else if w == "else"@ {
        TokenModel::Else
    } else {
        TokenModel::Identifier(w)
    }
}

/// The token an uppercase-leading word denotes: the dedicated token for
/// `Self`, a type name carrying the word otherwise.
pub open spec fn type_token(w: Seq<char>) -> TokenModel {
    if w == "Self"@ {
        TokenModel::SelfType
    } else {
        TokenModel::Type(w)
    }
}

} // verus!
