//! Tokens: the units of a tokenized argument list.
use vstd::prelude::*;
use crate::schema::argument::ArgumentType;

pub mod number;
pub mod parser;
pub mod tokens;

verus! {

type Name = String;

/// One unit of the tokenized argument list.
#[derive(Debug, PartialEq)]
pub enum Token {
    /// Marks the program's own name, the first raw argument.
    AppName,
    /// A flag, with the type the schema declares for it and its name.
    Argument(ArgumentType, Name),
    /// The value of a string flag.
    StrValue(String),
    /// The value of an integer flag.
    IntValue(i64),
}

/// What a token is in contracts: the same four cases, with text as sequences
/// of characters.
pub enum TokenView {
    AppName,
    Argument(ArgumentType, Seq<char>),
    StrValue(Seq<char>),
    IntValue(i64),
}

impl TokenView {
    /// Whether this is the token of a flag of the given type.
    pub open spec fn is_flag(self, arg_type: ArgumentType) -> bool {
        match self {
            TokenView::Argument(declared, _) => declared == arg_type,
            _ => false,
        }
    }
}

impl View for Token {
    type V = TokenView;

    open spec fn view(&self) -> TokenView {
        match *self {
            Token::AppName => TokenView::AppName,
            Token::Argument(arg_type, name) => TokenView::Argument(arg_type, name@),
            Token::StrValue(text) => TokenView::StrValue(text@),
            Token::IntValue(value) => TokenView::IntValue(value),
        }
    }
}

impl Clone for Token {
    fn clone(&self) -> (copy: Token)
        ensures
            copy@ == self@,
    {
        match self {
            Token::AppName => Token::AppName,
            Token::Argument(arg_type, name) => Token::Argument(*arg_type, name.clone()),
            Token::StrValue(text) => Token::StrValue(text.clone()),
            Token::IntValue(value) => Token::IntValue(*value),
        }
    }
}

/// The views of a list of tokens, in the same order.
pub open spec fn token_views(items: Seq<Token>) -> Seq<TokenView> {
    items.map_values(|token: Token| token@)
}

} // verus!
