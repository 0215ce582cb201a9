//! The states of the tokenizer and what each one does with an argument.
use vstd::prelude::*;
use crate::schema::argument::ArgumentType;
use crate::schema::{Declarations, Schema};
use crate::token::number::{integer, parse_integer};
use crate::token::parser::{ParseError, ParserView, TokenParser};
use crate::token::{Token, TokenView};

verus! {

/// The state of the tokenizer: what it takes the next argument to be.
#[derive(Debug, PartialEq, Eq, Clone, Copy, Structural)]
pub enum ParserStrategy {
    /// Nothing has been read: the next argument is the program's name.
    Init,
    /// The next argument is a flag.
    ExpectFlag,
    /// The next argument is the value of a string flag.
    ExpectStr,
    /// The next argument is the value of an integer flag.
    ExpectInt,
}

/// `dyn_clone::clone_box`: a new box that holds a clone of the strategy,
/// which for this plain enum is the strategy itself.
#[verifier::external_body]
pub(crate) fn clone_strategy(strategy: &ParserStrategy) -> (copy: Box<ParserStrategy>)
    ensures
        *copy == *strategy,
{
    dyn_clone::clone_box(strategy)
}

/// The flag that an argument denotes: a dash followed by exactly one
/// character denotes the flag named by that character.
pub open spec fn flag_char(arg: Seq<char>) -> Option<char> {
    if arg.len() == 2 && arg[0] == '-' {
        Some(arg[1])
    } else {
        None
    }
}

/// The type that the schema declares for the flag that an argument denotes.
pub open spec fn flag_type(schema: Declarations, arg: Seq<char>) -> Option<ArgumentType> {
    match flag_char(arg) {
        Some(c) => Schema::lookup(schema, c),
        None => None,
    }
}

impl ParserStrategy {
    /// The state that follows a flag of the given type.
    pub open spec fn after_flag(arg_type: ArgumentType) -> ParserStrategy {
        match arg_type {
            ArgumentType::Bool => ParserStrategy::ExpectFlag,
            ArgumentType::Str => ParserStrategy::ExpectStr,
            ArgumentType::Int => ParserStrategy::ExpectInt,
        }
    }

    /// One transition of the machine: from this state and the argument at
    /// `position`, the next state and the token emitted, or the reason why
    /// the argument is rejected.
    pub open spec fn step(self, schema: Declarations, arg: Seq<char>, position: nat) -> Result<
        (ParserStrategy, TokenView),
        ParseError,
    > {
        match self {
            ParserStrategy::Init => Ok((ParserStrategy::ExpectFlag, TokenView::AppName)),
            ParserStrategy::ExpectFlag => match flag_type(schema, arg) {
                Some(arg_type) => Ok(
                    (Self::after_flag(arg_type), TokenView::Argument(arg_type, arg.skip(1))),
                ),
                None => Err(ParseError::UnrecognizedFlag(position as usize)),
            },
            ParserStrategy::ExpectStr => Ok((ParserStrategy::ExpectFlag, TokenView::StrValue(arg))),
            ParserStrategy::ExpectInt => match integer(arg) {
                Some(value) => Ok((ParserStrategy::ExpectFlag, TokenView::IntValue(value))),
                None => Err(ParseError::InvalidInteger(position as usize)),
            },
        }
    }

    /// Whether this state accepts the argument: a state that expects a
    /// flag accepts the flags that the schema declares, a state that
    /// expects an integer accepts the text of an integer, and the other two
    /// accept every argument.
    pub open spec fn permits(self, schema: Declarations, arg: Seq<char>) -> bool {
        match self {
            ParserStrategy::Init | ParserStrategy::ExpectStr => true,
            ParserStrategy::ExpectFlag => flag_type(schema, arg) is Some,
            ParserStrategy::ExpectInt => integer(arg) is Some,
        }
    }

    /// The declarations of an optional schema; none where there is no schema.
    pub open spec fn declarations_of(schema: Option<&Schema>) -> Declarations {
        match schema {
            Some(schema) => schema@,
            None => Map::empty(),
        }
    }

    /// One transition of the machine on the argument at `position`.
    pub fn transition(&self, arg: &str, position: usize, schema: Option<&Schema>) -> (outcome:
        Result<(ParserStrategy, Token), ParseError>)
        ensures
            outcome is Ok <==> self.permits(Self::declarations_of(schema), arg@),
            match outcome {
                Ok((next, token)) => self.step(
                    Self::declarations_of(schema),
                    arg@,
                    position as nat,
                ) == Ok::<(ParserStrategy, TokenView), ParseError>((next, token@)),
                Err(error) => self.step(Self::declarations_of(schema), arg@, position as nat)
                    == Err::<(ParserStrategy, TokenView), ParseError>(error),
            },
    {
        match self {
            ParserStrategy::Init => Ok((ParserStrategy::ExpectFlag, Token::AppName)),
            ParserStrategy::ExpectFlag => {
                if arg.unicode_len() != 2 || arg.get_char(0) != '-' {
                    return Err(ParseError::UnrecognizedFlag(position));
                }
                let declared = match schema {
                    Some(schema) => schema.get(arg.get_char(1)),
                    None => None,
                };
                match declared {
                    Some(arg_type) => {
                        let name = String::from_str(arg.substring_char(1, 2));
                        let next = match arg_type {
                            ArgumentType::Bool => ParserStrategy::ExpectFlag,
                            ArgumentType::Str => ParserStrategy::ExpectStr,
                            ArgumentType::Int => ParserStrategy::ExpectInt,
                        };
                        Ok((next, Token::Argument(arg_type, name)))
                    },
                    None => Err(ParseError::UnrecognizedFlag(position)),
                }
            },
            ParserStrategy::ExpectStr => Ok(
                (ParserStrategy::ExpectFlag, Token::StrValue(String::from_str(arg))),
            ),
            ParserStrategy::ExpectInt => match parse_integer(arg) {
                Some(value) => Ok((ParserStrategy::ExpectFlag, Token::IntValue(value))),
                None => Err(ParseError::InvalidInteger(position)),
            },
        }
    }

    /// Handles the tokenizer's current argument in this state: emits the
    /// token and puts the tokenizer into the next state. The argument has to
    /// be one that this state accepts.
    pub fn parse(&self, parser: TokenParser) -> (parsed: TokenParser)
        requires
            !parser@.done(),
            self.permits(parser@.declarations(), parser@.args[parser@.index as int]),
        ensures
            Ok::<ParserView, ParseError>(parsed@) == parser@.parsed_by(*self),
    {
        let mut parser = parser;
        let step = self.transition(parser.current_arg(), parser.index, parser.schema.as_ref());
        if let Ok((next, token)) = step {
            parser.tokens.add(token);
            parser.set_strategy(Box::new(next));
        }
        parser
    }
}

impl Default for ParserStrategy {
    fn default() -> (strategy: ParserStrategy)
        ensures
            strategy == ParserStrategy::Init,
    {
        ParserStrategy::Init
    }
}

} // verus!
