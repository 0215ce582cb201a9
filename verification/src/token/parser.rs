//! The tokenizer: a small state machine that walks the raw arguments and
//! emits a token for each, consulting the schema for the type of each flag.
use vstd::prelude::*;
use crate::guarantees::acceptance::lemma_collects_iff_acceptable;
use crate::schema::argument::ArgumentType;
use crate::schema::{Declarations, Schema};
use crate::token::number::integer;
use crate::token::parser::strategy::{clone_strategy, flag_type, ParserStrategy};
use crate::token::tokens::{Tokens, TokensView};
use crate::token::Token;

pub mod strategy;

verus! {

/// Why a list of raw arguments cannot be tokenized.
#[derive(Debug, PartialEq, Eq, Clone, Copy, Structural)]
pub enum ParseError {
    /// The argument at this position stands where a flag is expected and is
    /// not a dash followed by one character that the schema declares.
    UnrecognizedFlag(usize),
    /// The argument at this position stands where an integer is expected and
    /// is not a decimal integer of 64 bits.
    InvalidInteger(usize),
    /// The arguments end where the value of an integer flag is expected.
    MissingInteger,
    /// The arguments end where the value of a string flag is expected.
    MissingString,
}

impl ParseError {
    /// What to tell the user about this error.
    pub open spec fn message_text(self) -> Seq<char> {
        match self {
            ParseError::UnrecognizedFlag(_) => "unrecognized flag"@,
            ParseError::InvalidInteger(_) => "valid number expected"@,
            ParseError::MissingInteger => "unexpected end of arguments, integer expected"@,
            ParseError::MissingString => "unexpected end of arguments, string expected"@,
        }
    }

    /// What to tell the user about this error.
    pub fn message(&self) -> (text: &'static str)
        ensures
            text@ == self.message_text(),
    {
        match self {
            ParseError::UnrecognizedFlag(_) => "unrecognized flag",
            ParseError::InvalidInteger(_) => "valid number expected",
            ParseError::MissingInteger => "unexpected end of arguments, integer expected",
            ParseError::MissingString => "unexpected end of arguments, string expected",
        }
    }
}

/// The raw arguments as text, in the same order.
pub open spec fn texts(args: Seq<&str>) -> Seq<Seq<char>> {
    args.map_values(|arg: &str| arg@)
}

/// Owned raw arguments as text, in the same order.
pub open spec fn owned_texts(args: Seq<String>) -> Seq<Seq<char>> {
    args.map_values(|arg: String| arg@)
}

/// Whether position `to` is one where a flag is expected, given that
/// position `from` is one: the arguments between the two are declared flags,
/// each with the value that its type asks for.
pub open spec fn flag_position(schema: Declarations, args: Seq<Seq<char>>, from: nat, to: nat)
    -> bool
    decreases to - from,
{
    if from >= to {
        from == to && to <= args.len()
    } else if to > args.len() {
        false
    } else {
        match flag_type(schema, args[from as int]) {
            Some(ArgumentType::Bool) => flag_position(schema, args, from + 1, to),
            Some(ArgumentType::Str) => from + 2 <= to && flag_position(
                schema,
                args,
                from + 2,
                to,
            ),
            Some(ArgumentType::Int) => from + 2 <= to && integer(args[(from + 1) as int]) is Some
                && flag_position(schema, args, from + 2, to),
            None => false,
        }
    }
}

/// Whether the arguments are a program name followed by declared flags, each
/// with the value that its type asks for, and every integer value a valid
/// one. An empty list is well formed too.
pub open spec fn well_formed(schema: Declarations, args: Seq<Seq<char>>) -> bool {
    args.len() == 0 || flag_position(schema, args, 1, args.len())
}

/// The tokenizer: the raw arguments, the position of the next one to read,
/// the schema, the state of the machine, and the tokens emitted so far.
pub struct TokenParser {
    args: Vec<String>,
    index: usize,
    schema: Option<Schema>,
    strategy: Box<ParserStrategy>,
    tokens: Tokens,
}

/// What a tokenizer is in contracts.
pub struct ParserView {
    /// The raw arguments.
    pub args: Seq<Seq<char>>,
    /// The position of the next argument to read.
    pub index: nat,
    /// The declarations of the schema, if one was given.
    pub schema: Option<Declarations>,
    /// The state of the machine.
    pub strategy: ParserStrategy,
    /// The tokens emitted so far.
    pub tokens: TokensView,
}

impl View for TokenParser {
    type V = ParserView;

    closed spec fn view(&self) -> ParserView {
        ParserView {
            args: owned_texts(self.args@),
            index: self.index as nat,
            schema: match self.schema {
                Some(schema) => Some(schema@),
                None => None,
            },
            strategy: *self.strategy,
            tokens: self.tokens@,
        }
    }
}

impl ParserView {
    /// A tokenizer that has read nothing: no arguments, no schema, the
    /// machine in its first state, no tokens.
    pub open spec fn initial() -> ParserView {
        ParserView {
            args: Seq::empty(),
            index: 0,
            schema: None,
            strategy: ParserStrategy::Init,
            tokens: TokensView { items: Seq::empty(), schema: None, index: 0 },
        }
    }

    /// A tokenizer about to read `args` against `schema`.
    pub open spec fn ready(schema: Declarations, args: Seq<Seq<char>>) -> ParserView {
        ParserView { args, schema: Some(schema), ..Self::initial() }
    }

    /// The token stream that tokenizing `args` against `schema` gives, or the
    /// reason why they cannot be tokenized.
    pub open spec fn tokenized(schema: Declarations, args: Seq<Seq<char>>) -> Result<
        TokensView,
        ParseError,
    > {
        Self::ready(schema, args).collected()
    }

    /// Whether every argument has been read.
    pub open spec fn done(self) -> bool {
        self.index >= self.args.len()
    }

    /// The declarations that flags are looked up in: those of the schema, or
    /// none where no schema was given.
    pub open spec fn declarations(self) -> Declarations {
        match self.schema {
            Some(declarations) => declarations,
            None => Map::empty(),
        }
    }

    /// Whether the tokenizer can tokenize the rest of its arguments: the
    /// current argument is one that the machine accepts in its state, the
    /// arguments after it are declared flags, each with the value that its
    /// type asks for, and at the end of the arguments no value is missing.
    pub open spec fn acceptable(self) -> bool {
        let rest = if self.strategy == ParserStrategy::ExpectFlag {
            self.index
        } else {
            self.index + 1
        };
        if self.done() {
            self.strategy != ParserStrategy::ExpectInt && self.strategy != ParserStrategy::ExpectStr
        } else {
            &&& self.strategy.permits(self.declarations(), self.args[self.index as int])
            &&& flag_position(self.declarations(), self.args, rest, self.args.len())
        }
    }

    /// The tokenizer after `strategy` has handled the current argument: the
    /// token is appended and the machine is in its next state. The position
    /// is unchanged.
    pub open spec fn parsed_by(self, strategy: ParserStrategy) -> Result<ParserView, ParseError> {
        match strategy.step(self.declarations(), self.args[self.index as int], self.index) {
            Ok((next, token)) => Ok(
                ParserView {
                    strategy: next,
                    tokens: TokensView { items: self.tokens.items.push(token), ..self.tokens },
                    ..self
                },
            ),
            Err(error) => Err(error),
        }
    }

    /// The tokenizer after one argument: the current argument handled by the
    /// machine in its current state, and the position moved past it.
    pub open spec fn advanced(self) -> Result<ParserView, ParseError> {
        match self.parsed_by(self.strategy) {
            Ok(parsed) => Ok(ParserView { index: parsed.index + 1, ..parsed }),
            Err(error) => Err(error),
        }
    }

    /// The tokenizer after all remaining arguments, or the first error met
    /// on the way.
    pub open spec fn run(self) -> Result<ParserView, ParseError>
        decreases self.args.len() - self.index,
    {
        if self.done() {
            Ok(self)
        } else {
            match self.advanced() {
                Ok(next) => next.run(),
                Err(error) => Err(error),
            }
        }
    }

    /// The token stream that tokenizing the remaining arguments gives. The
    /// arguments must not end where a value is expected. The stream carries
    /// the tokenizer's schema if it has one.
    pub open spec fn collected(self) -> Result<TokensView, ParseError> {
        match self.run() {
            Ok(end) => match end.strategy {
                ParserStrategy::ExpectInt => Err(ParseError::MissingInteger),
                ParserStrategy::ExpectStr => Err(ParseError::MissingString),
                _ => Ok(
                    TokensView {
                        schema: if end.schema is Some {
                            end.schema
                        } else {
                            end.tokens.schema
                        },
                        ..end.tokens
                    },
                ),
            },
            Err(error) => Err(error),
        }
    }
}

impl TokenParser {
    /// A tokenizer with no arguments and no schema.
    pub fn new() -> (parser: TokenParser)
        ensures
            parser@ == ParserView::initial(),
    {
        Self::default()
    }

    /// The same tokenizer with `args` as its raw arguments.
    pub fn args(self, args: Vec<&str>) -> (parser: TokenParser)
        ensures
            parser@ == (ParserView { args: texts(args@), ..self@ }),
    {
        let mut owned: Vec<String> = Vec::new();
        let mut i: usize = 0;
        while i < args.len()
            invariant
                i <= args.len(),
                owned@.len() == i,
                forall|j: int| 0 <= j < i ==> (#[trigger] owned@[j])@ == args@[j]@,
            decreases args.len() - i,
        {
            owned.push(String::from_str(args[i]));
            i += 1;
        }
        let parser = TokenParser { args: owned, ..self };
        assert(parser@.args =~= texts(args@));
        parser
    }

    /// The same tokenizer with `schema` as its schema.
    pub fn schema(self, schema: Schema) -> (parser: TokenParser)
        ensures
            parser@ == (ParserView { schema: Some(schema@), ..self@ }),
    {
        TokenParser { schema: Some(schema), ..self }
    }

    /// Tokenizes the remaining arguments. The arguments have to be
    /// acceptable: every argument in flag position a declared flag, every
    /// integer value a valid integer, and no value missing at the end.
    pub fn collect(self) -> (tokens: Tokens)
        requires
            self@.acceptable(),
        ensures
            Ok::<TokensView, ParseError>(tokens@) == self@.collected(),
    {
        proof {
            lemma_collects_iff_acceptable(self@);
        }
        let mut parser = self;
        while !parser.is_done()
            invariant
                parser@.run() == self@.run(),
                self@.collected() is Ok,
            decreases parser@.args.len() - parser@.index,
        {
            parser = parser.parse_current();
            parser.next();
        }
        if parser.schema.is_some() {
            parser.tokens.schema_set(parser.schema.unwrap());
        }
        parser.tokens
    }

    /// Tokenizes the remaining arguments, or says why they cannot be
    /// tokenized: the first error met from left to right.
    pub fn try_collect(self) -> (outcome: Result<Tokens, ParseError>)
        ensures
            outcome is Ok <==> self@.acceptable(),
            match outcome {
                Ok(tokens) => self@.collected() == Ok::<TokensView, ParseError>(tokens@),
                Err(error) => self@.collected() == Err::<TokensView, ParseError>(error),
            },
    {
        proof {
            lemma_collects_iff_acceptable(self@);
        }
        let mut parser = self;
        while !parser.is_done()
            invariant
                parser@.run() == self@.run(),
                self@.collected() is Ok <==> self@.acceptable(),
            decreases parser@.args.len() - parser@.index,
        {
            let step = parser.strategy.transition(
                parser.current_arg(),
                parser.index,
                parser.schema.as_ref(),
            );
            match step {
                Ok((next, token)) => {
                    parser.tokens.add(token);
                    parser.set_strategy(Box::new(next));
                    parser.next();
                },
                Err(error) => {
                    return Err(error);
                },
            }
        }
        match *parser.strategy {
            ParserStrategy::ExpectInt => {
                return Err(ParseError::MissingInteger);
            },
            ParserStrategy::ExpectStr => {
                return Err(ParseError::MissingString);
            },
            _ => {},
        }
        if parser.schema.is_some() {
            parser.tokens.schema_set(parser.schema.unwrap());
        }
        Ok(parser.tokens)
    }

    /// Puts the machine into the given state.
    pub fn set_strategy(&mut self, strategy: Box<ParserStrategy>)
        ensures
            final(self)@ == (ParserView { strategy: *strategy, ..old(self)@ }),
    {
        self.strategy = strategy;
    }

    fn is_done(&self) -> (done: bool)
        ensures
            done == self@.done(),
    {
        self.index >= self.args.len()
    }

    fn parse_current(self) -> (parsed: TokenParser)
        requires
            !self@.done(),
            self@.strategy.permits(self@.declarations(), self@.args[self@.index as int]),
        ensures
            Ok::<ParserView, ParseError>(parsed@) == self@.parsed_by(self@.strategy),
    {
        let strategy = clone_strategy(&self.strategy);
        strategy.parse(self)
    }

    fn next(&mut self)
        requires
            !old(self)@.done(),
        ensures
            final(self)@ == (ParserView { index: old(self)@.index + 1, ..old(self)@ }),
    {
        assert(self.index < self.args.len());
        self.index += 1;
    }

    fn current_arg(&self) -> (arg: &str)
        requires
            !self@.done(),
        ensures
            arg@ == self@.args[self@.index as int],
    {
        self.args[self.index].as_str()
    }
}

impl Default for TokenParser {
    fn default() -> (parser: TokenParser)
        ensures
            parser@ == ParserView::initial(),
    {
        let parser = TokenParser {
            args: Vec::new(),
            index: 0,
            schema: None,
            strategy: Box::new(ParserStrategy::default()),
            tokens: Tokens::default(),
        };
        assert(parser@.args =~= Seq::empty());
        parser
    }
}

} // verus!
