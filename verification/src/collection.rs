//! The collection: the values of the flags, by name and type, built from a
//! token stream and read through typed lookups.
use vstd::prelude::*;
use vstd::hash_map::StringHashMap;
use crate::guarantees::contents::lemma_parsed_is_consistent;
use crate::guarantees::pairing::{lemma_builds_iff_buildable, lemma_tokenized_builds};
use crate::schema::argument::ArgumentType;
use crate::schema::{Declarations, Schema};
use crate::token::parser::{texts, well_formed, ParseError, ParserView, TokenParser};
use crate::token::tokens::{Tokens, TokensView};
use crate::token::{Token, TokenView};

verus! {

/// What the builder expects at a position of the token stream.
#[derive(Debug, PartialEq, Eq, Clone, Copy, Structural)]
pub enum Expected {
    /// The program name or a flag.
    Flag,
    /// The value of an integer flag.
    Integer,
    /// The value of a string flag.
    String,
}

/// Why a token stream cannot be made into a collection.
#[derive(Debug, PartialEq)]
pub enum BuildError {
    /// The stream carries no schema.
    MissingSchema,
    /// The token at this position is not of the expected kind.
    UnexpectedToken(usize, Token, Expected),
    /// The stream ends where the value of a flag is expected.
    UnexpectedEnd(Expected),
}

/// What a build error is in contracts.
pub enum BuildErrorView {
    MissingSchema,
    UnexpectedToken(usize, TokenView, Expected),
    UnexpectedEnd(Expected),
}

impl View for BuildError {
    type V = BuildErrorView;

    open spec fn view(&self) -> BuildErrorView {
        match *self {
            BuildError::MissingSchema => BuildErrorView::MissingSchema,
            BuildError::UnexpectedToken(position, found, expected) => {
                BuildErrorView::UnexpectedToken(position, found@, expected)
            },
            BuildError::UnexpectedEnd(expected) => BuildErrorView::UnexpectedEnd(expected),
        }
    }
}

impl BuildError {
    /// What to tell the user about this error.
    pub open spec fn message_text(self) -> Seq<char> {
        match self {
            BuildError::MissingSchema => "schema expected"@,
            BuildError::UnexpectedToken(_, _, Expected::Flag) => "unexpected token, flag expected"@,
            BuildError::UnexpectedToken(_, _, Expected::Integer) => {
                "unexpected token, integer expected"@
            },
            BuildError::UnexpectedToken(_, _, Expected::String) => {
                "unexpected token, string expected"@
            },
            BuildError::UnexpectedEnd(Expected::Flag) => "unexpected end of tokens, flag expected"@,
            BuildError::UnexpectedEnd(Expected::Integer) => {
                "unexpected end of tokens, integer expected"@
            },
            BuildError::UnexpectedEnd(Expected::String) => {
                "unexpected end of tokens, string expected"@
            },
        }
    }

    /// What to tell the user about this error.
    pub fn message(&self) -> (text: &'static str)
        ensures
            text@ == self.message_text(),
    {
        match self {
            BuildError::MissingSchema => "schema expected",
            BuildError::UnexpectedToken(_, _, Expected::Flag) => "unexpected token, flag expected",
            BuildError::UnexpectedToken(_, _, Expected::Integer) => {
                "unexpected token, integer expected"
            },
            BuildError::UnexpectedToken(_, _, Expected::String) => {
                "unexpected token, string expected"
            },
            BuildError::UnexpectedEnd(Expected::Flag) => "unexpected end of tokens, flag expected",
            BuildError::UnexpectedEnd(Expected::Integer) => {
                "unexpected end of tokens, integer expected"
            },
            BuildError::UnexpectedEnd(Expected::String) => {
                "unexpected end of tokens, string expected"
            },
        }
    }
}

/// The values of the flags that were given, by name, one map for each type,
/// beside the schema they were read against.
pub struct Collection {
    schema: Schema,
    ints: StringHashMap<i64>,
    strings: StringHashMap<String>,
    bools: StringHashMap<bool>,
}

/// What a collection is in contracts.
pub struct CollectionView {
    /// The declarations of the schema.
    pub schema: Declarations,
    /// The values of the integer flags that were given.
    pub ints: Map<Seq<char>, i64>,
    /// The values of the string flags that were given.
    pub strings: Map<Seq<char>, Seq<char>>,
    /// The boolean flags that were given.
    pub bools: Map<Seq<char>, bool>,
}

/// What the builder is waiting for between two tokens: a flag, or the value
/// of the flag it has just read.
pub enum Pending {
    Flag,
    Int(Seq<char>),
    Str(Seq<char>),
}

impl View for Collection {
    type V = CollectionView;

    closed spec fn view(&self) -> CollectionView {
        CollectionView {
            schema: self.schema@,
            ints: self.ints@,
            strings: self.strings@.map_values(|text: String| text@),
            bools: self.bools@,
        }
    }
}

impl CollectionView {
    /// The collection that holds no value yet.
    pub open spec fn empty(schema: Declarations) -> CollectionView {
        CollectionView { schema, ints: Map::empty(), strings: Map::empty(), bools: Map::empty() }
    }

    /// The collection and what is awaited after the token at `position` has
    /// been read, or the reason why the token cannot stand there.
    pub open spec fn absorbed(self, pending: Pending, token: TokenView, position: nat) -> Result<
        (CollectionView, Pending),
        BuildErrorView,
    > {
        match pending {
            Pending::Flag => match token {
                TokenView::AppName => Ok((self, Pending::Flag)),
                TokenView::Argument(ArgumentType::Bool, name) => Ok(
                    (CollectionView { bools: self.bools.insert(name, true), ..self }, Pending::Flag),
                ),
                TokenView::Argument(ArgumentType::Int, name) => Ok((self, Pending::Int(name))),
                TokenView::Argument(ArgumentType::Str, name) => Ok((self, Pending::Str(name))),
                _ => Err(BuildErrorView::UnexpectedToken(position as usize, token, Expected::Flag)),
            },
            Pending::Int(name) => match token {
                TokenView::IntValue(value) => Ok(
                    (CollectionView { ints: self.ints.insert(name, value), ..self }, Pending::Flag),
                ),
                _ => Err(
                    BuildErrorView::UnexpectedToken(position as usize, token, Expected::Integer),
                ),
            },
            Pending::Str(name) => match token {
                TokenView::StrValue(text) => Ok(
                    (
                        CollectionView { strings: self.strings.insert(name, text), ..self },
                        Pending::Flag,
                    ),
                ),
                _ => Err(
                    BuildErrorView::UnexpectedToken(position as usize, token, Expected::String),
                ),
            },
        }
    }

    /// The collection and what is awaited after the tokens from position
    /// `from` up to, not including, position `upto` have been read in order.
    pub open spec fn scanned(items: Seq<TokenView>, from: nat, upto: nat, schema: Declarations)
        -> Result<(CollectionView, Pending), BuildErrorView>
        decreases upto,
    {
        if upto <= from {
            Ok((Self::empty(schema), Pending::Flag))
        } else {
            match Self::scanned(items, from, (upto - 1) as nat, schema) {
                Ok((collection, pending)) => collection.absorbed(
                    pending,
                    items[upto - 1],
                    (upto - 1) as nat,
                ),
                Err(error) => Err(error),
            }
        }
    }

    /// The collection that a token stream builds, read from its cursor to
    /// its end. The stream has to carry a schema, and every flag that takes
    /// a value has to be followed by a value of its type.
    pub open spec fn built(tokens: TokensView) -> Result<CollectionView, BuildErrorView> {
        match tokens.schema {
            None => Err(BuildErrorView::MissingSchema),
            Some(schema) => match Self::scanned(
                tokens.items,
                tokens.index,
                tokens.items.len(),
                schema,
            ) {
                Ok((collection, Pending::Flag)) => Ok(collection),
                Ok((_, Pending::Int(_))) => Err(BuildErrorView::UnexpectedEnd(Expected::Integer)),
                Ok((_, Pending::Str(_))) => Err(BuildErrorView::UnexpectedEnd(Expected::String)),
                Err(error) => Err(error),
            },
        }
    }

    /// Whether the tokens from position `from` up to, not including,
    /// position `upto` are made of program names, boolean flags, integer
    /// flags each followed by an integer, and string flags each followed by
    /// a string.
    pub open spec fn well_paired(items: Seq<TokenView>, from: nat, upto: nat) -> bool
        decreases upto,
    {
        if upto <= from {
            true
        } else {
            match items[upto - 1] {
                TokenView::AppName | TokenView::Argument(ArgumentType::Bool, _) => {
                    Self::well_paired(items, from, (upto - 1) as nat)
                },
                TokenView::IntValue(_) => {
                    &&& from + 2 <= upto
                    &&& items[upto - 2].is_flag(ArgumentType::Int)
                    &&& Self::well_paired(items, from, (upto - 2) as nat)
                },
                TokenView::StrValue(_) => {
                    &&& from + 2 <= upto
                    &&& items[upto - 2].is_flag(ArgumentType::Str)
                    &&& Self::well_paired(items, from, (upto - 2) as nat)
                },
                TokenView::Argument(_, _) => false,
            }
        }
    }

    /// Whether a collection can be built from the token stream: it carries
    /// a schema, and from its cursor on every flag that takes a value is
    /// followed by a value of its type, and no value stands alone.
    pub open spec fn buildable(tokens: TokensView) -> bool {
        tokens.schema is Some && Self::well_paired(
            tokens.items,
            tokens.index,
            tokens.items.len(),
        )
    }

    /// The collection that parsing `args` against `schema` gives: the
    /// arguments tokenized, and the collection built from the tokens. What
    /// the tokenizer accepts the builder accepts too, so the tokenizer's
    /// errors are the only ones.
    pub open spec fn parsed(schema: Declarations, args: Seq<Seq<char>>) -> Result<
        CollectionView,
        ParseError,
    > {
        match ParserView::tokenized(schema, args) {
            Ok(tokens) => Ok(Self::built(tokens)->Ok_0),
            Err(error) => Err(error),
        }
    }

    /// Whether the collection holds a value of the given type under `key`.
    pub open spec fn holds(self, key: Seq<char>, arg_type: ArgumentType) -> bool {
        match arg_type {
            ArgumentType::Bool => self.bools.contains_key(key),
            ArgumentType::Str => self.strings.contains_key(key),
            ArgumentType::Int => self.ints.contains_key(key),
        }
    }

    /// Whether the schema declares the flag that `key` starts with, with the
    /// given type.
    pub open spec fn declares(self, key: Seq<char>, arg_type: ArgumentType) -> bool {
        key.len() > 0 && Schema::lookup(self.schema, key[0]) == Some(arg_type)
    }

    /// Whether `key` may be looked up as a flag of the given type: the
    /// collection holds such a value under it, or the schema declares it
    /// with that type.
    pub open spec fn permits(self, key: Seq<char>, arg_type: ArgumentType) -> bool {
        self.holds(key, arg_type) || self.declares(key, arg_type)
    }

    /// Whether every value is held under the one-character name of a flag
    /// that the schema declares with the value's type.
    pub open spec fn consistent(self) -> bool {
        forall|name: Seq<char>, arg_type: ArgumentType| #[trigger]
            self.holds(name, arg_type) ==> name.len() == 1 && self.declares(name, arg_type)
    }

    /// Whether no name has values of two types.
    pub open spec fn exclusive(self) -> bool {
        forall|name: Seq<char>, one: ArgumentType, other: ArgumentType|
            #![trigger self.holds(name, one), self.holds(name, other)]
            self.holds(name, one) && self.holds(name, other) ==> one == other
    }

    /// The integer given for `key`, if one was given.
    pub open spec fn int_of(self, key: Seq<char>) -> Option<i64> {
        if self.ints.contains_key(key) {
            Some(self.ints[key])
        } else {
            None
        }
    }

    /// The string given for `key`, if one was given.
    pub open spec fn str_of(self, key: Seq<char>) -> Option<Seq<char>> {
        if self.strings.contains_key(key) {
            Some(self.strings[key])
        } else {
            None
        }
    }

    /// Whether the boolean flag `key` was given.
    pub open spec fn bool_of(self, key: Seq<char>) -> bool {
        self.bools.contains_key(key) && self.bools[key]
    }
}

/// An error met while the first tokens are read is the error of the whole
/// stream.
pub proof fn lemma_scan_error_persists(
    items: Seq<TokenView>,
    from: nat,
    upto: nat,
    end: nat,
    schema: Declarations,
)
    requires
        upto <= end,
    ensures
        CollectionView::scanned(items, from, upto, schema) is Err ==> CollectionView::scanned(
            items,
            from,
            end,
            schema,
        ) == CollectionView::scanned(items, from, upto, schema),
    decreases end - upto,
{
    if upto < end {
        lemma_scan_error_persists(items, from, upto, (end - 1) as nat, schema);
    }
}

impl Collection {
    /// Builds the collection from a token stream, reading it from its cursor
    /// to its end, or says why the stream cannot be built from: the first
    /// fault met.
    pub fn build(tokens: Tokens) -> (outcome: Result<Collection, BuildError>)
        ensures
            outcome is Ok <==> CollectionView::buildable(tokens@),
            match outcome {
                Ok(collection) => CollectionView::built(tokens@) == Ok::<
                    CollectionView,
                    BuildErrorView,
                >(collection@),
                Err(error) => CollectionView::built(tokens@) == Err::<
                    CollectionView,
                    BuildErrorView,
                >(error@),
            },
    {
        proof {
            lemma_builds_iff_buildable(tokens@);
        }
        let mut stream = tokens;
        if stream.schema().is_none() {
            return Err(BuildError::MissingSchema);
        }
        let ghost schema = tokens@.schema->0;
        let ghost items = tokens@.items;
        let ghost from = tokens@.index;
        let mut ints: StringHashMap<i64> = StringHashMap::new();
        let mut strings: StringHashMap<String> = StringHashMap::new();
        let mut bools: StringHashMap<bool> = StringHashMap::new();
        assert(strings@.map_values(|text: String| text@) =~= Map::empty());
        loop
            invariant
                tokens@ == (TokensView { items, schema: Some(schema), index: from }),
                CollectionView::built(tokens@) is Ok <==> CollectionView::buildable(tokens@),
                stream@ == (TokensView { index: stream@.index, ..tokens@ }),
                from <= stream@.index,
                stream@.index <= items.len() || stream@.index == from,
                CollectionView::scanned(items, from, stream@.index, schema) == Ok::<
                    (CollectionView, Pending),
                    BuildErrorView,
                >(
                    (
                        CollectionView {
                            schema,
                            ints: ints@,
                            strings: strings@.map_values(|text: String| text@),
                            bools: bools@,
                        },
                        Pending::Flag,
                    ),
                ),
            ensures
                stream@.index >= items.len(),
            decreases items.len() - stream@.index,
        {
            let position = stream.position();
            let current = match stream.current() {
                Some(token) => token.clone(),
                None => {
                    break ;
                },
            };
            proof {
                lemma_scan_error_persists(items, from, (position + 1) as nat, items.len(), schema);
            }
            match current {
                Token::AppName => {},
                Token::Argument(arg_type, name) => {
                    match arg_type {
                        ArgumentType::Bool => {
                            bools.insert(name, true);
                        },
                        ArgumentType::Int => {
                            stream.next();
                            let value_position = stream.position();
                            proof {
                                if position + 2 <= items.len() {
                                    lemma_scan_error_persists(
                                        items,
                                        from,
                                        (position + 2) as nat,
                                        items.len(),
                                        schema,
                                    );
                                }
                            }
                            match stream.current() {
                                Some(Token::IntValue(value)) => {
                                    ints.insert(name, *value);
                                },
                                Some(other) => {
                                    return Err(
                                        BuildError::UnexpectedToken(
                                            value_position,
                                            other.clone(),
                                            Expected::Integer,
                                        ),
                                    );
                                },
                                None => {
                                    return Err(BuildError::UnexpectedEnd(Expected::Integer));
                                },
                            }
                        },
                        ArgumentType::Str => {
                            stream.next();
                            let value_position = stream.position();
                            proof {
                                if position + 2 <= items.len() {
                                    lemma_scan_error_persists(
                                        items,
                                        from,
                                        (position + 2) as nat,
                                        items.len(),
                                        schema,
                                    );
                                }
                            }
                            match stream.current() {
                                Some(Token::StrValue(text)) => {
                                    let ghost before = strings@;
                                    strings.insert(name, text.clone());
                                    assert(strings@.map_values(|text: String| text@)
                                        =~= before.map_values(|text: String| text@).insert(
                                        name@,
                                        text@,
                                    ));
                                },
                                Some(other) => {
                                    return Err(
                                        BuildError::UnexpectedToken(
                                            value_position,
                                            other.clone(),
                                            Expected::String,
                                        ),
                                    );
                                },
                                None => {
                                    return Err(BuildError::UnexpectedEnd(Expected::String));
                                },
                            }
                        },
                    }
                },
                other => {
                    return Err(BuildError::UnexpectedToken(position, other, Expected::Flag));
                },
            }
            stream.next();
        }
        match stream.into_schema() {
            Some(schema) => Ok(Collection { schema, ints, strings, bools }),
            None => Err(BuildError::MissingSchema),
        }
    }

    /// Builds the collection from a token stream, reading it from its cursor
    /// to its end. The stream has to carry a schema, and every flag that
    /// takes a value has to be followed by a value of its type.
    pub fn from(tokens: Tokens) -> (collection: Collection)
        requires
            CollectionView::buildable(tokens@),
        ensures
            Ok::<CollectionView, BuildErrorView>(collection@) == CollectionView::built(tokens@),
    {
        match Self::build(tokens) {
            Ok(collection) => collection,
            Err(_) => unreached(),
        }
    }

    /// Parses raw arguments against a schema. The arguments have to be well
    /// formed: a program name, then flags that the schema declares, each
    /// with the value that its type asks for.
    pub fn from_args(args: Vec<&str>, schema: Schema) -> (collection: Collection)
        requires
            well_formed(schema@, texts(args@)),
        ensures
            Ok::<CollectionView, ParseError>(collection@) == CollectionView::parsed(
                schema@,
                texts(args@),
            ),
            collection@.schema == schema@,
            collection@.consistent(),
            collection@.exclusive(),
    {
        let parser = TokenParser::new().args(args).schema(schema);
        let tokens = parser.collect();
        proof {
            lemma_tokenized_builds(schema@, texts(args@));
            lemma_parsed_is_consistent(schema@, texts(args@));
        }
        Self::from(tokens)
    }

    /// Parses raw arguments against a schema, or says why the tokenizer
    /// rejects them. It rejects exactly those that are not well formed.
    pub fn try_from_args(args: Vec<&str>, schema: Schema) -> (outcome: Result<
        Collection,
        ParseError,
    >)
        ensures
            outcome is Ok <==> well_formed(schema@, texts(args@)),
            match outcome {
                Ok(collection) => CollectionView::parsed(schema@, texts(args@)) == Ok::<
                    CollectionView,
                    ParseError,
                >(collection@),
                Err(error) => CollectionView::parsed(schema@, texts(args@)) == Err::<
                    CollectionView,
                    ParseError,
                >(error),
            },
            outcome matches Ok(collection) ==> {
                &&& collection@.schema == schema@
                &&& collection@.consistent()
                &&& collection@.exclusive()
            },
    {
        let parser = TokenParser::new().args(args).schema(schema);
        match parser.try_collect() {
            Ok(tokens) => {
                proof {
                    lemma_tokenized_builds(schema@, texts(args@));
                    lemma_parsed_is_consistent(schema@, texts(args@));
                }
                Ok(Self::from(tokens))
            },
            Err(error) => Err(error),
        }
    }

    /// Whether `key` may be looked up as a flag of the given type: whether
    /// the collection holds such a value under it, or the schema declares
    /// the flag with that type.
    pub fn accepts(&self, key: &str, arg_type: ArgumentType) -> (accepted: bool)
        ensures
            accepted == self@.permits(key@, arg_type),
    {
        let held = match arg_type {
            ArgumentType::Bool => self.bools.contains_key(key),
            ArgumentType::Str => self.strings.contains_key(key),
            ArgumentType::Int => self.ints.contains_key(key),
        };
        held || (!key.is_empty() && argument_type_matches(key, &self.schema, arg_type))
    }

    /// The integer given for flag `key`, or `None` if the flag was not
    /// given. The key has to be one that may be looked up as an integer
    /// flag: see [`Collection::accepts`].
    pub fn get_int(&self, key: &str) -> (value: Option<i64>)
        requires
            self@.permits(key@, ArgumentType::Int),
        ensures
            value == self@.int_of(key@),
    {
        match self.ints.get(key) {
            Some(value) => Some(*value),
            None => None,
        }
    }

    /// The string given for flag `key`, or `None` if the flag was not given.
    /// The key has to be one that may be looked up as a string flag: see
    /// [`Collection::accepts`].
    pub fn get_str(&self, key: &str) -> (value: Option<&str>)
        requires
            self@.permits(key@, ArgumentType::Str),
        ensures
            value is Some == self@.str_of(key@) is Some,
            value matches Some(text) ==> self@.str_of(key@) == Some(text@),
    {
        match self.strings.get(key) {
            Some(text) => Some(text.as_str()),
            None => None,
        }
    }

    /// Whether the flag `key` was given. The key has to be one that may be
    /// looked up as a boolean flag: see [`Collection::accepts`].
    pub fn get_bool(&self, key: &str) -> (value: bool)
        requires
            self@.permits(key@, ArgumentType::Bool),
        ensures
            value == self@.bool_of(key@),
    {
        match self.bools.get(key) {
            Some(value) => *value,
            None => false,
        }
    }
}

/// Whether the schema declares the flag that `key` starts with, with the
/// given type.
fn argument_type_matches(key: &str, schema: &Schema, arg_type: ArgumentType) -> (matches: bool)
    requires
        key@.len() > 0,
    ensures
        matches == (Schema::lookup(schema@, key@[0]) == Some(arg_type)),
{
    if let Some(valid_key) = schema.get(key.get_char(0)) {
        if valid_key == arg_type {
            return true;
        }
    }
    false
}

} // verus!
