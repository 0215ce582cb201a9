//! The token stream: tokens in order, the schema they were read against, and
//! a cursor for one pass over them.
use vstd::prelude::*;
use crate::schema::{Declarations, Schema};
use crate::token::{token_views, Token, TokenView};

verus! {

/// An ordered stream of tokens with a cursor. Tokens are only ever appended,
/// and the cursor only ever moves forward.
pub struct Tokens {
    items: Vec<Token>,
    schema: Option<Schema>,
    index: usize,
}

/// What a token stream is in contracts.
pub struct TokensView {
    /// The tokens, first to last.
    pub items: Seq<TokenView>,
    /// The declarations of the schema that travels with the stream.
    pub schema: Option<Declarations>,
    /// The position of the cursor.
    pub index: nat,
}

impl View for Tokens {
    type V = TokensView;

    closed spec fn view(&self) -> TokensView {
        TokensView {
            items: token_views(self.items@),
            schema: match self.schema {
                Some(schema) => Some(schema@),
                None => None,
            },
            index: self.index as nat,
        }
    }
}

impl TokensView {
    /// The token under the cursor, if the cursor has not passed the end.
    pub open spec fn current(self) -> Option<TokenView> {
        if self.index < self.items.len() {
            Some(self.items[self.index as int])
        } else {
            None
        }
    }
}

impl Tokens {
    /// An empty stream that carries `schema`.
    pub fn new(schema: Schema) -> (tokens: Tokens)
        ensures
            tokens@ == (TokensView { items: Seq::empty(), schema: Some(schema@), index: 0 }),
    {
        let tokens = Tokens { schema: Some(schema), items: Vec::new(), index: 0 };
        assert(tokens@.items =~= Seq::empty());
        tokens
    }

    /// Appends a token.
    pub fn add(&mut self, token: Token)
        ensures
            final(self)@ == (TokensView { items: old(self)@.items.push(token@), ..old(self)@ }),
    {
        self.items.push(token);
        assert(self@.items =~= old(self)@.items.push(token@));
    }

    /// The number of tokens.
    pub fn size(&self) -> (size: usize)
        ensures
            size == self@.items.len(),
    {
        self.items.len()
    }

    /// The token at `index`.
    pub fn get(&self, index: usize) -> (token: &Token)
        requires
            index < self@.items.len(),
        ensures
            token@ == self@.items[index as int],
    {
        &self.items[index]
    }

    /// The schema that travels with the stream, if one was set.
    pub fn schema(&self) -> (schema: Option<&Schema>)
        ensures
            schema is Some == self@.schema is Some,
            schema matches Some(s) ==> self@.schema == Some(s@),
    {
        self.schema.as_ref()
    }

    /// The position of the cursor.
    pub fn position(&self) -> (position: usize)
        ensures
            position == self@.index,
    {
        self.index
    }

    /// Gives up the stream and hands out the schema that travelled with it.
    pub fn into_schema(self) -> (schema: Option<Schema>)
        ensures
            schema is Some == self@.schema is Some,
            schema matches Some(s) ==> self@.schema == Some(s@),
    {
        self.schema
    }

    /// Sets the schema that travels with the stream.
    pub fn schema_set(&mut self, schema: Schema)
        ensures
            final(self)@ == (TokensView { schema: Some(schema@), ..old(self)@ }),
    {
        self.schema = Some(schema);
    }

    /// The token under the cursor, or `None` once the cursor has passed the
    /// last token.
    pub fn current(&self) -> (token: Option<&Token>)
        ensures
            token is Some == self@.current() is Some,
            token matches Some(t) ==> self@.current() == Some(t@),
    {
        if self.index < self.items.len() {
            Some(&self.items[self.index])
        } else {
            None
        }
    }

    /// Moves the cursor to the next token. A cursor that has passed the
    /// last token stays where it is.
    pub fn next(&mut self)
        ensures
            final(self)@ == (TokensView {
                index: if old(self)@.index < old(self)@.items.len() {
                    old(self)@.index + 1
                } else {
                    old(self)@.index
                },
                ..old(self)@
            }),
    {
        if self.index < self.items.len() {
            self.index += 1;
        }
    }
}

impl Default for Tokens {
    fn default() -> (tokens: Tokens)
        ensures
            tokens@ == (TokensView { items: Seq::empty(), schema: None, index: 0 }),
    {
        let tokens = Tokens { items: Vec::new(), schema: None, index: 0 };
        assert(tokens@.items =~= Seq::empty());
        tokens
    }
}

} // verus!
