//! The tokenizer and the builder fit: every token stream that the tokenizer
//! gives can be built from.
use vstd::prelude::*;
use crate::collection::{CollectionView, Pending};
use crate::schema::argument::ArgumentType;
use crate::schema::Declarations;
use crate::token::parser::strategy::ParserStrategy;
use crate::token::parser::ParserView;
use crate::token::tokens::TokensView;
use crate::token::TokenView;

verus! {

/// Whether the token at `position` stands where it may among the tokens
/// from `from` up to `upto`: the token of a flag that takes a value right
/// before a value of its type, a value right after the token of a flag of
/// its type, and no value after a program name or a boolean flag.
pub open spec fn stands_well(items: Seq<TokenView>, from: nat, upto: nat, position: int) -> bool {
    match items[position] {
        TokenView::Argument(ArgumentType::Int, _) => position + 1 < upto && items[position + 1]
            is IntValue,
        TokenView::Argument(ArgumentType::Str, _) => position + 1 < upto && items[position + 1]
            is StrValue,
        TokenView::Argument(ArgumentType::Bool, _) | TokenView::AppName => position + 1 < upto
            ==> items[position + 1] is Argument || items[position + 1] is AppName,
        TokenView::IntValue(_) => from < position && items[position - 1].is_flag(
            ArgumentType::Int,
        ),
        TokenView::StrValue(_) => from < position && items[position - 1].is_flag(
            ArgumentType::Str,
        ),
    }
}

/// Whether every token from `from` up to `upto` stands where it may.
pub open spec fn all_stand_well(items: Seq<TokenView>, from: nat, upto: nat) -> bool {
    forall|j: int| from <= j < upto ==> stands_well(items, from, upto, j)
}

/// Tokens are well paired exactly when each of them stands where it may.
pub proof fn lemma_well_paired_iff_all_stand_well(items: Seq<TokenView>, from: nat, upto: nat)
    requires
        upto <= items.len(),
    ensures
        CollectionView::well_paired(items, from, upto) <==> all_stand_well(items, from, upto),
    decreases upto,
{
    if upto > from {
        let last = upto - 1;
        lemma_well_paired_iff_all_stand_well(items, from, last as nat);
        if upto >= from + 2 {
            lemma_well_paired_iff_all_stand_well(items, from, (upto - 2) as nat);
        }
        let kept = if items[last] is IntValue || items[last] is StrValue {
            (upto - 2) as nat
        } else {
            last as nat
        };
        if CollectionView::well_paired(items, from, upto) {
            assert forall|j: int| from <= j < upto implies stands_well(items, from, upto, j) by {
                if j < kept {
                    assert(stands_well(items, from, kept, j));
                }
            }
        }
        if all_stand_well(items, from, upto) {
            assert(stands_well(items, from, upto, last));
            assert forall|j: int| from <= j < kept implies stands_well(items, from, kept, j) by {
                assert(stands_well(items, from, upto, j));
            }
        }
    }
}

/// The builder reads tokens without fault, and ends waiting for a flag,
/// exactly when they are well paired; it ends waiting for a value exactly
/// when they are well paired up to a last token that is a flag of the
/// value's type.
pub proof fn lemma_scan_follows_pairing(
    items: Seq<TokenView>,
    from: nat,
    upto: nat,
    schema: Declarations,
)
    ensures
        CollectionView::scanned(items, from, upto, schema) matches Ok((_, Pending::Flag))
            <==> CollectionView::well_paired(items, from, upto),
        CollectionView::scanned(items, from, upto, schema) matches Ok((_, Pending::Int(_))) <==> {
            &&& from < upto
            &&& items[upto - 1].is_flag(ArgumentType::Int)
            &&& CollectionView::well_paired(items, from, (upto - 1) as nat)
        },
        CollectionView::scanned(items, from, upto, schema) matches Ok((_, Pending::Str(_))) <==> {
            &&& from < upto
            &&& items[upto - 1].is_flag(ArgumentType::Str)
            &&& CollectionView::well_paired(items, from, (upto - 1) as nat)
        },
    decreases upto,
{
    if upto > from {
        lemma_scan_follows_pairing(items, from, (upto - 1) as nat, schema);
    }
}

/// A collection can be built from exactly the buildable token streams.
pub proof fn lemma_builds_iff_buildable(tokens: TokensView)
    ensures
        CollectionView::built(tokens) is Ok <==> CollectionView::buildable(tokens),
{
    if tokens.schema is Some {
        lemma_scan_follows_pairing(
            tokens.items,
            tokens.index,
            tokens.items.len(),
            tokens.schema->0,
        );
    }
}

/// Whether the builder, after the tokens emitted so far, waits for what the
/// tokenizer is about to emit.
pub open spec fn awaits(strategy: ParserStrategy, pending: Pending) -> bool {
    match strategy {
        ParserStrategy::Init | ParserStrategy::ExpectFlag => pending is Flag,
        ParserStrategy::ExpectInt => pending is Int,
        ParserStrategy::ExpectStr => pending is Str,
    }
}

/// Whether the tokens that a tokenizer has emitted so far can be read by the
/// builder, and leave it waiting for what the tokenizer is about to emit.
pub open spec fn in_step(parser: ParserView, schema: Declarations) -> bool {
    &&& parser.tokens.index <= parser.tokens.items.len()
    &&& match CollectionView::scanned(
        parser.tokens.items,
        parser.tokens.index,
        parser.tokens.items.len(),
        schema,
    ) {
        Ok((_, pending)) => awaits(parser.strategy, pending),
        Err(_) => false,
    }
}

/// What the builder makes of the first tokens does not depend on the tokens
/// that follow them.
pub proof fn lemma_scan_ignores_rest(
    items: Seq<TokenView>,
    token: TokenView,
    from: nat,
    upto: nat,
    schema: Declarations,
)
    requires
        upto <= items.len(),
    ensures
        CollectionView::scanned(items.push(token), from, upto, schema) == CollectionView::scanned(
            items,
            from,
            upto,
            schema,
        ),
    decreases upto,
{
    if upto > from {
        lemma_scan_ignores_rest(items, token, from, (upto - 1) as nat, schema);
    }
}

/// The tokenizer and the builder stay in step over one argument.
pub proof fn lemma_step_keeps_in_step(parser: ParserView, schema: Declarations)
    requires
        in_step(parser, schema),
        !parser.done(),
        parser.advanced() is Ok,
    ensures
        in_step(parser.advanced()->Ok_0, schema),
{
    let next = parser.advanced()->Ok_0;
    let items = parser.tokens.items;
    let token = next.tokens.items.last();
    lemma_scan_ignores_rest(items, token, parser.tokens.index, items.len(), schema);
}

/// The tokenizer and the builder stay in step to the end of the arguments,
/// and the tokenizer leaves the cursor and the schemas as they were.
pub proof fn lemma_run_keeps_in_step(parser: ParserView, schema: Declarations)
    requires
        in_step(parser, schema),
        parser.run() is Ok,
    ensures
        in_step(parser.run()->Ok_0, schema),
        parser.run()->Ok_0.schema == parser.schema,
        parser.run()->Ok_0.tokens.schema == parser.tokens.schema,
        parser.run()->Ok_0.tokens.index == parser.tokens.index,
    decreases parser.args.len() - parser.index,
{
    if !parser.done() {
        lemma_step_keeps_in_step(parser, schema);
        lemma_run_keeps_in_step(parser.advanced()->Ok_0, schema);
    }
}

/// The builder keeps the schema it was given.
pub proof fn lemma_scan_keeps_schema(
    items: Seq<TokenView>,
    from: nat,
    upto: nat,
    schema: Declarations,
)
    ensures
        CollectionView::scanned(items, from, upto, schema) matches Ok((collection, _))
            ==> collection.schema == schema,
    decreases upto,
{
    if upto > from {
        lemma_scan_keeps_schema(items, from, (upto - 1) as nat, schema);
    }
}

/// Every token stream that the tokenizer gives can be built from: every
/// token in it stands where it may. The collection built from it carries
/// the schema that the arguments were read against.
pub proof fn lemma_tokenized_builds(schema: Declarations, args: Seq<Seq<char>>)
    requires
        ParserView::tokenized(schema, args) is Ok,
    ensures
        CollectionView::buildable(ParserView::tokenized(schema, args)->Ok_0),
        all_stand_well(
            ParserView::tokenized(schema, args)->Ok_0.items,
            0,
            ParserView::tokenized(schema, args)->Ok_0.items.len(),
        ),
        CollectionView::built(ParserView::tokenized(schema, args)->Ok_0) is Ok,
        CollectionView::parsed(schema, args) is Ok,
        CollectionView::parsed(schema, args)->Ok_0.schema == schema,
{
    lemma_run_keeps_in_step(ParserView::ready(schema, args), schema);
    let tokens = ParserView::tokenized(schema, args)->Ok_0;
    lemma_scan_keeps_schema(tokens.items, tokens.index, tokens.items.len(), schema);
    lemma_builds_iff_buildable(tokens);
    lemma_well_paired_iff_all_stand_well(tokens.items, 0, tokens.items.len());
}

} // verus!
