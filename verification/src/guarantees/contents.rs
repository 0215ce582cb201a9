//! How the collection reflects the flags that were given.
use vstd::prelude::*;
use crate::collection::{BuildErrorView, CollectionView, Pending};
use crate::guarantees::acceptance::{
    all_read_off, flag_text, lemma_accepted_iff_well_formed, lemma_flag_gives_its_tokens,
    lemma_run_reads_off, read_off,
};
use crate::guarantees::pairing::{
    lemma_run_keeps_in_step, lemma_scan_keeps_schema, lemma_tokenized_builds,
};
use crate::schema::argument::ArgumentType;
use crate::schema::{Declarations, Schema};
use crate::token::number::integer;
use crate::token::parser::strategy::flag_type;
use crate::token::parser::{flag_position, well_formed, ParseError, ParserView};
use crate::token::tokens::TokensView;
use crate::token::TokenView;

verus! {

/// Whether a flag token of the given type and name stands among the tokens
/// from position `from` up to, not including, position `upto`.
pub open spec fn has_flag(
    items: Seq<TokenView>,
    from: nat,
    upto: nat,
    arg_type: ArgumentType,
    name: Seq<char>,
) -> bool {
    exists|j: int| from <= j < upto && items[j] == TokenView::Argument(arg_type, name)
}

/// Whether every value in the collection belongs to a flag token among the
/// tokens from `from` up to `upto`, and every boolean in it is `true`.
pub open spec fn reflects(collection: CollectionView, items: Seq<TokenView>, from: nat, upto: nat)
    -> bool {
    &&& forall|name: Seq<char>, arg_type: ArgumentType| #[trigger]
        collection.holds(name, arg_type) ==> has_flag(items, from, upto, arg_type, name)
    &&& forall|name: Seq<char>| #[trigger]
        collection.bools.contains_key(name) ==> collection.bools[name]
}

/// The flag token that the builder holds back while it waits for a value.
pub open spec fn held_back(pending: Pending) -> Option<TokenView> {
    match pending {
        Pending::Flag => None,
        Pending::Int(name) => Some(TokenView::Argument(ArgumentType::Int, name)),
        Pending::Str(name) => Some(TokenView::Argument(ArgumentType::Str, name)),
    }
}

/// The builder puts nothing into the collection but the values of flag
/// tokens it has read, and where it waits for a value, the token before is
/// the flag that the value is for.
pub proof fn lemma_scan_reflects(items: Seq<TokenView>, from: nat, upto: nat, schema: Declarations)
    requires
        upto <= items.len(),
    ensures
        CollectionView::scanned(items, from, upto, schema) matches Ok((collection, pending)) ==> {
            &&& reflects(collection, items, from, upto)
            &&& held_back(pending) matches Some(flag) ==> from < upto && items[upto - 1] == flag
        },
    decreases upto,
{
    if upto > from {
        let before = (upto - 1) as nat;
        lemma_scan_reflects(items, from, before, schema);
        if let Ok((collection, _)) = CollectionView::scanned(items, from, upto, schema) {
            let earlier = CollectionView::scanned(items, from, before, schema)->Ok_0.0;
            assert forall|name: Seq<char>, arg_type: ArgumentType| #[trigger]
                collection.holds(name, arg_type) implies has_flag(
                items,
                from,
                upto,
                arg_type,
                name,
            ) by {
                if earlier.holds(name, arg_type) {
                    assert(has_flag(items, from, before, arg_type, name));
                }
            }
        }
    }
}

/// What parsing gives is read off the arguments: the tokens are read off the
/// arguments one for one, and the collection is built from those tokens and
/// carries the schema.
pub proof fn lemma_parsed_is_read_off(schema: Declarations, args: Seq<Seq<char>>)
    requires
        well_formed(schema, args),
    ensures
        CollectionView::parsed(schema, args) is Ok,
        ParserView::tokenized(schema, args) matches Ok(tokens) && {
            &&& tokens.index == 0
            &&& tokens.schema == Some(schema)
            &&& tokens.items.len() == args.len()
            &&& all_read_off(schema, args, tokens.items)
            &&& CollectionView::built(tokens) == Ok::<
                CollectionView,
                BuildErrorView,
            >(CollectionView::parsed(schema, args)->Ok_0)
            &&& CollectionView::scanned(tokens.items, 0, tokens.items.len(), schema) == Ok::<
                (CollectionView, Pending),
                BuildErrorView,
            >((CollectionView::parsed(schema, args)->Ok_0, Pending::Flag))
        },
        CollectionView::parsed(schema, args)->Ok_0.schema == schema,
{
    let start = ParserView::ready(schema, args);
    lemma_accepted_iff_well_formed(schema, args);
    lemma_tokenized_builds(schema, args);
    lemma_run_reads_off(start);
    lemma_run_keeps_in_step(start, schema);
}

/// Whether the stream carries a schema, and every flag token from the cursor
/// on has the one-character name of a flag that the schema declares with
/// the token's type.
pub open spec fn flags_declared(tokens: TokensView) -> bool {
    tokens.schema matches Some(schema) && forall|j: int|
        tokens.index <= j < tokens.items.len() ==> match #[trigger] tokens.items[j] {
            TokenView::Argument(arg_type, name) => name.len() == 1 && Schema::lookup(
                schema,
                name[0],
            ) == Some(arg_type),
            _ => true,
        }
}

/// A collection built from a stream whose flag tokens are all declared
/// carries the schema of the stream and holds values only under names of
/// flags that the schema declares with the value's type, so no name has
/// values of two types.
pub proof fn lemma_declared_flags_build_consistently(tokens: TokensView)
    requires
        flags_declared(tokens),
        CollectionView::built(tokens) is Ok,
    ensures
        Some(CollectionView::built(tokens)->Ok_0.schema) == tokens.schema,
        CollectionView::built(tokens)->Ok_0.consistent(),
        CollectionView::built(tokens)->Ok_0.exclusive(),
{
    let schema = tokens.schema->0;
    lemma_scan_reflects(tokens.items, tokens.index, tokens.items.len(), schema);
    lemma_scan_keeps_schema(tokens.items, tokens.index, tokens.items.len(), schema);
}

/// A collection parsed from arguments holds values only under names of
/// flags that the schema declares with the value's type, so no name has
/// values of two types.
pub proof fn lemma_parsed_is_consistent(schema: Declarations, args: Seq<Seq<char>>)
    requires
        well_formed(schema, args),
    ensures
        CollectionView::parsed(schema, args) is Ok,
        CollectionView::parsed(schema, args)->Ok_0.schema == schema,
        CollectionView::parsed(schema, args)->Ok_0.consistent(),
        CollectionView::parsed(schema, args)->Ok_0.exclusive(),
{
    lemma_parsed_is_read_off(schema, args);
    let tokens = ParserView::tokenized(schema, args)->Ok_0;
    assert forall|j: int| 0 <= j < tokens.items.len() implies match #[trigger] tokens.items[j] {
        TokenView::Argument(arg_type, name) => name.len() == 1 && Schema::lookup(schema, name[0])
            == Some(arg_type),
        _ => true,
    } by {}
    lemma_declared_flags_build_consistently(tokens);
}

/// Well-formed arguments parse, and every flag that the schema declares can
/// then be looked up with the type it is declared with.
pub proof fn lemma_well_formed_arguments_parse(
    schema: Declarations,
    args: Seq<Seq<char>>,
    key: Seq<char>,
    arg_type: ArgumentType,
)
    requires
        well_formed(schema, args),
        key.len() > 0,
        Schema::lookup(schema, key[0]) == Some(arg_type),
    ensures
        CollectionView::parsed(schema, args) is Ok,
        CollectionView::parsed(schema, args)->Ok_0.permits(key, arg_type),
{
    lemma_accepted_iff_well_formed(schema, args);
    lemma_tokenized_builds(schema, args);
}

/// Parsing the same arguments against the same schema twice gives
/// collections that answer every lookup alike.
pub proof fn lemma_parsing_twice_gives_the_same(
    schema: Declarations,
    args: Seq<Seq<char>>,
    first: CollectionView,
    second: CollectionView,
    key: Seq<char>,
    arg_type: ArgumentType,
)
    requires
        CollectionView::parsed(schema, args) == Ok::<CollectionView, ParseError>(first),
        CollectionView::parsed(schema, args) == Ok::<CollectionView, ParseError>(second),
    ensures
        first.permits(key, arg_type) == second.permits(key, arg_type),
        first.int_of(key) == second.int_of(key),
        first.str_of(key) == second.str_of(key),
        first.bool_of(key) == second.bool_of(key),
{
}

/// A flag that the arguments never mention has no value: looked up as an
/// integer or a string it gives nothing, and as a boolean it gives `false`.
pub proof fn lemma_flag_not_given_has_no_value(
    schema: Declarations,
    args: Seq<Seq<char>>,
    name: Seq<char>,
)
    requires
        well_formed(schema, args),
        forall|k: int| 0 <= k < args.len() ==> args[k] != flag_text(name),
    ensures
        CollectionView::parsed(schema, args) is Ok,
        CollectionView::parsed(schema, args)->Ok_0.int_of(name) is None,
        CollectionView::parsed(schema, args)->Ok_0.str_of(name) is None,
        !CollectionView::parsed(schema, args)->Ok_0.bool_of(name),
{
    lemma_parsed_is_read_off(schema, args);
    let tokens = ParserView::tokenized(schema, args)->Ok_0;
    let collection = CollectionView::parsed(schema, args)->Ok_0;
    lemma_scan_reflects(tokens.items, 0, tokens.items.len(), schema);
    assert(!collection.holds(name, ArgumentType::Int));
    assert(!collection.holds(name, ArgumentType::Str));
    assert(!collection.holds(name, ArgumentType::Bool));
}

/// A boolean flag that the schema declares and the arguments never mention
/// can be looked up, and is `false`.
pub proof fn lemma_boolean_flag_not_given_is_false(
    schema: Declarations,
    args: Seq<Seq<char>>,
    flag: char,
)
    requires
        Schema::lookup(schema, flag) == Some(ArgumentType::Bool),
        well_formed(schema, args),
        forall|k: int| 0 <= k < args.len() ==> args[k] != seq!['-', flag],
    ensures
        CollectionView::parsed(schema, args) is Ok,
        CollectionView::parsed(schema, args)->Ok_0.permits(seq![flag], ArgumentType::Bool),
        !CollectionView::parsed(schema, args)->Ok_0.bool_of(seq![flag]),
{
    assert(flag_text(seq![flag]) =~= seq!['-', flag]);
    lemma_flag_not_given_has_no_value(schema, args, seq![flag]);
    lemma_parsed_is_consistent(schema, args);
}

/// A key cannot be looked up with a type that the schema does not declare
/// its flag with: not where the flag is declared with another type, and not
/// where it is not declared at all.
pub proof fn lemma_other_type_is_not_permitted(
    schema: Declarations,
    args: Seq<Seq<char>>,
    key: Seq<char>,
    asked: ArgumentType,
)
    requires
        well_formed(schema, args),
        key.len() == 0 || Schema::lookup(schema, key[0]) != Some(asked),
    ensures
        CollectionView::parsed(schema, args) is Ok,
        !CollectionView::parsed(schema, args)->Ok_0.permits(key, asked),
{
    lemma_parsed_is_consistent(schema, args);
}

/// Whether the flag token of this type and name at `position` is the last
/// such token before position `upto`.
pub open spec fn last_flag(
    items: Seq<TokenView>,
    position: int,
    upto: nat,
    arg_type: ArgumentType,
    name: Seq<char>,
) -> bool {
    &&& items[position] == TokenView::Argument(arg_type, name)
    &&& forall|j: int| position < j < upto ==> items[j] != TokenView::Argument(arg_type, name)
}

/// Whether the collection holds, for the flag token at `position`, what the
/// stream gives it: `true` for a boolean flag, and for a flag that takes a
/// value the value of the token that follows, or, where the builder has
/// not read that token yet, the flag as the one it waits to complete.
pub open spec fn holds_value_at(
    collection: CollectionView,
    pending: Pending,
    items: Seq<TokenView>,
    position: int,
    upto: nat,
) -> bool {
    match items[position] {
        TokenView::Argument(ArgumentType::Bool, name) => collection.bool_of(name),
        TokenView::Argument(ArgumentType::Int, name) => if position + 1 < upto {
            collection.ints.contains_key(name) && items[position + 1] == TokenView::IntValue(
                collection.ints[name],
            )
        } else {
            pending == Pending::Int(name)
        },
        TokenView::Argument(ArgumentType::Str, name) => if position + 1 < upto {
            collection.strings.contains_key(name) && items[position + 1] == TokenView::StrValue(
                collection.strings[name],
            )
        } else {
            pending == Pending::Str(name)
        },
        _ => true,
    }
}

/// The builder keeps, for each flag, the value that follows the last token
/// of that flag.
pub proof fn lemma_scan_keeps_last_value(
    items: Seq<TokenView>,
    from: nat,
    upto: nat,
    schema: Declarations,
    position: int,
    arg_type: ArgumentType,
    name: Seq<char>,
)
    requires
        upto <= items.len(),
        from <= position < upto,
        last_flag(items, position, upto, arg_type, name),
        CollectionView::scanned(items, from, upto, schema) is Ok,
    ensures
        holds_value_at(
            CollectionView::scanned(items, from, upto, schema)->Ok_0.0,
            CollectionView::scanned(items, from, upto, schema)->Ok_0.1,
            items,
            position,
            upto,
        ),
    decreases upto,
{
    let before = (upto - 1) as nat;
    if position < before {
        lemma_scan_keeps_last_value(items, from, before, schema, position, arg_type, name);
        lemma_scan_reflects(items, from, before, schema);
    }
}

/// What the collection holds for the flag that stands at a position of the
/// arguments, where the flag's text does not occur again after it: `true`
/// for a boolean flag, the next argument for a string flag, and the integer
/// that the next argument writes for an integer flag.
pub open spec fn holds_flag_at(
    schema: Declarations,
    args: Seq<Seq<char>>,
    collection: CollectionView,
    position: int,
) -> bool {
    let name = args[position].skip(1);
    match flag_type(schema, args[position]) {
        Some(ArgumentType::Bool) => collection.bool_of(name),
        Some(ArgumentType::Str) => position + 1 < args.len() && collection.str_of(name) == Some(
            args[position + 1],
        ),
        Some(ArgumentType::Int) => position + 1 < args.len() && integer(args[position + 1])
            is Some && collection.int_of(name) == integer(args[position + 1]),
        None => false,
    }
}

/// A flag that is given comes back from the collection with the value it
/// was given: where its text does not occur again later in the arguments,
/// the collection holds for it the value that follows it.
pub proof fn lemma_given_flag_comes_back(schema: Declarations, args: Seq<Seq<char>>, position: nat)
    requires
        well_formed(schema, args),
        flag_position(schema, args, 1, position),
        position < args.len(),
        forall|k: int| position < k < args.len() ==> args[k] != args[position as int],
    ensures
        CollectionView::parsed(schema, args) is Ok,
        holds_flag_at(schema, args, CollectionView::parsed(schema, args)->Ok_0, position as int),
{
    let k = position as int;
    lemma_parsed_is_read_off(schema, args);
    lemma_flag_gives_its_tokens(schema, args, position);
    let items = ParserView::tokenized(schema, args)->Ok_0.items;
    let arg_type = flag_type(schema, args[k])->0;
    let name = args[k].skip(1);
    lemma_scan_keeps_last_value(items, 0, items.len(), schema, k, arg_type, name);
}

} // verus!
