//! Which argument lists the tokenizer accepts, which error it gives for the
//! others, and which tokens it gives for those it accepts.
use vstd::prelude::*;
use crate::schema::argument::ArgumentType;
use crate::schema::{Declarations, Schema};
use crate::token::number::integer;
use crate::token::parser::strategy::{flag_type, ParserStrategy};
use crate::token::parser::{flag_position, well_formed, ParseError, ParserView};
use crate::token::tokens::TokensView;
use crate::token::TokenView;

verus! {

/// Whether the second tokenizer is the first one further along the same
/// arguments: same arguments, schemas and cursor, and the tokens of the
/// first at the start of the tokens of the second.
pub open spec fn continues(earlier: ParserView, later: ParserView) -> bool {
    &&& later.args == earlier.args
    &&& later.schema == earlier.schema
    &&& later.tokens.schema == earlier.tokens.schema
    &&& later.tokens.index == earlier.tokens.index
    &&& earlier.tokens.items.len() <= later.tokens.items.len()
    &&& later.tokens.items.take(earlier.tokens.items.len() as int) == earlier.tokens.items
}

/// A tokenizer that expects a flag, run up to a later flag position, expects
/// a flag there, and goes on from there as it would have from the start.
pub proof fn lemma_reaches_flag_position(parser: ParserView, to: nat) -> (later: ParserView)
    requires
        parser.strategy == ParserStrategy::ExpectFlag,
        flag_position(parser.declarations(), parser.args, parser.index, to),
    ensures
        later.index == to,
        later.strategy == ParserStrategy::ExpectFlag,
        continues(parser, later),
        later.tokens.items.len() == parser.tokens.items.len() + (to - parser.index),
        later.run() == parser.run(),
    decreases to - parser.index,
{
    if parser.index >= to {
        assert(parser.tokens.items.take(parser.tokens.items.len() as int)
            =~= parser.tokens.items);
        parser
    } else {
        let flag = parser.advanced()->Ok_0;
        let next = if flag.strategy == ParserStrategy::ExpectFlag {
            flag
        } else {
            flag.advanced()->Ok_0
        };
        assert(next.run() == flag.run());
        assert(next.tokens.items.take(parser.tokens.items.len() as int)
            =~= parser.tokens.items);
        let later = lemma_reaches_flag_position(next, to);
        assert(later.tokens.items.take(parser.tokens.items.len() as int)
            =~= later.tokens.items.take(next.tokens.items.len() as int).take(
            parser.tokens.items.len() as int,
        ));
        later
    }
}

/// The tokenizer only ever appends tokens: what it ends with continues what
/// it started with.
pub proof fn lemma_run_continues(parser: ParserView)
    requires
        parser.run() is Ok,
    ensures
        continues(parser, parser.run()->Ok_0),
    decreases parser.args.len() - parser.index,
{
    let count = parser.tokens.items.len() as int;
    if parser.done() {
        assert(parser.tokens.items.take(count) =~= parser.tokens.items);
    } else {
        let next = parser.advanced()->Ok_0;
        lemma_run_continues(next);
        let end = parser.run()->Ok_0;
        assert(next.tokens.items.take(count) =~= parser.tokens.items);
        assert(end.tokens.items.take(count) =~= end.tokens.items.take(count + 1).take(count));
    }
}

/// A tokenizer that expects a flag tokenizes the rest of its arguments
/// exactly when they are declared flags, each with the value that its type
/// asks for.
pub proof fn lemma_accepts_flags(parser: ParserView)
    requires
        parser.strategy == ParserStrategy::ExpectFlag,
        parser.index <= parser.args.len(),
    ensures
        parser.collected() is Ok <==> flag_position(
            parser.declarations(),
            parser.args,
            parser.index,
            parser.args.len(),
        ),
    decreases parser.args.len() - parser.index,
{
    if !parser.done() {
        if parser.advanced() is Ok {
            let flag = parser.advanced()->Ok_0;
            if flag.strategy == ParserStrategy::ExpectFlag {
                lemma_accepts_flags(flag);
            } else if !flag.done() && flag.advanced() is Ok {
                lemma_accepts_flags(flag.advanced()->Ok_0);
            }
        }
    }
}

/// A tokenizer tokenizes the rest of its arguments exactly when they are
/// acceptable to it.
pub proof fn lemma_collects_iff_acceptable(parser: ParserView)
    ensures
        parser.collected() is Ok <==> parser.acceptable(),
{
    if !parser.done() {
        if parser.strategy == ParserStrategy::ExpectFlag {
            lemma_accepts_flags(parser);
        } else if parser.advanced() is Ok {
            lemma_accepts_flags(parser.advanced()->Ok_0);
        }
    }
}

/// The tokenizer accepts exactly the well-formed argument lists.
pub proof fn lemma_accepted_iff_well_formed(schema: Declarations, args: Seq<Seq<char>>)
    ensures
        ParserView::tokenized(schema, args) is Ok <==> well_formed(schema, args),
{
    lemma_collects_iff_acceptable(ParserView::ready(schema, args));
}

/// The tokenizer as it stands after the program name, where the first flag
/// is expected.
pub open spec fn past_name(schema: Declarations, args: Seq<Seq<char>>) -> ParserView {
    ParserView::ready(schema, args).advanced()->Ok_0
}

/// An argument that stands where a flag is expected and is not a declared
/// flag makes the tokenizer fail, with that argument's position.
pub proof fn lemma_undeclared_flag_is_rejected(
    schema: Declarations,
    args: Seq<Seq<char>>,
    position: nat,
)
    requires
        flag_position(schema, args, 1, position),
        position < args.len(),
        flag_type(schema, args[position as int]) is None,
    ensures
        ParserView::tokenized(schema, args) == Err::<TokensView, ParseError>(
            ParseError::UnrecognizedFlag(position as usize),
        ),
{
    lemma_reaches_flag_position(past_name(schema, args), position);
}

/// Text that stands where the value of an integer flag is expected and is
/// not an integer makes the tokenizer fail, with that text's position.
pub proof fn lemma_invalid_integer_is_rejected(
    schema: Declarations,
    args: Seq<Seq<char>>,
    position: nat,
)
    requires
        flag_position(schema, args, 1, position),
        position + 1 < args.len(),
        flag_type(schema, args[position as int]) == Some(ArgumentType::Int),
        integer(args[(position + 1) as int]) is None,
    ensures
        ParserView::tokenized(schema, args) == Err::<TokensView, ParseError>(
            ParseError::InvalidInteger((position + 1) as usize),
        ),
{
    let at = lemma_reaches_flag_position(past_name(schema, args), position);
    let value = at.advanced()->Ok_0;
    assert(at.run() == value.run());
}

/// Arguments that end with a flag that takes a value make the tokenizer
/// fail: the value is missing.
pub proof fn lemma_missing_value_is_rejected(schema: Declarations, args: Seq<Seq<char>>)
    requires
        args.len() >= 2,
        flag_position(schema, args, 1, (args.len() - 1) as nat),
    ensures
        flag_type(schema, args.last()) == Some(ArgumentType::Int) ==> ParserView::tokenized(
            schema,
            args,
        ) == Err::<TokensView, ParseError>(ParseError::MissingInteger),
        flag_type(schema, args.last()) == Some(ArgumentType::Str) ==> ParserView::tokenized(
            schema,
            args,
        ) == Err::<TokensView, ParseError>(ParseError::MissingString),
{
    let at = lemma_reaches_flag_position(past_name(schema, args), (args.len() - 1) as nat);
    if flag_type(schema, args.last()) is Some {
        let end = at.advanced()->Ok_0;
        assert(at.run() == end.run());
    }
}

/// The argument that denotes the flag `name`: a dash followed by the name.
pub open spec fn flag_text(name: Seq<char>) -> Seq<char> {
    seq!['-'] + name
}

/// Whether a token is what the tokenizer reads off an argument: a flag
/// token off a declared flag, with its declared type and its name, and a
/// value token off the text of its value.
pub open spec fn read_off(schema: Declarations, arg: Seq<char>, token: TokenView) -> bool {
    match token {
        TokenView::AppName => true,
        TokenView::Argument(arg_type, name) => {
            &&& arg == flag_text(name)
            &&& name.len() == 1
            &&& Schema::lookup(schema, name[0]) == Some(arg_type)
        },
        TokenView::StrValue(text) => text == arg,
        TokenView::IntValue(value) => integer(arg) == Some(value),
    }
}

/// Whether the tokens are, one for one and in order, what the tokenizer
/// reads off the first arguments.
pub open spec fn all_read_off(schema: Declarations, args: Seq<Seq<char>>, items: Seq<TokenView>)
    -> bool {
    &&& items.len() <= args.len()
    &&& forall|j: int| 0 <= j < items.len() ==> read_off(schema, args[j], #[trigger] items[j])
}

/// The tokenizer emits one token for each argument, read off that argument.
pub proof fn lemma_run_reads_off(parser: ParserView)
    requires
        parser.tokens.items.len() == parser.index,
        all_read_off(parser.declarations(), parser.args, parser.tokens.items),
        parser.run() is Ok,
    ensures
        parser.run()->Ok_0.tokens.items.len() == parser.args.len(),
        all_read_off(parser.declarations(), parser.args, parser.run()->Ok_0.tokens.items),
    decreases parser.args.len() - parser.index,
{
    if !parser.done() {
        let next = parser.advanced()->Ok_0;
        let arg = parser.args[parser.index as int];
        if parser.strategy == ParserStrategy::ExpectFlag {
            assert(arg =~= flag_text(arg.skip(1)));
        }
        lemma_run_reads_off(next);
    }
}

/// Whether the tokens hold, at a position of the arguments where a flag
/// stands, the flag's token with the declared type and the flag's name,
/// and after the token of a flag that takes a value, the token of that
/// value.
pub open spec fn flag_tokens_at(
    schema: Declarations,
    args: Seq<Seq<char>>,
    items: Seq<TokenView>,
    position: int,
) -> bool {
    let name = args[position].skip(1);
    match flag_type(schema, args[position]) {
        Some(ArgumentType::Bool) => items[position] == TokenView::Argument(
            ArgumentType::Bool,
            name,
        ),
        Some(ArgumentType::Str) => {
            &&& position + 1 < args.len()
            &&& items[position] == TokenView::Argument(ArgumentType::Str, name)
            &&& items[position + 1] == TokenView::StrValue(args[position + 1])
        },
        Some(ArgumentType::Int) => {
            &&& position + 1 < args.len()
            &&& items[position] == TokenView::Argument(ArgumentType::Int, name)
            &&& integer(args[position + 1]) is Some
            &&& items[position + 1] == TokenView::IntValue(integer(args[position + 1])->0)
        },
        None => false,
    }
}

/// The token stream follows the arguments: one token for each argument, the
/// program name's first, and at every flag position the tokens of the flag
/// that stands there.
pub proof fn lemma_flag_gives_its_tokens(schema: Declarations, args: Seq<Seq<char>>, position: nat)
    requires
        well_formed(schema, args),
        flag_position(schema, args, 1, position),
        position < args.len(),
    ensures
        ParserView::tokenized(schema, args)->Ok_0.items.len() == args.len(),
        ParserView::tokenized(schema, args)->Ok_0.items[0] == TokenView::AppName,
        flag_tokens_at(
            schema,
            args,
            ParserView::tokenized(schema, args)->Ok_0.items,
            position as int,
        ),
{
    lemma_accepted_iff_well_formed(schema, args);
    let k = position as int;
    let start = ParserView::ready(schema, args);
    let first = past_name(schema, args);
    let at = lemma_reaches_flag_position(first, position);
    lemma_run_reads_off(start);
    let items = start.run()->Ok_0.tokens.items;
    let flag = at.advanced()->Ok_0;
    lemma_run_continues(first);
    assert(items[0] == items.take(1)[0]);
    if flag.strategy == ParserStrategy::ExpectFlag {
        lemma_run_continues(flag);
        assert(items[k] == items.take(k + 1)[k]);
    } else {
        let value = flag.advanced()->Ok_0;
        lemma_run_continues(value);
        assert(items[k + 1] == items.take(k + 2)[k + 1]);
    }
}

} // verus!
