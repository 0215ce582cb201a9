//! The program: it reads a string flag `s`, a boolean flag `b` and an integer
//! flag `i` from its arguments and reports them.
use vstd::prelude::*;
use crate::collection::{Collection, CollectionView};
use crate::schema::argument::ArgumentType;
use crate::schema::{Declarations, Schema};
use crate::token::parser::{owned_texts, texts, well_formed, ParseError};

verus! {

/// The flags of the program: `s` takes a string, `b` takes no value, `i`
/// takes an integer.
pub open spec fn app_declarations() -> Declarations {
    map![
        seq!['s'] => ArgumentType::Str,
        seq!['b'] => ArgumentType::Bool,
        seq!['i'] => ArgumentType::Int,
    ]
}

/// The program with its arguments parsed.
pub struct App {
    collection: Collection,
}

impl View for App {
    type V = CollectionView;

    closed spec fn view(&self) -> CollectionView {
        self.collection@
    }
}

impl App {
    #[verifier::type_invariant]
    spec fn declares_its_flags(self) -> bool {
        self.collection@.schema == app_declarations()
    }

    /// The string to report where `-s` was not given, and the string given
    /// otherwise.
    pub open spec fn string_of(collection: CollectionView) -> Seq<char> {
        match collection.str_of(seq!['s']) {
            Some(text) => text,
            None => Seq::empty(),
        }
    }

    /// The integer to report: the one given with `-i`, or 0.
    pub open spec fn int_of(collection: CollectionView) -> i64 {
        match collection.int_of(seq!['i']) {
            Some(value) => value,
            None => 0,
        }
    }

    /// Parses the program's arguments. They have to be well formed: the
    /// program's name, then flags of the program, each with the value that
    /// its type asks for.
    pub fn new(args: Vec<String>) -> (app: App)
        requires
            well_formed(app_declarations(), owned_texts(args@)),
        ensures
            Ok::<CollectionView, ParseError>(app@) == CollectionView::parsed(
                app_declarations(),
                owned_texts(args@),
            ),
    {
        let borrowed = borrow_all(&args);
        App { collection: collection_from_args(borrowed) }
    }

    /// Parses the program's arguments, or says why the tokenizer rejects
    /// them. It rejects exactly those that are not well formed.
    pub fn try_new(args: Vec<String>) -> (outcome: Result<App, ParseError>)
        ensures
            outcome is Ok <==> well_formed(app_declarations(), owned_texts(args@)),
            match outcome {
                Ok(app) => CollectionView::parsed(app_declarations(), owned_texts(args@)) == Ok::<
                    CollectionView,
                    ParseError,
                >(app@),
                Err(error) => CollectionView::parsed(app_declarations(), owned_texts(args@))
                    == Err::<CollectionView, ParseError>(error),
            },
    {
        let borrowed = borrow_all(&args);
        match Collection::try_from_args(borrowed, get_schema()) {
            Ok(collection) => Ok(App { collection }),
            Err(error) => Err(error),
        }
    }

    /// The parsed arguments.
    pub fn get_collection(&self) -> (collection: &Collection)
        ensures
            collection@ == self@,
            collection@.schema == app_declarations(),
    {
        proof {
            use_type_invariant(self);
        }
        &self.collection
    }

    /// What the program reports: the string given with `-s` or the empty
    /// string, the integer given with `-i` or 0, and whether `-b` was given.
    pub fn report(&self) -> (report: (&str, i64, bool))
        ensures
            report.0@ == Self::string_of(self@),
            report.1 == Self::int_of(self@),
            report.2 == self@.bool_of(seq!['b']),
    {
        let col = self.get_collection();
        proof {
            reveal_strlit("s");
            reveal_strlit("i");
            reveal_strlit("b");
            reveal_strlit("");
            assert("s"@ =~= seq!['s']);
            assert("i"@ =~= seq!['i']);
            assert("b"@ =~= seq!['b']);
        }
        let string = match col.get_str("s") {
            Some(text) => text,
            None => "",
        };
        let number: i64 = match col.get_int("i") {
            Some(value) => value,
            None => 0,
        };
        let flag = col.get_bool("b");
        (string, number, flag)
    }
}

/// The arguments as string slices, in the same order.
fn borrow_all(args: &Vec<String>) -> (borrowed: Vec<&str>)
    ensures
        texts(borrowed@) == owned_texts(args@),
{
    let mut borrowed: Vec<&str> = Vec::new();
    let mut i: usize = 0;
    while i < args.len()
        invariant
            i <= args.len(),
            borrowed@.len() == i,
            forall|j: int| 0 <= j < i ==> (#[trigger] borrowed@[j])@ == args@[j]@,
        decreases args.len() - i,
    {
        borrowed.push(args[i].as_str());
        i += 1;
    }
    borrowed
}

fn collection_from_args(args: Vec<&str>) -> (collection: Collection)
    requires
        well_formed(app_declarations(), texts(args@)),
    ensures
        Ok::<CollectionView, ParseError>(collection@) == CollectionView::parsed(
            app_declarations(),
            texts(args@),
        ),
        collection@.schema == app_declarations(),
{
    Collection::from_args(args, get_schema())
}

/// The schema of the program's flags.
pub fn get_schema() -> (schema: Schema)
    ensures
        schema@ == app_declarations(),
{
    let mut entries: Vec<(String, String)> = Vec::new();
    entries.push((String::from_str("s"), String::from_str("string")));
    entries.push((String::from_str("b"), String::from_str("bool")));
    entries.push((String::from_str("i"), String::from_str("int")));
    proof {
        reveal_strlit("s");
        reveal_strlit("b");
        reveal_strlit("i");
        reveal_strlit("string");
        reveal_strlit("bool");
        reveal_strlit("int");
        reveal_with_fuel(Schema::declared, 4);
        assert("s"@ =~= seq!['s']);
        assert("b"@ =~= seq!['b']);
        assert("i"@ =~= seq!['i']);
        assert("string"@.len() == 6 && "bool"@.len() == 4 && "int"@.len() == 3);
    }
    Schema::from(entries)
}

} // verus!
