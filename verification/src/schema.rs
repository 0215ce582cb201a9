//! The schema: which flags exist, and the type of value each one takes.
use vstd::prelude::*;
use vstd::hash_map::StringHashMap;
use crate::schema::argument::ArgumentType;

pub mod argument;

verus! {

/// What a schema is in contracts: a map from flag name to the type declared
/// for it.
pub type Declarations = Map<Seq<char>, ArgumentType>;

/// The flags a program accepts. Built once from a list of declarations and
/// never changed afterwards.
pub struct Schema {
    map: StringHashMap<ArgumentType>,
}

impl View for Schema {
    type V = Declarations;

    closed spec fn view(&self) -> Declarations {
        self.map@
    }
}

/// `char::to_string`: the string that holds exactly this one character.
#[verifier::external_body]
fn char_to_string(c: char) -> (text: String)
    ensures
        text@ == seq![c],
{
    c.to_string()
}

impl Schema {
    /// Whether every declaration in the list names one of the three types.
    pub open spec fn well_typed(entries: Seq<(String, String)>) -> bool {
        forall|i: int|
            0 <= i < entries.len() ==> ArgumentType::named((#[trigger] entries[i]).1@) is Some
    }

    /// The declarations a list of (name, type name) pairs makes, read from
    /// first to last: a later pair replaces an earlier one of the same name.
    pub open spec fn declared(entries: Seq<(String, String)>) -> Declarations
        decreases entries.len(),
    {
        if entries.len() == 0 {
            Map::empty()
        } else {
            Self::declared(entries.drop_last()).insert(
                entries.last().0@,
                ArgumentType::named(entries.last().1@).unwrap(),
            )
        }
    }

    /// The type declared for the one-character flag `c`, if there is one.
    pub open spec fn lookup(schema: Declarations, c: char) -> Option<ArgumentType> {
        if schema.contains_key(seq![c]) {
            Some(schema[seq![c]])
        } else {
            None
        }
    }

    /// A schema that declares no flag.
    pub fn new() -> (schema: Schema)
        ensures
            schema@ == Map::<Seq<char>, ArgumentType>::empty(),
    {
        Schema { map: StringHashMap::new() }
    }

    /// Builds a schema from (name, type name) pairs. Every type name has to
    /// be `bool`, `string` or `int`.
    pub fn from(entries: Vec<(String, String)>) -> (schema: Schema)
        requires
            Self::well_typed(entries@),
        ensures
            schema@ == Self::declared(entries@),
    {
        let mut map: StringHashMap<ArgumentType> = StringHashMap::new();
        let mut i: usize = 0;
        while i < entries.len()
            invariant
                i <= entries.len(),
                Self::well_typed(entries@),
                map@ == Self::declared(entries@.take(i as int)),
            decreases entries.len() - i,
        {
            proof {
                assert(entries@.take(i + 1).drop_last() =~= entries@.take(i as int));
            }
            if let Some(arg_type) = ArgumentType::from(entries[i].1.as_str()) {
                map.insert(entries[i].0.clone(), arg_type);
            }
            i += 1;
        }
        proof {
            assert(entries@.take(i as int) =~= entries@);
        }
        Schema { map }
    }

    /// The type declared for flag `c`, or `None` if the schema does not
    /// declare it.
    pub fn get(&self, c: char) -> (arg_type: Option<ArgumentType>)
        ensures
            arg_type == Self::lookup(self@, c),
    {
        let key = char_to_string(c);
        match self.map.get(key.as_str()) {
            Some(arg_type) => Some(*arg_type),
            None => None,
        }
    }
}

impl Default for Schema {
    fn default() -> (schema: Schema)
        ensures
            schema@ == Map::<Seq<char>, ArgumentType>::empty(),
    {
        Schema::new()
    }
}

} // verus!
