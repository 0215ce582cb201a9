//! What a list of declarations makes of a schema.
use vstd::prelude::*;
use crate::schema::argument::ArgumentType;
use crate::schema::Schema;

verus! {

/// Whether the entry at `position` is the last one that declares `name`.
pub open spec fn last_entry_of(entries: Seq<(String, String)>, name: Seq<char>, position: int)
    -> bool {
    &&& 0 <= position < entries.len()
    &&& entries[position].0@ == name
    &&& forall|j: int| position < j < entries.len() ==> (#[trigger] entries[j]).0@ != name
}

/// Whether some entry declares `name`.
pub open spec fn has_entry(entries: Seq<(String, String)>, name: Seq<char>) -> bool {
    exists|i: int| 0 <= i < entries.len() && (#[trigger] entries[i]).0@ == name
}

/// A schema declares a name with the type that the last entry of that name
/// gives it.
pub proof fn lemma_last_entry_declares(
    entries: Seq<(String, String)>,
    name: Seq<char>,
    position: int,
)
    requires
        last_entry_of(entries, name, position),
    ensures
        Schema::declared(entries).contains_key(name),
        Schema::declared(entries)[name] == ArgumentType::named(entries[position].1@).unwrap(),
    decreases entries.len(),
{
    if position < entries.len() - 1 {
        let rest = entries.drop_last();
        assert forall|j: int| position < j < rest.len() implies (#[trigger] rest[j]).0@
            != name by {
            assert(rest[j] == entries[j]);
        }
        lemma_last_entry_declares(rest, name, position);
    }
}

/// A schema declares exactly the names of its entries.
pub proof fn lemma_declared_names(entries: Seq<(String, String)>, name: Seq<char>)
    ensures
        Schema::declared(entries).contains_key(name) <==> has_entry(entries, name),
    decreases entries.len(),
{
    if entries.len() > 0 {
        let rest = entries.drop_last();
        lemma_declared_names(rest, name);
        if has_entry(rest, name) {
            let i = choose|i: int| 0 <= i < rest.len() && (#[trigger] rest[i]).0@ == name;
            assert(entries[i].0@ == name);
        }
        if has_entry(entries, name) && entries.last().0@ != name {
            let i = choose|i: int| 0 <= i < entries.len() && (#[trigger] entries[i]).0@ == name;
            assert(rest[i].0@ == name);
        }
    }
}

/// Whether no two entries declare the same name.
pub open spec fn distinct_names(entries: Seq<(String, String)>) -> bool {
    forall|i: int, j: int|
        0 <= i < entries.len() && 0 <= j < entries.len() && i != j ==> (#[trigger] entries[i]).0@
            != (#[trigger] entries[j]).0@
}

/// Whether every entry of the first list stands, with the same name and the
/// same type name, somewhere in the second.
pub open spec fn all_among(entries: Seq<(String, String)>, others: Seq<(String, String)>) -> bool {
    forall|i: int|
        0 <= i < entries.len() ==> exists|j: int|
            0 <= j < others.len() && (#[trigger] others[j]).0@ == (#[trigger] entries[i]).0@
                && others[j].1@ == entries[i].1@
}

/// The order in which flags are declared does not matter: two lists of
/// entries that declare each name once, and hold the same entries, make the
/// same schema.
pub proof fn lemma_declaration_order_is_irrelevant(
    entries: Seq<(String, String)>,
    others: Seq<(String, String)>,
)
    requires
        distinct_names(entries),
        distinct_names(others),
        all_among(entries, others),
        all_among(others, entries),
    ensures
        Schema::declared(entries) == Schema::declared(others),
{
    let one = Schema::declared(entries);
    let other = Schema::declared(others);
    assert forall|name: Seq<char>| one.contains_key(name) == other.contains_key(name) by {
        lemma_declared_names(entries, name);
        lemma_declared_names(others, name);
        if has_entry(entries, name) {
            let i = choose|i: int| 0 <= i < entries.len() && (#[trigger] entries[i]).0@ == name;
            let j = choose|j: int|
                0 <= j < others.len() && (#[trigger] others[j]).0@ == entries[i].0@
                    && others[j].1@ == entries[i].1@;
            assert(others[j].0@ == name);
        }
        if has_entry(others, name) {
            let i = choose|i: int| 0 <= i < others.len() && (#[trigger] others[i]).0@ == name;
            let j = choose|j: int|
                0 <= j < entries.len() && (#[trigger] entries[j]).0@ == others[i].0@
                    && entries[j].1@ == others[i].1@;
            assert(entries[j].0@ == name);
        }
    }
    assert forall|name: Seq<char>| one.contains_key(name) implies one[name] == other[name] by {
        lemma_declared_names(entries, name);
        let i = choose|i: int| 0 <= i < entries.len() && (#[trigger] entries[i]).0@ == name;
        let j = choose|j: int|
            0 <= j < others.len() && (#[trigger] others[j]).0@ == entries[i].0@ && others[j].1@
                == entries[i].1@;
        lemma_last_entry_declares(entries, name, i);
        lemma_last_entry_declares(others, name, j);
    }
    assert(one =~= other);
}

} // verus!
