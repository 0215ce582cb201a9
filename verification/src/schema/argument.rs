//! The types of value a flag can take, and the names they go by in a schema.
use vstd::prelude::*;

verus! {

/// The type of value a flag takes.
#[derive(Debug, PartialEq, Eq, Clone, Copy, Structural)]
pub enum ArgumentType {
    /// A presence flag: it takes no value.
    Bool,
    /// A flag followed by a string.
    Str,
    /// A flag followed by a signed integer.
    Int,
}

/// Whether two strings hold the same text.
fn same_text(a: &str, b: &str) -> (same: bool)
    ensures
        same == (a@ == b@),
{
    let n: usize = a.unicode_len();
    if n != b.unicode_len() {
        return false;
    }
    let mut i: usize = 0;
    while i < n
        invariant
            n == a@.len(),
            n == b@.len(),
            i <= n,
            forall|j: int| 0 <= j < i ==> a@[j] == b@[j],
        decreases n - i,
    {
        if a.get_char(i) != b.get_char(i) {
            return false;
        }
        i += 1;
    }
    assert(a@ =~= b@);
    true
}

impl ArgumentType {
    /// The type that a type name stands for: `bool`, `string` and `int` are
    /// the only names.
    pub open spec fn named(name: Seq<char>) -> Option<ArgumentType> {
        if name == "bool"@ {
            Some(ArgumentType::Bool)
        } else if name == "string"@ {
            Some(ArgumentType::Str)
        } else if name == "int"@ {
            Some(ArgumentType::Int)
        } else {
            None
        }
    }

    /// Reads a type name. Any text but the three names gives `None`.
    pub fn from(string: &str) -> (arg_type: Option<ArgumentType>)
        ensures
            arg_type == Self::named(string@),
    {
        if same_text(string, "bool") {
            Some(ArgumentType::Bool)
        } else if same_text(string, "string") {
            Some(ArgumentType::Str)
        } else if same_text(string, "int") {
            Some(ArgumentType::Int)
        } else {
            None
        }
    }
}

/// Something that names an argument type.
pub trait ArgumentTypeFactory: Sized {
    /// The text that is read as a type name.
    spec fn name_text(self) -> Seq<char>;

    /// The type that this value names, if it names one.
    fn arg_type(self) -> (arg_type: Option<ArgumentType>)
        ensures
            arg_type == ArgumentType::named(self.name_text()),
    ;
}

impl ArgumentTypeFactory for &str {
    open spec fn name_text(self) -> Seq<char> {
        self@
    }

    fn arg_type(self) -> (arg_type: Option<ArgumentType>) {
        ArgumentType::from(self)
    }
}

} // verus!
