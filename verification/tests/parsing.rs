use args::collection::Collection;
use args::schema::argument::ArgumentType;
use args::schema::Schema;
use args::token::parser::ParseError;

fn schema_of(entries: &[(&str, &str)]) -> Schema {
    Schema::from(entries.iter().map(|(name, kind)| (name.to_string(), kind.to_string())).collect())
}

fn isb() -> Schema {
    schema_of(&[("i", "int"), ("s", "string"), ("b", "bool")])
}

const TYPES: [ArgumentType; 3] = [ArgumentType::Bool, ArgumentType::Str, ArgumentType::Int];

#[test]
fn every_declared_flag_can_be_looked_up_with_its_type() {
    let lists: [&[&str]; 6] = [
        &[],
        &["app"],
        &["app", "-b"],
        &["app", "-i", "1", "-s", "x"],
        &["app", "-s", "-i", "-b", "-b"],
        &["app", "-i", "-9223372036854775808", "-i", "+3", "-s", ""],
    ];
    for args in lists {
        let collection = Collection::from_args(args.to_vec(), isb());
        assert!(collection.accepts("i", ArgumentType::Int));
        assert!(collection.accepts("s", ArgumentType::Str));
        assert!(collection.accepts("b", ArgumentType::Bool));
        collection.get_int("i");
        collection.get_str("s");
        collection.get_bool("b");
    }
}

#[test]
fn parsing_twice_gives_the_same_answers() {
    let args = vec!["app", "-i", "42", "-b", "-s", "string"];
    let first = Collection::from_args(args.clone(), isb());
    let second = Collection::from_args(args, isb());
    for key in ["i", "s", "b", "x", "", "ib", "string"] {
        for arg_type in TYPES {
            assert_eq!(first.accepts(key, arg_type), second.accepts(key, arg_type));
        }
    }
    assert_eq!(first.get_int("i"), second.get_int("i"));
    assert_eq!(first.get_str("s"), second.get_str("s"));
    assert_eq!(first.get_bool("b"), second.get_bool("b"));
    assert_eq!(first.get_int("i"), Some(42));
}

#[test]
fn boolean_flag_that_is_not_mentioned_is_false() {
    let lists: [&[&str]; 4] =
        [&["app"], &["app", "-i", "3"], &["-b"], &["app", "-s", "b", "-i", "0"]];
    for args in lists {
        let collection = Collection::from_args(args.to_vec(), isb());
        assert!(!collection.get_bool("b"));
    }
}

#[test]
fn boolean_flag_that_is_given_is_true() {
    let schema = schema_of(&[("b", "bool")]);
    let collection = Collection::from_args(vec!["app", "-b"], schema);
    assert!(collection.get_bool("b"));
}

#[test]
fn string_comes_back_as_given() {
    let schema = schema_of(&[("s", "string")]);
    let collection = Collection::from_args(vec!["app", "-s", "hello"], schema);
    assert_eq!(collection.get_str("s"), Some("hello"));

    let schema = schema_of(&[("s", "string")]);
    let collection = Collection::from_args(vec!["app"], schema);
    assert_eq!(collection.get_str("s"), None);
}

#[test]
fn integer_comes_back_as_given() {
    let schema = schema_of(&[("i", "int")]);
    let collection = Collection::from_args(vec!["app", "-i", "-42"], schema);
    assert_eq!(collection.get_int("i"), Some(-42));
}

#[test]
fn order_of_declarations_does_not_matter() {
    let orders: [[(&str, &str); 3]; 6] = [
        [("i", "int"), ("s", "string"), ("b", "bool")],
        [("i", "int"), ("b", "bool"), ("s", "string")],
        [("s", "string"), ("i", "int"), ("b", "bool")],
        [("s", "string"), ("b", "bool"), ("i", "int")],
        [("b", "bool"), ("i", "int"), ("s", "string")],
        [("b", "bool"), ("s", "string"), ("i", "int")],
    ];
    for order in orders {
        let collection =
            Collection::from_args(vec!["app", "-i", "42", "-b", "-s", "string"], schema_of(&order));
        assert_eq!(collection.get_int("i"), Some(42));
        assert!(collection.get_bool("b"));
        assert_eq!(collection.get_str("s"), Some("string"));
    }
}

#[test]
fn lookup_with_another_type_is_not_accepted() {
    let collection = Collection::from_args(vec!["app"], schema_of(&[("s", "string")]));
    assert!(!collection.accepts("s", ArgumentType::Int));
    assert!(!collection.accepts("s", ArgumentType::Bool));
    assert!(collection.accepts("s", ArgumentType::Str));

    let collection = Collection::from_args(vec!["app"], schema_of(&[("i", "int")]));
    assert!(!collection.accepts("i", ArgumentType::Str));
    assert!(!collection.accepts("i", ArgumentType::Bool));
    assert!(collection.accepts("i", ArgumentType::Int));

    let collection = Collection::from_args(vec!["app", "-s", "x"], schema_of(&[("s", "string")]));
    assert!(!collection.accepts("s", ArgumentType::Int));
    assert!(!collection.accepts("s", ArgumentType::Bool));
}

#[test]
fn lookup_of_an_undeclared_or_empty_key_is_not_accepted() {
    let collection = Collection::from_args(vec!["app", "-b"], isb());
    for arg_type in TYPES {
        assert!(!collection.accepts("x", arg_type));
        assert!(!collection.accepts("", arg_type));
        assert!(!collection.accepts("-b", arg_type));
    }
}

#[test]
fn schema_is_asked_for_the_first_character_of_a_key() {
    let collection = Collection::from_args(vec!["app", "-i", "5"], isb());
    assert!(collection.accepts("index", ArgumentType::Int));
    assert_eq!(collection.get_int("index"), None);
    assert!(!collection.accepts("index", ArgumentType::Str));
}

#[test]
fn no_name_has_values_of_two_types() {
    let collection =
        Collection::from_args(vec!["app", "-i", "1", "-s", "i", "-b", "-s", "b"], isb());
    assert_eq!(collection.get_int("i"), Some(1));
    assert_eq!(collection.get_str("s"), Some("b"));
    assert!(collection.get_bool("b"));
    for (name, declared) in [("i", ArgumentType::Int), ("s", ArgumentType::Str), ("b", ArgumentType::Bool)] {
        for arg_type in TYPES {
            assert_eq!(collection.accepts(name, arg_type), arg_type == declared);
        }
    }
}

#[test]
fn unknown_flag_fails() {
    let outcome = Collection::try_from_args(vec!["app", "-x"], isb());
    assert_eq!(outcome.err(), Some(ParseError::UnrecognizedFlag(1)));
    let outcome = Collection::try_from_args(vec!["app", "-b", "-x", "-b"], isb());
    assert_eq!(outcome.err(), Some(ParseError::UnrecognizedFlag(2)));
}

#[test]
fn flag_text_in_value_position_is_a_value() {
    let collection = Collection::try_from_args(vec!["app", "-s", "-x"], isb()).ok().unwrap();
    assert_eq!(collection.get_str("s"), Some("-x"));
}

#[test]
fn truncated_value_fails() {
    let outcome = Collection::try_from_args(vec!["app", "-i"], schema_of(&[("i", "int")]));
    assert_eq!(outcome.err(), Some(ParseError::MissingInteger));
    let outcome = Collection::try_from_args(vec!["app", "-s"], schema_of(&[("s", "string")]));
    assert_eq!(outcome.err(), Some(ParseError::MissingString));
}

#[test]
fn invalid_integer_fails() {
    let outcome = Collection::try_from_args(vec!["app", "-i", "abc"], isb());
    assert_eq!(outcome.err(), Some(ParseError::InvalidInteger(2)));
}

#[test]
fn trying_gives_what_parsing_gives() {
    let args = vec!["app", "-s", "text", "-i", "12", "-b"];
    let parsed = Collection::from_args(args.clone(), isb());
    let tried = Collection::try_from_args(args, isb()).ok().unwrap();
    assert_eq!(parsed.get_int("i"), tried.get_int("i"));
    assert_eq!(parsed.get_str("s"), tried.get_str("s"));
    assert_eq!(parsed.get_bool("b"), tried.get_bool("b"));
    assert_eq!(tried.get_int("i"), Some(12));
    assert_eq!(tried.get_str("s"), Some("text"));
    assert!(tried.get_bool("b"));
}

#[test]
fn flag_given_again_takes_the_later_value() {
    let collection =
        Collection::from_args(vec!["app", "-s", "a", "-i", "1", "-s", "b", "-i", "2", "-b", "-b"], isb());
    assert_eq!(collection.get_str("s"), Some("b"));
    assert_eq!(collection.get_int("i"), Some(2));
    assert!(collection.get_bool("b"));
}

#[test]
fn empty_argument_list_parses_to_an_empty_collection() {
    let collection = Collection::from_args(Vec::new(), isb());
    assert_eq!(collection.get_int("i"), None);
    assert_eq!(collection.get_str("s"), None);
    assert!(!collection.get_bool("b"));
}
