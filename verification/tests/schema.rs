use args::schema::argument::{ArgumentType, ArgumentTypeFactory};
use args::schema::Schema;

#[test]
fn schema_should_return_none_when_not_defined() {
    // given
    let schema = Schema::new();

    // when
    let arg = schema.get('b');

    // then
    assert_eq!(arg, None);
}

#[test]
fn schema_should_return_bool_argument() {
    // given
    let schema = Schema::from(vec![("b".to_string(), "bool".to_string())]);

    // when
    let arg = schema.get('b');

    // then
    assert!(arg.is_some());
    assert_eq!(arg, Some(ArgumentType::Bool));
}

#[test]
fn should_return_string_argument() {
    // given
    let schema = Schema::from(vec![("s".to_string(), "string".to_string())]);

    // when
    let arg = schema.get('s');

    // then
    assert!(arg.is_some());
    assert_eq!(arg, Some(ArgumentType::Str));
}

#[test]
fn should_return_integer_argument() {
    // given
    let schema = Schema::from(vec![("i".to_string(), "int".to_string())]);

    // when
    let arg = schema.get('i');

    // then
    assert!(arg.is_some());
    assert_eq!(arg, Some(ArgumentType::Int));
}

#[test]
fn should_return_arguments() {
    // given
    let schema = Schema::from(vec![
        ("i".to_string(), "int".to_string()),
        ("s".to_string(), "string".to_string()),
        ("b".to_string(), "bool".to_string()),
    ]);

    // then
    assert_eq!(schema.get('i'), Some(ArgumentType::Int));
    assert_eq!(schema.get('s'), Some(ArgumentType::Str));
    assert_eq!(schema.get('b'), Some(ArgumentType::Bool));
}

#[test]
fn lib_should_return_none_when_not_defined() {
    // given
    let schema = Schema::new();

    // when
    let arg = schema.get('b');

    // then
    assert_eq!(arg, None);
}

#[test]
fn lib_should_return_bool_argument() {
    // given
    let schema = Schema::from(vec![("b".to_string(), "bool".to_string())]);

    // when
    let arg = schema.get('b');

    // then
    assert!(arg.is_some());
    assert_eq!(arg, Some(ArgumentType::Bool));
}

#[test]
fn should_get_type_from_string() {
    assert_eq!(ArgumentType::from("bool"), Some(ArgumentType::Bool));
    assert_eq!(ArgumentType::from("string"), Some(ArgumentType::Str));
    assert_eq!(ArgumentType::from("int"), Some(ArgumentType::Int));
}

#[test]
fn type_names_are_exactly_the_three() {
    for name in ["", "Bool", "boolean", "str", "integer", "int ", " int", "strin", "strings", "b"] {
        assert_eq!(ArgumentType::from(name), None, "{name:?}");
    }
}

#[test]
fn string_slices_name_argument_types() {
    assert_eq!("bool".arg_type(), Some(ArgumentType::Bool));
    assert_eq!("string".arg_type(), Some(ArgumentType::Str));
    assert_eq!("int".arg_type(), Some(ArgumentType::Int));
    assert_eq!("float".arg_type(), None);
}

#[test]
fn default_schema_declares_nothing() {
    let schema = Schema::default();
    for c in ['a', 'b', 'i', 's', '-', ' '] {
        assert_eq!(schema.get(c), None);
    }
}

#[test]
fn later_declaration_of_a_name_replaces_the_earlier() {
    let schema = Schema::from(vec![
        ("x".to_string(), "int".to_string()),
        ("y".to_string(), "bool".to_string()),
        ("x".to_string(), "string".to_string()),
    ]);
    assert_eq!(schema.get('x'), Some(ArgumentType::Str));
    assert_eq!(schema.get('y'), Some(ArgumentType::Bool));
}

#[test]
fn names_of_more_than_one_character_are_never_found() {
    let schema = Schema::from(vec![
        ("ab".to_string(), "int".to_string()),
        ("".to_string(), "bool".to_string()),
    ]);
    assert_eq!(schema.get('a'), None);
    assert_eq!(schema.get('b'), None);
}

#[test]
fn any_single_character_can_name_a_flag() {
    let schema = Schema::from(vec![
        ("é".to_string(), "int".to_string()),
        ("7".to_string(), "bool".to_string()),
        ("-".to_string(), "string".to_string()),
    ]);
    assert_eq!(schema.get('é'), Some(ArgumentType::Int));
    assert_eq!(schema.get('7'), Some(ArgumentType::Bool));
    assert_eq!(schema.get('-'), Some(ArgumentType::Str));
    assert_eq!(schema.get('e'), None);
}
