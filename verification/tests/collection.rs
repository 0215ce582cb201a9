use args::collection::Collection;
use args::schema::argument::ArgumentType;
use args::schema::Schema;
use args::token::parser::TokenParser;

#[test]
fn should_get_values_from_collection() {
    // given
    let schema = Schema::from(vec![
        ("i".to_string(), "int".to_string()),
        ("s".to_string(), "string".to_string()),
        ("b".to_string(), "bool".to_string()),
    ]);
    let parser = TokenParser::new()
        .args(vec!["app_name", "-i", "42", "-b", "-s", "string"])
        .schema(schema);
    let tokens = parser.collect();

    // when
    let collection = Collection::from(tokens);

    // then
    assert_eq!(collection.get_int("i"), Some(42));
    assert_eq!(collection.get_str("s"), Some("string"));
    assert!(collection.get_bool("b"));
}

#[test]
fn should_get_false_when_flag_not_set() {
    // given
    let schema = Schema::from(vec![("b".to_string(), "bool".to_string())]);
    let parser = TokenParser::new().args(vec!["app_name"]).schema(schema);
    let tokens = parser.collect();

    // when
    let collection = Collection::from(tokens);

    // then
    assert!(!collection.get_bool("b"));
}

#[test]
fn should_get_true_when_flag() {
    // given
    let schema = Schema::from(vec![("b".to_string(), "bool".to_string())]);
    let parser = TokenParser::new().args(vec!["app_name", "-b"]).schema(schema);
    let tokens = parser.collect();

    // when
    let collection = Collection::from(tokens);

    // then
    assert!(collection.get_bool("b"));
}

#[test]
fn collection_should_return_none_when_string_not_set() {
    // given
    let schema = Schema::from(vec![("s".to_string(), "string".to_string())]);
    let parser = TokenParser::new().args(vec!["app_name"]).schema(schema);
    let tokens = parser.collect();

    // when
    let collection = Collection::from(tokens);

    // then
    assert_eq!(collection.get_str("s"), None);
}

#[test]
fn should_return_string_value() {
    // given
    let schema = Schema::from(vec![("s".to_string(), "string".to_string())]);
    let parser = TokenParser::new().args(vec!["app_name", "-s", "val"]).schema(schema);
    let tokens = parser.collect();

    // when
    let collection = Collection::from(tokens);

    // then
    assert_eq!(collection.get_str("s"), Some("val"));
}

#[test]
fn collection_should_return_none_when_int_not_set() {
    // given
    let schema = Schema::from(vec![("i".to_string(), "int".to_string())]);
    let parser = TokenParser::new().args(vec!["app_name"]).schema(schema);
    let tokens = parser.collect();

    // when
    let collection = Collection::from(tokens);

    // then
    assert_eq!(collection.get_int("i"), None);
}

#[test]
fn collection_should_return_int() {
    // given
    let schema = Schema::from(vec![("i".to_string(), "int".to_string())]);
    let parser = TokenParser::new().args(vec!["app_name", "-i", "-42"]).schema(schema);
    let tokens = parser.collect();

    // when
    let collection = Collection::from(tokens);

    // then
    assert_eq!(collection.get_int("i"), Some(-42));
}

#[test]
#[should_panic]
fn should_panic_if_get_str_instead_of_get_int() {
    // given
    let schema = Schema::from(vec![("i".to_string(), "int".to_string())]);
    let parser = TokenParser::new().args(vec!["app_name"]).schema(schema);
    let tokens = parser.collect();

    // when
    let collection = Collection::from(tokens);

    // then
    assert!(collection.accepts("i", ArgumentType::Str), "Key not found in schema!");
    collection.get_str("i");
}

#[test]
#[should_panic]
fn should_panic_if_get_int_instead_of_get_str() {
    // given
    let schema = Schema::from(vec![("s".to_string(), "string".to_string())]);
    let parser = TokenParser::new().args(vec!["app_name"]).schema(schema);
    let tokens = parser.collect();

    // when
    let collection = Collection::from(tokens);

    // then
    assert!(collection.accepts("s", ArgumentType::Int), "Key not found in schema!");
    collection.get_int("s");
}

#[test]
#[should_panic]
fn should_panic_if_get_bool_instead_of_get_str() {
    // given
    let schema = Schema::from(vec![("s".to_string(), "string".to_string())]);
    let parser = TokenParser::new().args(vec!["app_name"]).schema(schema);
    let tokens = parser.collect();

    // when
    let collection = Collection::from(tokens);

    // then
    assert!(collection.accepts("s", ArgumentType::Bool), "Key not found in schema!");
    collection.get_bool("s");
}
