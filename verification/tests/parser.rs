use args::schema::argument::ArgumentType;
use args::schema::Schema;
use args::token::parser::TokenParser;
use args::token::Token;

#[test]
fn parser_should_return_empty_token_collection_when_no_args() {
    // given
    let parser = TokenParser::new();

    // when
    let tokens = parser.collect();

    // then
    assert_eq!(tokens.size(), 0);
}

#[test]
fn lib_should_return_empty_token_collection_when_no_args() {
    // given
    let parser = TokenParser::new().args(Vec::new());

    // when
    let tokens = parser.collect();

    // then
    assert_eq!(tokens.size(), 0);
}

#[test]
fn should_interpret_first_arg_as_appname() {
    // given
    let parser = TokenParser::new().args(vec!["app_name"]);

    // when
    let tokens = parser.collect();

    // then
    assert_eq!(tokens.size(), 1);
}

#[test]
fn should_get_boolean_argument() {
    // given
    let schema = Schema::from(vec![("b".to_string(), "bool".to_string())]);
    let parser = TokenParser::new().args(vec!["app_name", "-b"]).schema(schema);

    // when
    let tokens = parser.collect();

    // then
    assert_eq!(tokens.size(), 2);
    assert_eq!(tokens.get(1), &Token::Argument(ArgumentType::Bool, "b".to_string()));
}

#[test]
fn should_get_string_argument() {
    // given
    let schema = Schema::from(vec![("s".to_string(), "string".to_string())]);
    let parser = TokenParser::new().args(vec!["app_name", "-s", "string"]).schema(schema);

    // when
    let tokens = parser.collect();

    // then
    assert_eq!(tokens.size(), 3);
    assert_eq!(tokens.get(1), &Token::Argument(ArgumentType::Str, "s".to_string()));
    assert_eq!(tokens.get(2), &Token::StrValue("string".to_string()));
}

#[test]
fn should_get_int_argument() {
    // given
    let schema = Schema::from(vec![("i".to_string(), "int".to_string())]);
    let parser = TokenParser::new().args(vec!["app_name", "-i", "42"]).schema(schema);

    // when
    let tokens = parser.collect();

    // then
    assert_eq!(tokens.size(), 3);
    assert_eq!(tokens.get(1), &Token::Argument(ArgumentType::Int, "i".to_string()));
    assert_eq!(tokens.get(2), &Token::IntValue(42));
}

#[test]
fn should_parse_multiple_arguments() {
    // given
    let schema = Schema::from(vec![
        ("i".to_string(), "int".to_string()),
        ("s".to_string(), "string".to_string()),
        ("b".to_string(), "bool".to_string()),
    ]);
    let parser = TokenParser::new()
        .args(vec!["app_name", "-i", "42", "-b", "-s", "string"])
        .schema(schema);

    // when
    let tokens = parser.collect();

    // then
    assert_eq!(tokens.size(), 6);
    assert_eq!(tokens.get(0), &Token::AppName);
    assert_eq!(tokens.get(1), &Token::Argument(ArgumentType::Int, "i".to_string()));
    assert_eq!(tokens.get(2), &Token::IntValue(42));
    assert_eq!(tokens.get(3), &Token::Argument(ArgumentType::Bool, "b".to_string()));
    assert_eq!(tokens.get(4), &Token::Argument(ArgumentType::Str, "s".to_string()));
    assert_eq!(tokens.get(5), &Token::StrValue("string".to_string()));
}
