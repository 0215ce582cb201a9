use args::app::{get_schema, App};
use args::schema::argument::ArgumentType;
use args::token::parser::ParseError;

#[test]
fn should_return_false_by_default() {
    // given
    let args = vec!["app_name".to_string()];

    // when
    let app = App::new(args);

    // then
    assert!(!app.get_collection().get_bool("b"))
}

#[test]
fn should_return_true_when_flag_set() {
    // given
    let args = vec!["app_name".to_string(), "-b".to_string()];

    // when
    let app = App::new(args);

    // then
    assert!(app.get_collection().get_bool("b"))
}

#[test]
fn app_should_return_none_when_string_not_set() {
    // given
    let args = vec!["app_name".to_string()];

    // when
    let app = App::new(args);

    // then
    assert_eq!(app.get_collection().get_str("s"), None)
}

#[test]
fn should_return_string() {
    // given
    let args = vec!["app_name".to_string(), "-s".to_string(), "foo".to_string()];

    // when
    let app = App::new(args);

    // then
    assert_eq!(app.get_collection().get_str("s"), Some("foo"))
}

#[test]
fn app_should_return_none_when_int_not_set() {
    // given
    let args = vec!["app_name".to_string()];

    // when
    let app = App::new(args);

    // then
    assert_eq!(app.get_collection().get_int("i"), None)
}

#[test]
fn app_should_return_int() {
    // given
    let args = vec!["app_name".to_string(), "-i".to_string(), "-42".to_string()];

    // when
    let app = App::new(args);

    // then
    assert_eq!(app.get_collection().get_int("i"), Some(-42))
}

#[test]
fn program_declares_a_string_a_boolean_and_an_integer_flag() {
    let schema = get_schema();
    assert_eq!(schema.get('s'), Some(ArgumentType::Str));
    assert_eq!(schema.get('b'), Some(ArgumentType::Bool));
    assert_eq!(schema.get('i'), Some(ArgumentType::Int));
    assert_eq!(schema.get('x'), None);
}

#[test]
fn report_falls_back_to_empty_string_zero_and_false() {
    let app = App::new(vec!["app_name".to_string()]);
    assert_eq!(app.report(), ("", 0, false));
}

#[test]
fn report_gives_the_values_that_were_passed() {
    let args = ["app_name", "-b", "-i", "-7", "-s", "text"];
    let app = App::new(args.iter().map(|arg| arg.to_string()).collect());
    assert_eq!(app.report(), ("text", -7, true));
}

#[test]
fn program_rejects_arguments_it_does_not_declare() {
    let args = ["app_name", "-b", "-x"];
    let outcome = App::try_new(args.iter().map(|arg| arg.to_string()).collect());
    assert_eq!(outcome.err(), Some(ParseError::UnrecognizedFlag(2)));
}

#[test]
fn program_accepts_what_it_declares() {
    let args = ["app_name", "-s", "-b", "-b"];
    let app = App::try_new(args.iter().map(|arg| arg.to_string()).collect()).ok().unwrap();
    assert_eq!(app.report(), ("-b", 0, true));
}
