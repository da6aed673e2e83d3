use fmn_passgen::parser::ParseErrorKind;
use fmn_passgen::parser::anychar_escaped_transform;
use fmn_passgen::parser::definition;
use fmn_passgen::parser::digit;
use fmn_passgen::parser::identifier;
use fmn_passgen::parser::key_value;
use fmn_passgen::parser::key_value_seq;
use fmn_passgen::parser::nonzero_digit;
use fmn_passgen::parser::not_escaped;
use fmn_passgen::parser::parse;
use fmn_passgen::parser::repeat;
use fmn_passgen::types::ExpressionItem;
use fmn_passgen::types::KeyValue;
use fmn_passgen::types::Source;

fn chars(s: &str) -> Vec<char> {
    s.chars().collect()
}

#[test]
fn test_nonzero_digit_ok() {
    let result = nonzero_digit(&chars("1"), 0).unwrap();
    assert_eq!(result.0, '1');
}

#[test]
fn test_nonzero_digit_err() {
    nonzero_digit(&chars("0"), 0).unwrap_err();
}

#[test]
fn test_digit_ok() {
    let result = digit(&chars("0"), 0).unwrap();
    assert_eq!(result.0, '0');
}

#[test]
fn test_digit_err() {
    digit(&chars("x"), 0).unwrap_err();
}

#[test]
fn test_identifier_ok() {
    let result = identifier(&chars("foo1"), 0).unwrap();
    assert_eq!(result.0, "foo1");
}

#[test]
fn test_identifier_err() {
    identifier(&chars("1"), 0).unwrap_err();
}

#[test]
fn test_not_escaped_ok() {
    let result = not_escaped(&chars("x"), 0).unwrap();
    assert_eq!(result.0, 'x');
}

#[test]
fn test_not_escaped_err() {
    not_escaped(&chars("\\"), 0).unwrap_err();
}

#[test]
fn test_anychar_escaped_transform() {
    let expectations = [
        ("x", "x".to_owned()),
        ("xx", "xx".to_owned()),
        ("x\\\\", "x\\".to_owned()),
        ("x\\[", "x[".to_owned()),
        ("x\\[\\]\\{\\}\\(\\)\\\\x", "x[]{}()\\x".to_owned()),
    ];

    for (input, expected) in expectations.into_iter() {
        let result = anychar_escaped_transform(&chars(input), 0).unwrap();
        assert_eq!(result.0, expected);
    }
}

#[test]
fn test_repeat_ok() {
    let expectations = [("!99", 99), ("!1", 1)];
    for (input, expected) in expectations.into_iter() {
        let result = repeat(&chars(input), 0).unwrap();
        assert_eq!(result.0, expected);
    }
}

#[test]
fn test_repeat_err() {
    let parameters = ["99", "!0", "!x", "100"];
    for parameter in parameters.into_iter() {
        repeat(&chars(parameter), 0).unwrap_err();
    }
}

#[test]
fn test_key_value_ok() {
    let expectations = [
        ("min = 1", KeyValue::Min(1)),
        ("max = 1", KeyValue::Max(1)),
        ("min=1", KeyValue::Min(1)),
        ("max=1", KeyValue::Max(1)),
    ];
    for (input, expected) in expectations.into_iter() {
        let result = key_value(&chars(input), 0).unwrap();
        assert_eq!(result.0, expected);
    }
}

#[test]
fn test_key_value_err() {
    let parameters = ["min = -1", "max= 1", "max =1", "max  =  1", "max = 256"];
    for parameter in parameters.into_iter() {
        key_value(&chars(parameter), 0).unwrap_err();
    }
}

#[test]
fn test_key_value_seq_ok() {
    let expectations = [
        ("min = 1,", vec![KeyValue::Min(1)]),
        ("min = 1,min = 1,", vec![KeyValue::Min(1), KeyValue::Min(1)]),
        (
            "min = 1, min = 1,",
            vec![KeyValue::Min(1), KeyValue::Min(1)],
        ),
    ];
    for (input, expected) in expectations.into_iter() {
        let result = key_value_seq(&chars(input), 0).unwrap();
        assert_eq!(result.0, expected);
    }
}

#[test]
fn test_definition_ok() {
    let expectations = ["foo#(word)"];
    let defs = Vec::new();
    for input in expectations.into_iter() {
        let result = definition(&chars(input), 0, &defs).unwrap();
        assert_eq!((result.0).0, "foo");
    }
}

#[test]
fn test_parse_smoke() {
    let parameters = [
        "(word)",
        "(symbol)",
        "(letter)",
        "(digit)",
        "([abcd])",
        "([\\]])",
        "(word)(word)",
        "(1@word)",
        "(1@word: min=3)",
        "(1@word:min = 3)",
        "(1@word:min=3,max=11)",
        "(word | reversed|lower)",
        "(word)!4",
        "{(word:min=3, max=11 | lower)(1@symbol)(word | upper)(1@symbol)}!2(digit)!4(symbol)",
    ];
    for parameter in parameters.into_iter() {
        println!("{}", parameter);
        parse(parameter).unwrap();
    }
}

#[test]
fn test_character_list_escaped_bracket() {
    let expr = parse("([\\]])").unwrap();
    assert_eq!(expr.items.len(), 1);
    match &expr.items[0] {
        ExpressionItem::Block(b) => match &b.source.source {
            Source::CharacterList(cs) => assert_eq!(cs, "]"),
            other => panic!("expected a character list, got {:?}", other),
        },
        ExpressionItem::Group(_) => panic!("expected a block"),
    }
}

#[test]
fn test_parse_structure_of_big_template() {
    let expr = parse(
        "{(word:min=3, max=11 | lower)(1@symbol)(word | upper)(1@symbol)}!2(digit)!4(symbol)",
    )
    .unwrap();
    assert_eq!(expr.items.len(), 3);
    match &expr.items[0] {
        ExpressionItem::Group(g) => {
            assert_eq!(g.repeat, 2);
            assert_eq!(g.blocks.len(), 4);
            match &g.blocks[0].source.source {
                Source::Word(min, max) => {
                    assert_eq!(*min, Some(3));
                    assert_eq!(*max, Some(11));
                },
                other => panic!("expected a word source, got {:?}", other),
            }
            assert_eq!(g.blocks[1].source.label, Some(1));
            assert_eq!(g.blocks[3].source.label, Some(1));
        },
        ExpressionItem::Block(_) => panic!("expected a group"),
    }
    match &expr.items[1] {
        ExpressionItem::Block(b) => {
            assert_eq!(b.repeat, 4);
            assert!(b.filters.is_empty());
            assert!(matches!(b.source.source, Source::Digit));
        },
        ExpressionItem::Group(_) => panic!("expected a block"),
    }
    match &expr.items[2] {
        ExpressionItem::Block(b) => {
            assert_eq!(b.repeat, 1);
            assert!(matches!(b.source.source, Source::Symbol));
        },
        ExpressionItem::Group(_) => panic!("expected a block"),
    }
}

#[test]
fn test_unterminated_block_is_an_error() {
    let e = parse("(word").unwrap_err();
    assert_eq!(e.kind, ParseErrorKind::UnterminatedConstruct);
}

#[test]
fn test_unterminated_group_is_an_error() {
    let e = parse("{(word)").unwrap_err();
    assert_eq!(e.kind, ParseErrorKind::UnterminatedConstruct);
}

#[test]
fn test_unterminated_character_list_is_an_error() {
    let e = parse("([abc").unwrap_err();
    assert_eq!(e.kind, ParseErrorKind::UnterminatedConstruct);
}

#[test]
fn test_unknown_source_is_an_error() {
    let e = parse("(nope)").unwrap_err();
    assert_eq!(e.kind, ParseErrorKind::UnknownSource);
}

#[test]
fn test_invalid_escape_is_an_error() {
    let e = parse("([\\x])").unwrap_err();
    assert_eq!(e.kind, ParseErrorKind::InvalidEscape);
}

#[test]
fn test_misplaced_key_value_is_an_error() {
    let e = parse("(letter:min=3)").unwrap_err();
    assert_eq!(e.kind, ParseErrorKind::MisplacedKeyValue);
}

#[test]
fn test_oversized_key_value_is_an_error() {
    let e = parse("(word:min=256)").unwrap_err();
    assert_eq!(e.kind, ParseErrorKind::InvalidNumericLiteral(256, 0, 255));
}

#[test]
fn test_trailing_input_is_an_error() {
    let e = parse("(word)x").unwrap_err();
    assert_eq!(e.kind, ParseErrorKind::UnexpectedInput);
    assert_eq!(e.at, 6);
}

#[test]
fn test_duplicate_min_last_wins() {
    let expr = parse("(word:min=2,min=9)").unwrap();
    match &expr.items[0] {
        ExpressionItem::Block(b) => match &b.source.source {
            Source::Word(min, max) => {
                assert_eq!(*min, Some(9));
                assert_eq!(*max, None);
            },
            other => panic!("expected a word source, got {:?}", other),
        },
        ExpressionItem::Group(_) => panic!("expected a block"),
    }
}

#[test]
fn test_keywords_are_case_insensitive() {
    parse("(WORD)(Letter)(SyMbOl)(DIGIT)").unwrap();
    parse("(word | UPPER)").unwrap();
}

#[test]
fn test_definitions_resolve_in_order() {
    parse("foo#(digit); (foo)!3").unwrap();
    parse("a#(digit), b#(a)(a); (b)").unwrap();
    parse("(undefined)").unwrap_err();
}
