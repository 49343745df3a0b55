//! Parsing whole source texts: a small lexer turns each text into tokens,
//! the filter removes what the grammar does not read, and the file rule
//! builds the module.

use vyper_parser::ast::{EventField, Module, ModuleStmt};
use vyper_parser::errors::{ErrorKind, SimpleError, VerboseError, VerboseErrorKind};
use vyper_parser::parsers::{parse_file, TokenResult};
use vyper_parser::tokens::{get_parse_tokens, TokenInfo, TokenType};

fn indentation(line: &str) -> (usize, usize) {
    let mut pos = 0;
    let mut column = 0;
    for b in line.bytes() {
        match b {
            b' ' => column += 1,
            b'\t' => column = (column / 8 + 1) * 8,
            _ => break,
        }
        pos += 1;
    }
    (pos, column)
}

fn lexeme_end(line: &str, pos: usize) -> Result<(TokenType, usize), String> {
    let bytes = line.as_bytes();
    let c = bytes[pos];
    let mut end = pos + 1;
    if c == b'#' {
        while end < bytes.len() && bytes[end] != b'\n' && bytes[end] != b'\r' {
            end += 1;
        }
        Ok((TokenType::COMMENT, end))
    } else if c.is_ascii_alphabetic() || c == b'_' {
        while end < bytes.len() && (bytes[end].is_ascii_alphanumeric() || bytes[end] == b'_') {
            end += 1;
        }
        Ok((TokenType::NAME, end))
    } else if c.is_ascii_digit() {
        while end < bytes.len() && (bytes[end].is_ascii_alphanumeric() || bytes[end] == b'.') {
            end += 1;
        }
        Ok((TokenType::NUMBER, end))
    } else if c == b'"' || c == b'\'' {
        while end < bytes.len() && bytes[end] != c {
            end += 1;
        }
        if end == bytes.len() {
            return Err(format!("unterminated string literal: {}", line));
        }
        Ok((TokenType::STRING, end + 1))
    } else if c.is_ascii_punctuation() {
        Ok((TokenType::OP, end))
    } else {
        Err(format!("unexpected character in: {}", line))
    }
}

/// Splits a source text into tokens the way Python's tokenizer does:
/// blank lines and comment lines end in NL, logical
/// lines end in NEWLINE (also the last one when the text ends without a line
/// break), changes of indentation give INDENT and DEDENT, and ENDMARKER
/// closes the stream.
fn tokenize<'a>(source: &'a str) -> Result<Vec<TokenInfo<'a>>, String> {
    let mut tokens: Vec<TokenInfo<'a>> = Vec::new();
    let mut indents: Vec<usize> = vec![0];
    let mut row = 0;
    for line in source.split_inclusive('\n') {
        row += 1;
        let (mut pos, column) = indentation(line);
        if pos == line.len() {
            break;
        }
        let first = line.as_bytes()[pos];
        if first == b'#' || first == b'\n' || first == b'\r' {
            if first == b'#' {
                let (typ, end) = lexeme_end(line, pos)?;
                tokens.push(TokenInfo { typ, string: &line[pos..end], start: (row, pos), end: (row, end), line });
                pos = end;
            }
            tokens.push(TokenInfo {
                typ: TokenType::NL,
                string: &line[pos..],
                start: (row, pos),
                end: (row, line.len()),
                line,
            });
            continue;
        }
        if column > *indents.last().unwrap() {
            indents.push(column);
            tokens.push(TokenInfo {
                typ: TokenType::INDENT,
                string: &line[..pos],
                start: (row, 0),
                end: (row, pos),
                line,
            });
        }
        while column < *indents.last().unwrap() {
            if !indents.contains(&column) {
                return Err("unindent does not match any outer indentation level".to_string());
            }
            indents.pop();
            tokens.push(TokenInfo {
                typ: TokenType::DEDENT,
                string: &line[pos..pos],
                start: (row, pos),
                end: (row, pos),
                line,
            });
        }
        let mut closed = false;
        while pos < line.len() {
            let c = line.as_bytes()[pos];
            if c == b' ' || c == b'\t' {
                pos += 1;
            } else if c == b'\n' || c == b'\r' {
                tokens.push(TokenInfo {
                    typ: TokenType::NEWLINE,
                    string: &line[pos..],
                    start: (row, pos),
                    end: (row, line.len()),
                    line,
                });
                closed = true;
                pos = line.len();
            } else {
                let (typ, end) = lexeme_end(line, pos)?;
                tokens.push(TokenInfo { typ, string: &line[pos..end], start: (row, pos), end: (row, end), line });
                pos = end;
            }
        }
        if !closed {
            tokens.push(TokenInfo {
                typ: TokenType::NEWLINE,
                string: &line[pos..],
                start: (row, pos),
                end: (row, pos + 1),
                line,
            });
        }
    }
    let tail = &source[source.len()..];
    for _ in 1..indents.len() {
        tokens.push(TokenInfo {
            typ: TokenType::DEDENT,
            string: tail,
            start: (row + 1, 0),
            end: (row + 1, 0),
            line: tail,
        });
    }
    tokens.push(TokenInfo {
        typ: TokenType::ENDMARKER,
        string: tail,
        start: (row + 1, 0),
        end: (row + 1, 0),
        line: tail,
    });
    Ok(tokens)
}

fn parse_tokens<'a>(source: &'a str) -> Result<Vec<TokenInfo<'a>>, String> {
    let tokens = tokenize(source)?;
    Ok(get_parse_tokens(tokens))
}

fn field(name: &str, typ: &str) -> EventField {
    EventField { name: name.to_string(), typ: typ.into() }
}

fn greet() -> ModuleStmt {
    ModuleStmt::EventDef {
        name: "Greet".to_string(),
        fields: vec![field("name", "bytes32"), field("age", "uint8")],
    }
}

fn other() -> ModuleStmt {
    ModuleStmt::EventDef {
        name: "Other".to_string(),
        fields: vec![field("info1", "uint256"), field("info2", "bool")],
    }
}

fn types_of(tokens: &[TokenInfo]) -> Vec<TokenType> {
    tokens.iter().map(|t| t.typ).collect()
}

#[test]
fn test_parse_file() {
    // Empty file
    let examples = vec!["", "  \t ", " \n\n   \t \n \t "];
    let expected: TokenResult<Module, SimpleError> = Ok((&[][..], Module { body: vec![] }));

    for inp in examples {
        let tokens = parse_tokens(inp).unwrap();
        let actual = parse_file::<SimpleError>(&tokens[..]);
        assert_eq!(actual, expected);
    }

    // Test one stmt
    let examples = vec![
        // No leading or trailing whitespace
        r"event Greet:
    name: bytes32
    age: uint8",
        // Leading whitespace
        r"
event Greet:
    name: bytes32
    age: uint8",
        // Leading and trailing whitespace
        r"
event Greet:
    name: bytes32
    age: uint8
",
    ];
    let expected: TokenResult<Module, SimpleError> = Ok((
        &[][..],
        Module {
            body: vec![ModuleStmt::EventDef {
                name: "Greet".to_string(),
                fields: vec![
                    EventField {
                        name: "name".to_string(),
                        typ: "bytes32".into(),
                    },
                    EventField {
                        name: "age".to_string(),
                        typ: "uint8".into(),
                    },
                ],
            }],
        },
    ));
    for inp in examples {
        let tokens = parse_tokens(inp).unwrap();
        let actual = parse_file::<SimpleError>(&tokens[..]);
        assert_eq!(actual, expected);
    }

    // More than one stmt
    let examples = vec![
        // No leading, mid, or trailing whitespace
        r"event Greet:
    name: bytes32
    age: uint8
event Other:
    info1: uint256
    info2: bool",
        // Leading whitespace
        r"
event Greet:
    name: bytes32
    age: uint8
event Other:
    info1: uint256
    info2: bool",
        // Leading and trailing whitespace
        r"
event Greet:
    name: bytes32
    age: uint8
event Other:
    info1: uint256
    info2: bool
",
        // Leading, mid, and trailing whitespace
        r"
event Greet:
    name: bytes32
    age: uint8

event Other:
    info1: uint256
    info2: bool
",
    ];
    let expected: TokenResult<Module, SimpleError> = Ok((
        &[][..],
        Module {
            body: vec![
                ModuleStmt::EventDef {
                    name: "Greet".to_string(),
                    fields: vec![
                        EventField {
                            name: "name".to_string(),
                            typ: "bytes32".into(),
                        },
                        EventField {
                            name: "age".to_string(),
                            typ: "uint8".into(),
                        },
                    ],
                },
                ModuleStmt::EventDef {
                    name: "Other".to_string(),
                    fields: vec![
                        EventField {
                            name: "info1".to_string(),
                            typ: "uint256".into(),
                        },
                        EventField {
                            name: "info2".to_string(),
                            typ: "bool".into(),
                        },
                    ],
                },
            ],
        },
    ));
    for inp in examples {
        let tokens = parse_tokens(inp).unwrap();
        let actual = parse_file::<SimpleError>(&tokens[..]);
        assert_eq!(actual, expected);
    }
}

#[test]
fn lexer_gives_the_expected_token_classes() {
    let tokens = tokenize("\nevent Greet:\n    name: bytes32\n\n    age: uint8").unwrap();
    assert_eq!(
        types_of(&tokens),
        vec![
            TokenType::NL,
            TokenType::NAME,
            TokenType::NAME,
            TokenType::OP,
            TokenType::NEWLINE,
            TokenType::INDENT,
            TokenType::NAME,
            TokenType::OP,
            TokenType::NAME,
            TokenType::NEWLINE,
            TokenType::NL,
            TokenType::NAME,
            TokenType::OP,
            TokenType::NAME,
            TokenType::NEWLINE,
            TokenType::DEDENT,
            TokenType::ENDMARKER,
        ]
    );
    assert_eq!(tokens[1].string, "event");
    assert_eq!(tokens[2].string, "Greet");
    assert_eq!(tokens[2].start, (2, 6));
    assert_eq!(tokens[2].end, (2, 11));
    assert_eq!(tokens[5].string, "    ");
}

#[test]
fn blank_source_gives_the_empty_module() {
    for inp in ["", "\n", "\n\n\n", "   \n\t\n", "# only a comment", "# one\n\n# two\n   # three\n"] {
        let tokens = parse_tokens(inp).unwrap();
        assert_eq!(types_of(&tokens), vec![TokenType::ENDMARKER]);
        let actual = parse_file::<SimpleError>(&tokens[..]);
        assert_eq!(actual, Ok((&[][..], Module { body: vec![] })));
    }
}

#[test]
fn greet_is_parsed_and_the_stream_is_used_up() {
    let source = "event Greet:\n    name: bytes32\n    age: uint8\n";
    let tokens = parse_tokens(source).unwrap();
    assert_eq!(tokens.len(), 15);
    assert_eq!(tokens[14].typ, TokenType::ENDMARKER);
    let (rest, module) = parse_file::<SimpleError>(&tokens[..]).unwrap();
    assert!(rest.is_empty());
    assert_eq!(module, Module { body: vec![greet()] });
    let (rest, module) = parse_file::<VerboseError>(&tokens[..]).unwrap();
    assert!(rest.is_empty());
    assert_eq!(module.body.len(), 1);
}

#[test]
fn two_statements_with_and_without_blank_lines_between() {
    let tight = "event Greet:\n    name: bytes32\n    age: uint8\nevent Other:\n    info1: uint256\n    info2: bool\n";
    let one = "event Greet:\n    name: bytes32\n    age: uint8\n\nevent Other:\n    info1: uint256\n    info2: bool\n";
    let many = "\n\nevent Greet:\n    name: bytes32\n    age: uint8\n\n\n   \n# between\nevent Other:\n    info1: uint256\n    info2: bool\n\n\n";
    let expected = Module { body: vec![greet(), other()] };
    let mut trees = Vec::new();
    for inp in [tight, one, many] {
        let tokens = parse_tokens(inp).unwrap();
        let (rest, module) = parse_file::<SimpleError>(&tokens[..]).unwrap();
        assert!(rest.is_empty());
        trees.push(module);
    }
    assert_eq!(trees[0], expected);
    assert_eq!(trees[0], trees[1]);
    assert_eq!(trees[0], trees[2]);
}

#[test]
fn blank_lines_inside_a_block_do_not_change_the_tree() {
    let plain = "event Greet:\n    name: bytes32\n    age: uint8\n";
    let spaced = "event Greet:\n\n    name: bytes32\n    # the age\n\n    age: uint8\n";
    let a = parse_tokens(plain).unwrap();
    let b = parse_tokens(spaced).unwrap();
    assert_ne!(a, b);
    let (_, tree_a) = parse_file::<SimpleError>(&a[..]).unwrap();
    let (_, tree_b) = parse_file::<SimpleError>(&b[..]).unwrap();
    assert_eq!(tree_a, tree_b);
    assert_eq!(tree_a, Module { body: vec![greet()] });
}

#[test]
fn a_blank_token_put_anywhere_changes_nothing() {
    let source = "event Greet:\n    name: bytes32\n    age: uint8\nevent Other:\n    info1: uint256\n    info2: bool\n";
    let raw = tokenize(source).unwrap();
    let kept = get_parse_tokens(raw.clone());
    let expected = parse_file::<SimpleError>(&kept[..]);
    assert_eq!(expected, Ok((&[][..], Module { body: vec![greet(), other()] })));
    for typ in [TokenType::NL, TokenType::COMMENT] {
        for at in 0..=raw.len() {
            let mut with_blank = raw.clone();
            with_blank.insert(at, TokenInfo { typ, string: "\n", start: (0, 0), end: (0, 1), line: "\n" });
            let kept_too = get_parse_tokens(with_blank);
            assert_eq!(kept_too, kept);
            assert_eq!(parse_file::<SimpleError>(&kept_too[..]), expected);
        }
    }
}

#[test]
fn every_field_is_read_in_the_order_of_its_declaration() {
    for n in 1..=6usize {
        let mut source = String::from("event Many:\n");
        let mut expected = Vec::new();
        for i in 0..n {
            source.push_str(&format!("    field{}: type{}\n", i, n - i));
            expected.push(field(&format!("field{}", i), &format!("type{}", n - i)));
        }
        let tokens = parse_tokens(&source).unwrap();
        assert_eq!(tokens.len(), 6 + 4 * n + 1);
        let (rest, module) = parse_file::<SimpleError>(&tokens[..]).unwrap();
        assert!(rest.is_empty());
        assert_eq!(module.body.len(), 1);
        let ModuleStmt::EventDef { name, fields } = &module.body[0];
        assert_eq!(name, "Many");
        assert_eq!(fields.len(), n);
        assert_eq!(fields, &expected);
    }
}

#[test]
fn a_statement_that_breaks_off_makes_the_file_fail() {
    // The second event has a number where the type of its field belongs.
    let source = "event Greet:\n    name: bytes32\nevent Other:\n    info1: 256\n";
    let tokens = parse_tokens(source).unwrap();
    // The statements end where the second event starts; the end marker is
    // required there and the keyword stands in its place.
    let failed = parse_file::<SimpleError>(&tokens[..]);
    assert_eq!(failed, Err(SimpleError { input: &tokens[10..], kind: ErrorKind::Verify }));
    assert_eq!(tokens[10].string, "event");
    let failed = parse_file::<VerboseError>(&tokens[..]);
    assert_eq!(
        failed,
        Err(VerboseError { errors: vec![(&tokens[10..], VerboseErrorKind::Kind(ErrorKind::Verify))] })
    );
}

#[test]
fn a_file_without_end_marker_fails_at_its_end() {
    let source = "event Greet:\n    name: bytes32\n";
    let tokens = parse_tokens(source).unwrap();
    let cut = &tokens[..tokens.len() - 1];
    let failed = parse_file::<SimpleError>(cut);
    assert_eq!(failed, Err(SimpleError { input: &cut[cut.len()..], kind: ErrorKind::Eof }));
    // No token at all: the end marker is missing as well.
    let none: Vec<TokenInfo> = Vec::new();
    let failed = parse_file::<SimpleError>(&none[..]);
    assert_eq!(failed, Err(SimpleError { input: &none[..], kind: ErrorKind::Eof }));
}

#[test]
fn tokens_after_the_end_marker_are_left() {
    let source = "event Greet:\n    name: bytes32\n    age: uint8\n";
    let mut tokens = parse_tokens(source).unwrap();
    let extra = TokenInfo { typ: TokenType::NAME, string: "extra", start: (9, 0), end: (9, 5), line: "extra" };
    tokens.push(extra);
    let (rest, module) = parse_file::<SimpleError>(&tokens[..]).unwrap();
    assert_eq!(rest, &[extra][..]);
    assert_eq!(module, Module { body: vec![greet()] });
}
