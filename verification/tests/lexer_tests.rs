use fire_front::lexer::tokenize;
use fire_front::diagnostics::CompileException;
use fire_front::token::Token;

fn toks(text: &str) -> Vec<Token> {
    tokenize(text).expect("text should lex")
}

fn lex_err(text: &str) -> CompileException {
    match tokenize(text) {
        Ok(_) => panic!("text should not lex"),
        Err(e) => e,
    }
}

#[test]
fn rescanning_is_identical() {
    let text = "fn add(a, b) { a + b } // done\n\"s\" 0x1F 3.25 @note";
    let first = toks(text);
    let second = toks(text);
    assert_eq!(format!("{:?}", first), format!("{:?}", second));
}

#[test]
fn longest_match_plus_assign() {
    let ts = toks("+=");
    assert_eq!(ts.len(), 1);
    assert!(matches!(ts[0], Token::PlusAssign));
}

#[test]
fn longest_match_all_compounds() {
    let cases: Vec<(&str, Token)> = vec![
        ("+=", Token::PlusAssign),
        ("++", Token::Increment),
        ("-=", Token::MinusAssign),
        ("--", Token::Decrement),
        ("*=", Token::MultiplyAssign),
        ("/=", Token::DivideAssign),
        ("%=", Token::ModAssign),
        ("&&", Token::StrictAnd),
        ("||", Token::StrictOr),
        ("==", Token::Equals),
        ("=>", Token::FatArrow),
        (">=", Token::GreaterEqual),
        ("<=", Token::LessEqual),
        ("::", Token::Accesser),
        ("!=", Token::NotEqual),
    ];
    for (text, expected) in cases {
        let ts = toks(text);
        assert_eq!(ts.len(), 1, "{:?}", text);
        assert_eq!(format!("{:?}", ts[0]), format!("{:?}", expected));
    }
}

#[test]
fn single_character_operators() {
    let ts = toks("+ - * / % & | ! ^ = > < : , . ( ) { } [ ]");
    let expected = vec![
        Token::Plus,
        Token::Minus,
        Token::Multiply,
        Token::Divide,
        Token::Mod,
        Token::And,
        Token::Or,
        Token::Not,
        Token::Xor,
        Token::Assign,
        Token::Greater,
        Token::Less,
        Token::Colon,
        Token::Comma,
        Token::Dot,
        Token::OpenParen,
        Token::CloseParen,
        Token::OpenBrace,
        Token::CloseBrace,
        Token::OpenBracket,
        Token::CloseBracket,
    ];
    assert_eq!(format!("{:?}", ts), format!("{:?}", expected));
}

#[test]
fn decimal_integer_value() {
    let ts = toks("4096");
    assert_eq!(ts.len(), 1);
    match &ts[0] {
        Token::Int(n) => assert_eq!(*n, 4096),
        other => panic!("expected an integer token, got {:?}", other),
    }
}

#[test]
fn hex_integer_value() {
    let ts = toks("0xFF");
    assert_eq!(ts.len(), 1);
    match &ts[0] {
        Token::Int(n) => assert_eq!(*n, 255),
        other => panic!("expected an integer token, got {:?}", other),
    }
}

#[test]
fn binary_integer_value() {
    let ts = toks("0b101");
    assert_eq!(ts.len(), 1);
    match &ts[0] {
        Token::Int(n) => assert_eq!(*n, 5),
        other => panic!("expected an integer token, got {:?}", other),
    }
}

#[test]
fn float_literal_single_precision() {
    let ts = toks("3.25");
    assert_eq!(ts.len(), 1);
    match &ts[0] {
        Token::Num(m) => {
            assert_eq!(m.whole, 3);
            assert_eq!(m.frac, vec![2u8, 5u8]);
            let mut value = m.whole as f32;
            let mut scale = 0.1f32;
            for d in &m.frac {
                value += scale * (*d as f32);
                scale /= 10f32;
            }
            assert!((value - 3.25f32).abs() < f32::EPSILON * 4.0);
        }
        other => panic!("expected a floating token, got {:?}", other),
    }
}

#[test]
fn trailing_f_coerces_integer() {
    let ts = toks("12f");
    assert_eq!(ts.len(), 1);
    match &ts[0] {
        Token::Num(m) => {
            assert_eq!(m.whole, 12);
            assert!(m.frac.is_empty());
        }
        other => panic!("expected a floating token, got {:?}", other),
    }
}

#[test]
fn zero_literals() {
    let ts = toks("0 0f 0.5 0x 0b11f");
    assert_eq!(ts.len(), 5);
    assert!(matches!(ts[0], Token::Int(0)));
    match &ts[1] {
        Token::Num(m) => {
            assert_eq!(m.whole, 0);
            assert!(m.frac.is_empty());
        }
        other => panic!("expected a floating token, got {:?}", other),
    }
    match &ts[2] {
        Token::Num(m) => {
            assert_eq!(m.whole, 0);
            assert_eq!(m.frac, vec![5u8]);
        }
        other => panic!("expected a floating token, got {:?}", other),
    }
    assert!(matches!(ts[3], Token::Int(0)));
    match &ts[4] {
        Token::Num(m) => {
            assert_eq!(m.whole, 3);
            assert!(m.frac.is_empty());
        }
        other => panic!("expected a floating token, got {:?}", other),
    }
}

#[test]
fn leading_zero_drops_to_decimal() {
    let ts = toks("0525");
    assert_eq!(ts.len(), 1);
    match &ts[0] {
        Token::Int(n) => assert_eq!(*n, 525),
        other => panic!("expected an integer token, got {:?}", other),
    }
}

#[test]
fn whole_number_then_dot_no_digits() {
    let ts = toks("12.");
    assert_eq!(ts.len(), 1);
    match &ts[0] {
        Token::Num(m) => {
            assert_eq!(m.whole, 12);
            assert!(m.frac.is_empty());
        }
        other => panic!("expected a floating token, got {:?}", other),
    }
}

#[test]
fn string_with_newline_escape() {
    let ts = toks("\"ab\\ncd\"");
    assert_eq!(ts.len(), 1);
    match &ts[0] {
        Token::StringLit(s) => assert_eq!(s, "ab\ncd"),
        other => panic!("expected a string token, got {:?}", other),
    }
}

#[test]
fn string_escapes_tab_backslash_and_literal() {
    let ts = toks("\"a\\tb\\\\c\\qd\"");
    assert_eq!(ts.len(), 1);
    match &ts[0] {
        Token::StringLit(s) => assert_eq!(s, "a\tb\\cqd"),
        other => panic!("expected a string token, got {:?}", other),
    }
}

#[test]
fn string_escaped_quote_stays_inside() {
    let ts = toks("\"a\\\"b\"");
    assert_eq!(ts.len(), 1);
    match &ts[0] {
        Token::StringLit(s) => assert_eq!(s, "a\"b"),
        other => panic!("expected a string token, got {:?}", other),
    }
}

#[test]
fn single_quoted_string() {
    let ts = toks("'hello \"there\"'");
    assert_eq!(ts.len(), 1);
    match &ts[0] {
        Token::StringLit(s) => assert_eq!(s, "hello \"there\""),
        other => panic!("expected a string token, got {:?}", other),
    }
}

#[test]
fn unterminated_string_positions_at_opening_quote() {
    match lex_err("\"abc") {
        CompileException::UnfinishedString(line, col) => {
            assert_eq!(line, 1);
            assert_eq!(col, 1);
        }
        other => panic!("expected an unfinished-string diagnostic, got {:?}", other.message()),
    }
}

#[test]
fn unterminated_string_on_later_line() {
    match lex_err("+\n  \"abc") {
        CompileException::UnfinishedString(line, col) => {
            assert_eq!(line, 2);
            assert_eq!(col, 3);
        }
        other => panic!("expected an unfinished-string diagnostic, got {:?}", other.message()),
    }
}

#[test]
fn backslash_at_end_of_input() {
    match lex_err("\"ab\\") {
        CompileException::UnrecognizedEscape(line, col) => {
            assert_eq!(line, 1);
            assert_eq!(col, 4);
        }
        other => panic!("expected an unrecognized-escape diagnostic, got {:?}", other.message()),
    }
}

#[test]
fn unrecognized_character_with_position() {
    match lex_err("a b\n  #") {
        CompileException::UnrecognizedToken(text, line, col) => {
            assert_eq!(text, "#");
            assert_eq!(line, 2);
            assert_eq!(col, 3);
        }
        other => panic!("expected an unrecognized-token diagnostic, got {:?}", other.message()),
    }
}

#[test]
fn keywords_lex_to_keyword_tokens() {
    let ts = toks("fn pc struct trait enum group private let const self import impl in for while if else");
    let shown: Vec<String> = ts.iter().map(|t| format!("{:?}", t)).collect();
    let wanted = vec![
        "FuncDef", "ProcDef", "StructDef", "TraitDef", "EnumDef", "GroupDef", "Private", "Let",
        "Const", "SelfIdent", "Import", "Implementation", "In", "For", "While", "If", "Else",
    ];
    assert_eq!(shown, wanted);
}

#[test]
fn identifiers_types_annotations() {
    let ts = toks("count2 MyType Self @entry");
    assert_eq!(ts.len(), 4);
    match &ts[0] {
        Token::Identifier(s) => assert_eq!(s, "count2"),
        other => panic!("expected an identifier, got {:?}", other),
    }
    match &ts[1] {
        Token::Type(s) => assert_eq!(s, "MyType"),
        other => panic!("expected a type token, got {:?}", other),
    }
    assert!(matches!(ts[2], Token::SelfType));
    match &ts[3] {
        Token::Annotation(s) => assert_eq!(s, "entry"),
        other => panic!("expected an annotation, got {:?}", other),
    }
}

#[test]
fn line_comment_is_discarded_and_counts_lines() {
    let ts = toks("a // all of this vanishes + -\nb");
    assert_eq!(ts.len(), 2);
    match (&ts[0], &ts[1]) {
        (Token::Identifier(a), Token::Identifier(b)) => {
            assert_eq!(a, "a");
            assert_eq!(b, "b");
        }
        other => panic!("expected two identifiers, got {:?}", other),
    }
    // The newline inside the comment still advances the line counter.
    match lex_err("// note\n#") {
        CompileException::UnrecognizedToken(text, line, col) => {
            assert_eq!(text, "#");
            assert_eq!(line, 2);
            assert_eq!(col, 1);
        }
        other => panic!("expected an unrecognized-token diagnostic, got {:?}", other.message()),
    }
}

#[test]
fn block_comment_is_discarded() {
    let ts = toks("a /* b + c\n d */ e");
    assert_eq!(ts.len(), 2);
    match (&ts[0], &ts[1]) {
        (Token::Identifier(a), Token::Identifier(e)) => {
            assert_eq!(a, "a");
            assert_eq!(e, "e");
        }
        other => panic!("expected two identifiers, got {:?}", other),
    }
}

#[test]
fn unterminated_block_comment_is_a_diagnostic() {
    match lex_err("a /* never closed") {
        CompileException::UnrecognizedToken(text, line, col) => {
            assert_eq!(text, "/*");
            assert_eq!(line, 1);
            assert_eq!(col, 3);
        }
        other => panic!("expected an unrecognized-token diagnostic, got {:?}", other.message()),
    }
}

#[test]
fn empty_input_gives_no_tokens() {
    let ts = toks("");
    assert!(ts.is_empty());
}
