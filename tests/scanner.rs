use rlox::scanner::Scanner;
use rlox::token::{Literal, ScanError, ScanErrorKind, Token, TokenType};

fn scan(source: &str) -> (Vec<Token>, Vec<ScanError>) {
    let mut scanner = Scanner::new_from(source.to_string());
    let tokens = scanner.scan_tokens().clone();
    let errors = scanner.errors().clone();
    (tokens, errors)
}

fn kinds(tokens: &[Token]) -> Vec<TokenType> {
    tokens.iter().map(|t| t.token_type).collect()
}

#[test]
fn statement_with_comment() {
    let (tokens, errors) = scan("var x = 12.5; // comment\nprint x;");
    assert!(errors.is_empty());
    assert_eq!(
        kinds(&tokens),
        vec![
            TokenType::Var,
            TokenType::Identifier,
            TokenType::Equal,
            TokenType::Number,
            TokenType::Semicolon,
            TokenType::Print,
            TokenType::Identifier,
            TokenType::Semicolon,
            TokenType::Eof,
        ]
    );
    assert_eq!(tokens[1].lexeme, "x");
    assert_eq!(tokens[3].literal, Literal::Number("12.5".to_string()));
    match &tokens[3].literal {
        Literal::Number(n) => assert_eq!(n.parse::<f64>().unwrap(), 12.5),
        other => panic!("not a number: {:?}", other),
    }
    assert_eq!(tokens[5].line, 2);
    assert_eq!(tokens[6].lexeme, "x");
    assert_eq!(tokens[0].line, 1);
    assert_eq!(tokens[8].line, 2);
}

#[test]
fn two_character_operators() {
    let (tokens, errors) = scan("!=<=");
    assert!(errors.is_empty());
    assert_eq!(kinds(&tokens), vec![TokenType::BangEqual, TokenType::LessEqual, TokenType::Eof]);
    assert_eq!(tokens[0].lexeme, "!=");
    assert_eq!(tokens[1].lexeme, "<=");
}

#[test]
fn unterminated_string() {
    let (tokens, errors) = scan("\"abc");
    assert_eq!(kinds(&tokens), vec![TokenType::Eof]);
    assert_eq!(
        errors,
        vec![ScanError { kind: ScanErrorKind::UnterminatedString, line: 1 }]
    );
}

#[test]
fn unterminated_string_reports_opening_line() {
    let (tokens, errors) = scan("\n\"ab\ncd");
    assert_eq!(kinds(&tokens), vec![TokenType::Eof]);
    assert_eq!(tokens[0].line, 3);
    assert_eq!(
        errors,
        vec![ScanError { kind: ScanErrorKind::UnterminatedString, line: 2 }]
    );
}

#[test]
fn trailing_dot_is_not_part_of_number() {
    let (tokens, errors) = scan("1.");
    assert!(errors.is_empty());
    assert_eq!(kinds(&tokens), vec![TokenType::Number, TokenType::Dot, TokenType::Eof]);
    assert_eq!(tokens[0].literal, Literal::Number("1".to_string()));
    assert_eq!(tokens[0].lexeme, "1");
    assert_eq!(tokens[1].lexeme, ".");
}

#[test]
fn unexpected_character() {
    let (tokens, errors) = scan("@");
    assert_eq!(kinds(&tokens), vec![TokenType::Eof]);
    assert_eq!(
        errors,
        vec![ScanError { kind: ScanErrorKind::UnexpectedCharacter, line: 1 }]
    );
}

#[test]
fn scanning_continues_after_unexpected_character() {
    let (tokens, errors) = scan("a # b\n$");
    assert_eq!(kinds(&tokens), vec![TokenType::Identifier, TokenType::Identifier, TokenType::Eof]);
    assert_eq!(
        errors,
        vec![
            ScanError { kind: ScanErrorKind::UnexpectedCharacter, line: 1 },
            ScanError { kind: ScanErrorKind::UnexpectedCharacter, line: 2 },
        ]
    );
}

#[test]
fn empty_source_gives_only_eof() {
    let (tokens, errors) = scan("");
    assert!(errors.is_empty());
    assert_eq!(tokens.len(), 1);
    assert_eq!(tokens[0].token_type, TokenType::Eof);
    assert_eq!(tokens[0].lexeme, "");
    assert_eq!(tokens[0].line, 1);
    assert_eq!(tokens[0].literal, Literal::Nil);
}

#[test]
fn last_token_is_eof() {
    for source in ["", "(", "\"x", "@@@", "a\nb\n", "// only a comment", "1.2.3"] {
        let (tokens, _) = scan(source);
        assert_eq!(tokens.last().unwrap().token_type, TokenType::Eof);
        let eofs = tokens.iter().filter(|t| t.token_type == TokenType::Eof).count();
        assert_eq!(eofs, 1);
    }
}

#[test]
fn single_character_punctuation() {
    let (tokens, errors) = scan("(){},.-+;*/");
    assert!(errors.is_empty());
    assert_eq!(
        kinds(&tokens),
        vec![
            TokenType::LeftParen,
            TokenType::RightParen,
            TokenType::LeftBrace,
            TokenType::RightBrace,
            TokenType::Comma,
            TokenType::Dot,
            TokenType::Minus,
            TokenType::Plus,
            TokenType::Semicolon,
            TokenType::Star,
            TokenType::Slash,
            TokenType::Eof,
        ]
    );
}

#[test]
fn one_or_two_character_operators() {
    let (tokens, _) = scan("! != = == < <= > >= ===");
    assert_eq!(
        kinds(&tokens),
        vec![
            TokenType::Bang,
            TokenType::BangEqual,
            TokenType::Equal,
            TokenType::EqualEqual,
            TokenType::Less,
            TokenType::LessEqual,
            TokenType::Greater,
            TokenType::GreaterEqual,
            TokenType::EqualEqual,
            TokenType::Equal,
            TokenType::Eof,
        ]
    );
}

#[test]
fn all_keywords() {
    let (tokens, errors) =
        scan("and class else false for fun if nil or print return super this true var while");
    assert!(errors.is_empty());
    assert_eq!(
        kinds(&tokens),
        vec![
            TokenType::And,
            TokenType::Class,
            TokenType::Else,
            TokenType::False,
            TokenType::For,
            TokenType::Fun,
            TokenType::If,
            TokenType::Nil,
            TokenType::Or,
            TokenType::Print,
            TokenType::Return,
            TokenType::Super,
            TokenType::This,
            TokenType::True,
            TokenType::Var,
            TokenType::While,
            TokenType::Eof,
        ]
    );
}

#[test]
fn keyword_prefixes_and_case_are_identifiers() {
    let (tokens, _) = scan("andy orchid Class _var var1 fo");
    assert_eq!(tokens.len(), 7);
    for t in &tokens[..6] {
        assert_eq!(t.token_type, TokenType::Identifier);
        assert_eq!(t.literal, Literal::Nil);
    }
    assert_eq!(tokens[4].lexeme, "var1");
}

#[test]
fn identifiers_take_letters_digits_and_underscores() {
    let (tokens, _) = scan("a_1b2 x9");
    assert_eq!(kinds(&tokens), vec![TokenType::Identifier, TokenType::Identifier, TokenType::Eof]);
    assert_eq!(tokens[0].lexeme, "a_1b2");
    assert_eq!(tokens[1].lexeme, "x9");
}

#[test]
fn comment_runs_to_end_of_line_only() {
    let (tokens, _) = scan("a // b c\nd");
    assert_eq!(kinds(&tokens), vec![TokenType::Identifier, TokenType::Identifier, TokenType::Eof]);
    assert_eq!(tokens[1].lexeme, "d");
    assert_eq!(tokens[1].line, 2);
    let (tokens, _) = scan("// to the end");
    assert_eq!(kinds(&tokens), vec![TokenType::Eof]);
}

#[test]
fn string_literal_value_excludes_quotes() {
    let (tokens, errors) = scan("\"hello world\"");
    assert!(errors.is_empty());
    assert_eq!(kinds(&tokens), vec![TokenType::Strings, TokenType::Eof]);
    assert_eq!(tokens[0].lexeme, "\"hello world\"");
    assert_eq!(tokens[0].literal, Literal::String("hello world".to_string()));
}

#[test]
fn multi_line_string_advances_line() {
    let (tokens, errors) = scan("\"a\nb\nc\" x");
    assert!(errors.is_empty());
    assert_eq!(tokens[0].literal, Literal::String("a\nb\nc".to_string()));
    assert_eq!(tokens[0].line, 3);
    assert_eq!(tokens[1].lexeme, "x");
    assert_eq!(tokens[1].line, 3);
}

#[test]
fn string_round_trip_on_lexeme() {
    let (tokens, _) = scan("print \"one\" + \"\" + \"two\\n\";");
    for t in tokens.iter().filter(|t| t.token_type == TokenType::Strings) {
        let inner = &t.lexeme[1..t.lexeme.len() - 1];
        assert!(t.lexeme.starts_with('"') && t.lexeme.ends_with('"'));
        assert_eq!(t.literal, Literal::String(inner.to_string()));
    }
    assert_eq!(tokens[3].literal, Literal::String(String::new()));
}

#[test]
fn numbers_with_and_without_fraction() {
    let (tokens, _) = scan("123 4.56 7.x 0");
    assert_eq!(
        kinds(&tokens),
        vec![
            TokenType::Number,
            TokenType::Number,
            TokenType::Number,
            TokenType::Dot,
            TokenType::Identifier,
            TokenType::Number,
            TokenType::Eof,
        ]
    );
    assert_eq!(tokens[0].literal, Literal::Number("123".to_string()));
    assert_eq!(tokens[1].literal, Literal::Number("4.56".to_string()));
    assert_eq!(tokens[2].literal, Literal::Number("7".to_string()));
    assert_eq!(tokens[5].literal, Literal::Number("0".to_string()));
}

#[test]
fn non_ascii_characters_are_single_errors() {
    let (tokens, errors) = scan("é\"ü\"");
    assert_eq!(kinds(&tokens), vec![TokenType::Strings, TokenType::Eof]);
    assert_eq!(tokens[0].literal, Literal::String("ü".to_string()));
    assert_eq!(errors.len(), 1);
}

#[test]
fn relexing_non_literal_lexemes_keeps_kind() {
    let source = "(){},.-+;*/ ! != = == < <= > >= and class while this";
    let (tokens, errors) = scan(source);
    assert!(errors.is_empty());
    for t in &tokens {
        let (again, _) = scan(&t.lexeme);
        assert_eq!(again[0].token_type, t.token_type);
    }
}

#[test]
fn scanning_twice_gives_same_tokens() {
    let source = "fun f(a) { return a >= 1.5 and \"s\"; } @";
    let first = scan(source);
    let second = scan(source);
    assert_eq!(first, second);
}

#[test]
fn token_to_string_renders_kind_lexeme_literal() {
    let (tokens, _) = scan("x \"hi\" 3.25 +");
    assert_eq!(tokens[0].to_string(), "Identifier/x/nil");
    assert_eq!(tokens[1].to_string(), "Strings/\"hi\"/hi");
    assert_eq!(tokens[2].to_string(), "Number/3.25/3.25");
    assert_eq!(tokens[3].to_string(), "Plus/+/nil");
    assert_eq!(tokens[4].to_string(), "Eof//nil");
}

#[test]
fn token_new_and_boolean_literal() {
    let t = Token::new(TokenType::True, "true".to_string(), 4, Literal::Boolean(true));
    assert_eq!(t.token_type, TokenType::True);
    assert_eq!(t.line, 4);
    assert_eq!(t.to_string(), "True/true/true");
    let f = Token::new(TokenType::False, "false".to_string(), 1, Literal::Boolean(false));
    assert_eq!(f.to_string(), "False/false/false");
}

#[test]
fn kind_names() {
    assert_eq!(TokenType::LeftParen.name(), "LeftParen");
    assert_eq!(TokenType::GreaterEqual.name(), "GreaterEqual");
    assert_eq!(TokenType::Eof.name(), "Eof");
}
