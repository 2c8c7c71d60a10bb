use cli_runtime::syntax::{
    read_declaration, read_declaration_with, Declaration, Expected, SyntaxError, Token,
};

fn word(text: &str) -> Token {
    Token::Word(text.to_string())
}

fn header(name: &str) -> Vec<Token> {
    vec![word("default"), Token::Punct('='), word(name), Token::Punct(';'), Token::Brackets]
}

fn parts(r: Result<Declaration, SyntaxError>) -> Result<(Option<String>, usize), SyntaxError> {
    r.map(|d| (d.default_name, d.table_at))
}

fn error(expected: Expected, at: usize) -> Result<(Option<String>, usize), SyntaxError> {
    Err(SyntaxError { expected, at })
}

#[test]
fn a_table_alone_has_no_default_name() {
    assert_eq!(parts(read_declaration(&vec![Token::Brackets])), Ok((None, 0)));
}

#[test]
fn a_header_names_the_default() {
    assert_eq!(parts(read_declaration(&header("start"))), Ok((Some("start".to_string()), 4)));
    assert_eq!(parts(read_declaration(&header("help"))), Ok((Some("help".to_string()), 4)));
    assert_eq!(parts(read_declaration(&header("r#fn"))), Ok((Some("r#fn".to_string()), 4)));
    assert_eq!(parts(read_declaration(&header("default"))), Ok((Some("default".to_string()), 4)));
}

#[test]
fn a_keyword_is_no_name() {
    for keyword in ["fn", "self", "Self", "match", "true", "_", "yield"] {
        assert_eq!(
            parts(read_declaration(&header(keyword))),
            error(Expected::Name, 2),
            "keyword {:?}",
            keyword
        );
    }
}

#[test]
fn the_name_must_be_a_word() {
    let mut tokens = header("start");
    tokens[2] = Token::Other;
    assert_eq!(parts(read_declaration(&tokens)), error(Expected::Name, 2));
    tokens[2] = Token::Punct('=');
    assert_eq!(parts(read_declaration(&tokens)), error(Expected::Name, 2));
    tokens[2] = Token::Brackets;
    assert_eq!(parts(read_declaration(&tokens)), error(Expected::Name, 2));
    tokens.truncate(2);
    assert_eq!(parts(read_declaration(&tokens)), error(Expected::Name, 2));
}

#[test]
fn the_header_needs_its_equals_sign() {
    assert_eq!(parts(read_declaration(&vec![word("default")])), error(Expected::Equals, 1));
    assert_eq!(
        parts(read_declaration(&vec![word("default"), word("start"), Token::Punct(';')])),
        error(Expected::Equals, 1)
    );
    assert_eq!(
        parts(read_declaration(&vec![word("default"), Token::Brackets])),
        error(Expected::Equals, 1)
    );
    assert_eq!(
        parts(read_declaration(&vec![word("default"), Token::Punct(';')])),
        error(Expected::Equals, 1)
    );
}

#[test]
fn the_header_needs_its_semicolon() {
    let mut tokens = header("start");
    tokens.remove(3);
    assert_eq!(parts(read_declaration(&tokens)), error(Expected::Semicolon, 3));
    tokens.truncate(3);
    assert_eq!(parts(read_declaration(&tokens)), error(Expected::Semicolon, 3));
    let mut comma = header("start");
    comma[3] = Token::Punct(',');
    assert_eq!(parts(read_declaration(&comma)), error(Expected::Semicolon, 3));
}

#[test]
fn the_table_must_follow() {
    assert_eq!(parts(read_declaration(&Vec::new())), error(Expected::Table, 0));
    assert_eq!(parts(read_declaration(&vec![Token::Other])), error(Expected::Table, 0));
    assert_eq!(parts(read_declaration(&vec![word("start")])), error(Expected::Table, 0));
    assert_eq!(parts(read_declaration(&vec![Token::Punct(';')])), error(Expected::Table, 0));
    let mut tokens = header("start");
    tokens.truncate(4);
    assert_eq!(parts(read_declaration(&tokens)), error(Expected::Table, 4));
    tokens.push(Token::Other);
    assert_eq!(parts(read_declaration(&tokens)), error(Expected::Table, 4));
}

#[test]
fn nothing_may_follow_the_table() {
    assert_eq!(
        parts(read_declaration(&vec![Token::Brackets, Token::Punct(';')])),
        error(Expected::End, 1)
    );
    assert_eq!(
        parts(read_declaration(&vec![Token::Brackets, Token::Brackets])),
        error(Expected::End, 1)
    );
    let mut tokens = header("start");
    tokens.push(word("more"));
    assert_eq!(parts(read_declaration(&tokens)), error(Expected::End, 5));
}

#[test]
fn only_the_word_default_opens_a_header() {
    let mut tokens = header("start");
    tokens[0] = word("Default");
    assert_eq!(parts(read_declaration(&tokens)), error(Expected::Table, 0));
    tokens[0] = word("r#default");
    assert_eq!(parts(read_declaration(&tokens)), error(Expected::Table, 0));
    tokens[0] = word("defaults");
    assert_eq!(parts(read_declaration(&tokens)), error(Expected::Table, 0));
}

#[test]
fn the_name_is_taken_as_the_caller_judged_it() {
    assert_eq!(parts(read_declaration_with(&header("fn"), true)), Ok((Some("fn".to_string()), 4)));
    assert_eq!(parts(read_declaration_with(&header("start"), false)), error(Expected::Name, 2));
    assert_eq!(parts(read_declaration_with(&vec![Token::Brackets], false)), Ok((None, 0)));
    assert_eq!(parts(read_declaration_with(&vec![Token::Brackets], true)), Ok((None, 0)));
    let mut tokens = header("start");
    tokens[2] = Token::Other;
    assert_eq!(parts(read_declaration_with(&tokens, true)), error(Expected::Name, 2));
}

#[test]
fn help_is_the_default_where_none_is_named() {
    let bare = read_declaration(&vec![Token::Brackets]).unwrap();
    assert_eq!(bare.default_action(), "help");
    let named = read_declaration(&header("start")).unwrap();
    assert_eq!(named.default_action(), "start");
}

#[test]
fn errors_in_words() {
    let message = |expected| SyntaxError { expected, at: 0 }.message();
    assert_eq!(message(Expected::Equals), "expected `=`");
    assert_eq!(message(Expected::Name), "expected identifier");
    assert_eq!(message(Expected::Semicolon), "expected `;`");
    assert_eq!(message(Expected::Table), "expected square brackets");
    assert_eq!(message(Expected::End), "unexpected token");
}
