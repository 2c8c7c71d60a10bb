//! The shape of a table declaration, as a macro receives it.
//!
//! A declaration is a bracketed list of commands, which may be preceded by a
//! header that names the default action:
//!
//! ```text
//! default = start; [ first, second ]
//! [ first, second ]
//! ```
//!
//! Only the top level of the token stream is read here. What stands between
//! the brackets is left to the parser of the host language.

use vstd::prelude::*;
use vstd::string::*;

verus! {

/// One token at the top level of a declaration, as far as its shape goes.
pub enum Token {
    /// An identifier or keyword, by its text.
    Word(String),
    /// One character of punctuation.
    Punct(char),
    /// A group in square brackets, whatever it holds.
    Brackets,
    /// Any other token: a literal, or a group in other delimiters.
    Other,
}

/// The model of a token.
pub enum TokenSpec {
    Word(Seq<char>),
    Punct(char),
    Brackets,
    Other,
}

impl View for Token {
    type V = TokenSpec;

    open spec fn view(&self) -> TokenSpec {
        match self {
            Token::Word(w) => TokenSpec::Word(w@),
            Token::Punct(c) => TokenSpec::Punct(*c),
            Token::Brackets => TokenSpec::Brackets,
            Token::Other => TokenSpec::Other,
        }
    }
}

/// The models of a list of tokens.
pub open spec fn tokens_of(tokens: Seq<Token>) -> Seq<TokenSpec> {
    tokens.map_values(|t: Token| t@)
}

/// What a declaration was expected to hold at the place where it went wrong.
#[derive(Clone, Copy, Debug, PartialEq, Eq, Structural)]
pub enum Expected {
    /// The `=` after the word `default`.
    Equals,
    /// The name of the default action.
    Name,
    /// The `;` that ends the header.
    Semicolon,
    /// The bracketed table.
    Table,
    /// Nothing more: the table ends the declaration.
    End,
}

/// A declaration of the wrong shape: what was expected, and the index of the
/// token that stands in its place (the number of tokens, where the
/// declaration ends too soon).
#[derive(Clone, Copy, Debug, PartialEq, Eq, Structural)]
pub struct SyntaxError {
    pub expected: Expected,
    pub at: usize,
}

/// The parts of a well-shaped declaration.
pub struct Declaration {
    /// The default action named by the header, if there is a header.
    pub default_name: Option<String>,
    /// The index of the bracketed table among the tokens.
    pub table_at: usize,
}

/// The model of a declaration's parts.
pub struct DeclarationSpec {
    pub default_name: Option<Seq<char>>,
    pub table_at: int,
}

impl View for Declaration {
    type V = DeclarationSpec;

    open spec fn view(&self) -> DeclarationSpec {
        DeclarationSpec {
            default_name: match self.default_name {
                Some(name) => Some(name@),
                None => None,
            },
            table_at: self.table_at as int,
        }
    }
}

/// The model of an outcome of reading a declaration.
pub open spec fn outcome_of(r: Result<Declaration, SyntaxError>) -> Result<
    DeclarationSpec,
    SyntaxError,
> {
    match r {
        Ok(d) => Ok(d@),
        Err(e) => Err(e),
    }
}

/// The declaration begins with the word `default`, and so with a header.
pub open spec fn has_header(tokens: Seq<TokenSpec>) -> bool {
    tokens.len() > 0 && tokens[0] == TokenSpec::Word("default"@)
}

/// The error that asks for `expected` at token `at`.
pub open spec fn wants(expected: Expected, at: int) -> Result<DeclarationSpec, SyntaxError> {
    Err(SyntaxError { expected, at: at as usize })
}

/// What reading the table at token `at` gives: the table must stand there
/// and be the last token.
pub open spec fn table_read(tokens: Seq<TokenSpec>, default_name: Option<Seq<char>>, at: int) -> Result<
    DeclarationSpec,
    SyntaxError,
> {
    if !(at < tokens.len() && tokens[at] == TokenSpec::Brackets) {
        wants(Expected::Table, at)
    } else if at + 1 < tokens.len() {
        wants(Expected::End, at + 1)
    } else {
        Ok(DeclarationSpec { default_name, table_at: at })
    }
}

/// What reading a declaration gives, where `named` says whether the host
/// language's parser takes the third token as a name. A declaration that
/// begins with the word `default` must go on with `=`, a name and `;`, and
/// then hold the table; any other declaration holds the table alone.
pub open spec fn declaration_read(tokens: Seq<TokenSpec>, named: bool) -> Result<
    DeclarationSpec,
    SyntaxError,
> {
    if !has_header(tokens) {
        table_read(tokens, None, 0)
    } else if !(tokens.len() > 1 && tokens[1] == TokenSpec::Punct('=')) {
        wants(Expected::Equals, 1)
    } else if !(tokens.len() > 2 && tokens[2] is Word && named) {
        wants(Expected::Name, 2)
    } else if !(tokens.len() > 3 && tokens[3] == TokenSpec::Punct(';')) {
        wants(Expected::Semicolon, 3)
    } else {
        table_read(tokens, Some(tokens[2]->Word_0), 4)
    }
}

/// The parser's answer matters only where a header with its `=` is followed
/// by a word: everywhere else a declaration reads the same whatever the
/// answer, and where the answer is no, the name is what is missing.
pub proof fn lemma_parser_decides_only_the_name(tokens: Seq<TokenSpec>)
    ensures
        declaration_read(tokens, true) != declaration_read(tokens, false) ==> {
            &&& has_header(tokens)
            &&& tokens.len() > 2
            &&& tokens[1] == TokenSpec::Punct('=')
            &&& tokens[2] is Word
            &&& declaration_read(tokens, false) == wants(Expected::Name, 2)
        },
{
}

/// Asks the host language's parser whether `word` is an identifier.
///
/// Stands for `syn::parse_str::<syn::Ident>`, which lexes the text and gives
/// an identifier where the text is one, and an error where it is a keyword
/// or anything else. Which lexer reads the text depends on whether the call
/// is made inside a macro expansion, so nothing is claimed of the answer.
#[verifier::external_body]
fn is_name(word: &str) -> (ok: bool) {
    syn::parse_str::<syn::Ident>(word).is_ok()
}

/// Token `i` is the punctuation `c`.
fn is_punct(tokens: &Vec<Token>, i: usize, c: char) -> (ok: bool)
    ensures
        ok == (i < tokens@.len() && tokens_of(tokens@)[i as int] == TokenSpec::Punct(c)),
{
    if i < tokens.len() {
        match &tokens[i] {
            Token::Punct(p) => *p == c,
            _ => false,
        }
    } else {
        false
    }
}

/// Reads the table at token `at`.
fn read_table(tokens: &Vec<Token>, default_name: Option<String>, at: usize) -> (r: Result<
    Declaration,
    SyntaxError,
>)
    requires
        at <= 4,
    ensures
        outcome_of(r) == table_read(
            tokens_of(tokens@),
            match default_name {
                Some(name) => Some(name@),
                None => None,
            },
            at as int,
        ),
{
    let found = at < tokens.len() && match &tokens[at] {
        Token::Brackets => true,
        _ => false,
    };
    if !found {
        Err(SyntaxError { expected: Expected::Table, at })
    } else if at + 1 < tokens.len() {
        Err(SyntaxError { expected: Expected::End, at: at + 1 })
    } else {
        Ok(Declaration { default_name, table_at: at })
    }
}

/// Reads a declaration, given the parser's answer on whether its third token
/// is a name.
pub fn read_declaration_with(tokens: &Vec<Token>, named: bool) -> (r: Result<
    Declaration,
    SyntaxError,
>)
    ensures
        outcome_of(r) == declaration_read(tokens_of(tokens@), named),
{
    let keyword = String::from_str("default");
    let header = tokens.len() > 0 && match &tokens[0] {
        Token::Word(w) => *w == keyword,
        _ => false,
    };
    if !header {
        return read_table(tokens, None, 0);
    }
    if !is_punct(tokens, 1, '=') {
        return Err(SyntaxError { expected: Expected::Equals, at: 1 });
    }
    if tokens.len() > 2 && named {
        if let Token::Word(w) = &tokens[2] {
            if !is_punct(tokens, 3, ';') {
                return Err(SyntaxError { expected: Expected::Semicolon, at: 3 });
            }
            return read_table(tokens, Some(w.clone()), 4);
        }
    }
    Err(SyntaxError { expected: Expected::Name, at: 2 })
}

/// Reads a declaration: finds the name of the default action, where the
/// declaration has a header, and the place of the table. Whether the word
/// after `default =` is a name is the parser's answer; everything else is
/// decided here, so the outcome is one of the two that `declaration_read`
/// gives, and the same whatever the parser says wherever those two agree.
pub fn read_declaration(tokens: &Vec<Token>) -> (r: Result<Declaration, SyntaxError>)
    ensures
        outcome_of(r) == declaration_read(tokens_of(tokens@), true) || outcome_of(r)
            == declaration_read(tokens_of(tokens@), false),
{
    let named = tokens.len() > 2 && match &tokens[2] {
        Token::Word(w) => is_name(w.as_str()),
        _ => false,
    };
    read_declaration_with(tokens, named)
}

impl Declaration {
    /// The name of the action that runs where no argument is given: the one
    /// that the header names, or `help` where there is no header.
    pub fn default_action(&self) -> (name: String)
        ensures
            name@ == match self@.default_name {
                Some(n) => n,
                None => "help"@,
            },
    {
        match &self.default_name {
            Some(n) => n.clone(),
            None => String::from_str("help"),
        }
    }
}

impl SyntaxError {
    /// The error in words.
    pub fn message(&self) -> (text: &'static str)
        ensures
            text@ == match self.expected {
                Expected::Equals => "expected `=`"@,
                Expected::Name => "expected identifier"@,
                Expected::Semicolon => "expected `;`"@,
                Expected::Table => "expected square brackets"@,
                Expected::End => "unexpected token"@,
            },
    {
        match self.expected {
            Expected::Equals => "expected `=`",
            Expected::Name => "expected identifier",
            Expected::Semicolon => "expected `;`",
            Expected::Table => "expected square brackets",
            Expected::End => "unexpected token",
        }
    }
}

} // verus!
