//! Streams of tokens, and how they grow.

use proc_macro2::{Group, Ident, Literal, Punct, Spacing, Span, TokenStream};
use quote::{ToTokens, TokenStreamExt};
use syn::ext::IdentExt;
use vstd::prelude::*;

verus! {

/// What encloses a group of tokens.
pub enum Enclosure {
    Parentheses,
    Braces,
    Brackets,
    /// Nothing that can be seen: the group only holds its tokens together.
    Invisible,
}

/// A token. A group of tokens stands in a stream as its tokens between an `Open` and a `Close`.
pub enum Token {
    /// An identifier or a keyword, by its name.
    Word(Seq<char>),
    /// A punctuation character, and whether the next one belongs to the same operator.
    Punctuation(char, bool),
    /// A string literal, by the text that it stands for.
    Text(Seq<char>),
    /// Any other literal, by its spelling.
    Other(Seq<char>),
    Open(Enclosure),
    Close(Enclosure),
}

#[verifier::external_type_specification]
#[verifier::external_body]
pub struct ExTokenStream(TokenStream);

#[verifier::external_type_specification]
#[verifier::external_body]
pub struct ExIdent(Ident);

#[verifier::external_type_specification]
#[verifier::external_body]
pub struct ExPath(syn::Path);

/// The tokens that a stream holds, from first to last. Where in a source they stand is left out.
pub uninterp spec fn stream_tokens(stream: TokenStream) -> Seq<Token>;

/// The tokens that a path is written with, from first to last.
pub uninterp spec fn path_tokens(path: syn::Path) -> Seq<Token>;

/// The name of an identifier, with the prefix of a raw one.
pub uninterp spec fn ident_name(ident: Ident) -> Seq<char>;

/// A name without the prefix of a raw identifier.
pub open spec fn unraw(name: Seq<char>) -> Seq<char> {
    if name.len() >= 2 && name[0] == 'r' && name[1] == '#' {
        name.skip(2)
    } else {
        name
    }
}

/// Whether a character of ASCII may start an identifier.
pub open spec fn starts_identifier(c: char) -> bool {
    'a' <= c <= 'z' || 'A' <= c <= 'Z' || c == '_'
}

/// Whether a character of ASCII may stand in an identifier.
pub open spec fn in_identifier(c: char) -> bool {
    starts_identifier(c) || '0' <= c <= '9'
}

/// Whether a name is an identifier or a keyword in ASCII.
pub open spec fn is_ascii_identifier(name: Seq<char>) -> bool {
    &&& name.len() > 0
    &&& starts_identifier(name[0])
    &&& forall|i: int| 0 <= i < name.len() ==> in_identifier(#[trigger] name[i])
}

/// Test whether a character occurs in a text.
pub(crate) fn test_contains(text: &str, c: char) -> (contains: bool)
    ensures
        contains == text@.contains(c),
{
    for x in iter: text.chars()
        invariant
            iter.seq() == text@,
            forall|k: int| 0 <= k < iter.index() ==> #[trigger] text@[k] != c,
    {
        if x == c {
            assert(text@[iter.index()] == c);
            return true;
        }
    }
    false
}

/// Whether a character is one that operators and separators are made of.
pub open spec fn is_punctuation(c: char) -> bool {
    ||| c == '!' || c == '#' || c == '$' || c == '%' || c == '&' || c == '\'' || c == '*'
    ||| c == '+' || c == ',' || c == '-' || c == '.' || c == '/' || c == ':' || c == ';'
    ||| c == '<' || c == '=' || c == '>' || c == '?' || c == '@' || c == '^' || c == '|'
    ||| c == '~'
}

/// An identifier or a keyword.
pub open spec fn word(name: &str) -> Token {
    Token::Word(name@)
}

/// A punctuation character with which an operator ends.
pub open spec fn punct(c: char) -> Token {
    Token::Punctuation(c, false)
}

/// A punctuation character with which an operator goes on.
pub open spec fn joint(c: char) -> Token {
    Token::Punctuation(c, true)
}

/// A string literal.
pub open spec fn text(value: &str) -> Token {
    Token::Text(value@)
}

/// A group of tokens.
pub open spec fn group(enclosure: Enclosure, inner: Seq<Token>) -> Seq<Token> {
    seq![Token::Open(enclosure)] + inner + seq![Token::Close(enclosure)]
}

/// A group of tokens in parentheses.
pub open spec fn parens(inner: Seq<Token>) -> Seq<Token> {
    group(Enclosure::Parentheses, inner)
}

/// A group of tokens in braces.
pub open spec fn braces(inner: Seq<Token>) -> Seq<Token> {
    group(Enclosure::Braces, inner)
}

/// A group of tokens in brackets.
pub open spec fn brackets(inner: Seq<Token>) -> Seq<Token> {
    group(Enclosure::Brackets, inner)
}

/// A stream without tokens, by [`TokenStream::new`].
#[verifier::external_body]
pub(crate) fn no_tokens() -> (tokens: TokenStream)
    ensures
        stream_tokens(tokens) == Seq::<Token>::empty(),
{
    TokenStream::new()
}

/// The name of an identifier, by its [`ToString::to_string`].
#[verifier::external_body]
pub(crate) fn ident_text(ident: &Ident) -> (name: String)
    ensures
        name@ == ident_name(*ident),
{
    ident.to_string()
}

/// An identifier with more characters before and after its name, made by [`Ident::new`] from the
/// name without a raw prefix, [`IdentExt::unraw`]. It panics on what is not an identifier: with a
/// name that is one, an ASCII identifier before it and ASCII characters of identifiers after it
/// make an identifier again. The one name of an identifier that cannot stand within another is
/// `$crate`.
#[verifier::external_body]
pub(crate) fn affixed_ident(before: &str, ident: &Ident, after: &str) -> (affixed: Ident)
    requires
        is_ascii_identifier(before@),
        !ident_name(*ident).contains('$'),
        forall|i: int| 0 <= i < after@.len() ==> in_identifier(#[trigger] after@[i]),
    ensures
        ident_name(affixed) == before@ + unraw(ident_name(*ident)) + after@,
{
    Ident::new(&format!("{}{}{}", before, ident.unraw(), after), ident.span())
}

/// Append an identifier, by its [`ToTokens::to_tokens`].
#[verifier::external_body]
pub(crate) fn push_ident(tokens: &mut TokenStream, ident: &Ident)
    ensures
        stream_tokens(*final(tokens)) == stream_tokens(*old(tokens)).push(
            Token::Word(ident_name(*ident)),
        ),
{
    ident.to_tokens(tokens)
}

/// Append an ASCII identifier or keyword, made by [`Ident::new`], which panics on a name that is
/// neither.
#[verifier::external_body]
pub(crate) fn push_word(tokens: &mut TokenStream, name: &str)
    requires
        is_ascii_identifier(name@),
    ensures
        stream_tokens(*final(tokens)) == stream_tokens(*old(tokens)).push(Token::Word(name@)),
{
    tokens.append(Ident::new(name, Span::call_site()))
}

/// Append a punctuation character that ends an operator, made by [`Punct::new`], which panics on
/// a character that operators and separators are not made of.
#[verifier::external_body]
pub(crate) fn push_punct(tokens: &mut TokenStream, c: char)
    requires
        is_punctuation(c),
    ensures
        stream_tokens(*final(tokens)) == stream_tokens(*old(tokens)).push(punct(c)),
{
    tokens.append(Punct::new(c, Spacing::Alone))
}

/// Append a punctuation character with which an operator goes on, made by [`Punct::new`], which
/// panics on a character that operators and separators are not made of.
#[verifier::external_body]
pub(crate) fn push_joint(tokens: &mut TokenStream, c: char)
    requires
        is_punctuation(c),
    ensures
        stream_tokens(*final(tokens)) == stream_tokens(*old(tokens)).push(joint(c)),
{
    tokens.append(Punct::new(c, Spacing::Joint))
}

/// Append a string literal that stands for `value`, made by [`Literal::string`].
#[verifier::external_body]
pub(crate) fn push_text(tokens: &mut TokenStream, value: &str)
    ensures
        stream_tokens(*final(tokens)) == stream_tokens(*old(tokens)).push(Token::Text(value@)),
{
    tokens.append(Literal::string(value))
}

/// Append a group in parentheses, made by [`Group::new`].
#[verifier::external_body]
pub(crate) fn push_parens(tokens: &mut TokenStream, inner: TokenStream)
    ensures
        stream_tokens(*final(tokens)) == stream_tokens(*old(tokens)) + parens(
            stream_tokens(inner),
        ),
{
    tokens.append(Group::new(proc_macro2::Delimiter::Parenthesis, inner))
}

/// Append a group in braces, made by [`Group::new`].
#[verifier::external_body]
pub(crate) fn push_braces(tokens: &mut TokenStream, inner: TokenStream)
    ensures
        stream_tokens(*final(tokens)) == stream_tokens(*old(tokens)) + braces(
            stream_tokens(inner),
        ),
{
    tokens.append(Group::new(proc_macro2::Delimiter::Brace, inner))
}

/// Append a group in brackets, made by [`Group::new`].
#[verifier::external_body]
pub(crate) fn push_brackets(tokens: &mut TokenStream, inner: TokenStream)
    ensures
        stream_tokens(*final(tokens)) == stream_tokens(*old(tokens)) + brackets(
            stream_tokens(inner),
        ),
{
    tokens.append(Group::new(proc_macro2::Delimiter::Bracket, inner))
}

/// Append the tokens of another stream, by its [`ToTokens::to_tokens`].
#[verifier::external_body]
pub(crate) fn push_stream(tokens: &mut TokenStream, other: &TokenStream)
    ensures
        stream_tokens(*final(tokens)) == stream_tokens(*old(tokens)) + stream_tokens(*other),
{
    other.to_tokens(tokens)
}

/// Append the tokens of a path, by its [`ToTokens::to_tokens`].
#[verifier::external_body]
pub(crate) fn push_path(tokens: &mut TokenStream, path: &syn::Path)
    ensures
        stream_tokens(*final(tokens)) == stream_tokens(*old(tokens)) + path_tokens(*path),
{
    path.to_tokens(tokens)
}

/// A token of a template.
pub enum Piece {
    Word(&'static str),
    Punct(char),
    Joint(char),
    Text(&'static str),
}

impl Piece {
    /// The token itself.
    pub open spec fn token(self) -> Token {
        match self {
            Piece::Word(name) => word(name),
            Piece::Punct(c) => punct(c),
            Piece::Joint(c) => joint(c),
            Piece::Text(value) => text(value),
        }
    }

    /// Whether the token can be made.
    pub open spec fn possible(self) -> bool {
        match self {
            Piece::Word(name) => is_ascii_identifier(name@),
            Piece::Punct(c) | Piece::Joint(c) => is_punctuation(c),
            Piece::Text(_) => true,
        }
    }
}

/// The tokens of a template.
pub open spec fn tokens_of(pieces: Seq<Piece>) -> Seq<Token> {
    pieces.map_values(|piece: Piece| piece.token())
}

/// Append the tokens of a template.
pub(crate) fn push_all(tokens: &mut TokenStream, pieces: Vec<Piece>)
    requires
        forall|i: int| 0 <= i < pieces.len() ==> (#[trigger] pieces[i]).possible(),
    ensures
        stream_tokens(*final(tokens)) == stream_tokens(*old(tokens)) + tokens_of(pieces@),
{
    assert(stream_tokens(*tokens) =~= stream_tokens(*old(tokens)) + tokens_of(pieces@.take(0)));
    for i in 0..pieces.len()
        invariant
            forall|i: int| 0 <= i < pieces.len() ==> (#[trigger] pieces[i]).possible(),
            stream_tokens(*tokens) == stream_tokens(*old(tokens)) + tokens_of(
                pieces@.take(i as int),
            ),
    {
        match pieces[i] {
            Piece::Word(name) => push_word(tokens, name),
            Piece::Punct(c) => push_punct(tokens, c),
            Piece::Joint(c) => push_joint(tokens, c),
            Piece::Text(value) => push_text(tokens, value),
        }
        proof {
            let before = pieces@.take(i as int);
            assert(pieces@.take(i + 1) =~= before.push(pieces@[i as int]));
            assert(tokens_of(before.push(pieces@[i as int])) =~= tokens_of(before).push(
                pieces@[i as int].token(),
            ));
        }
    }
    assert(pieces@.take(pieces.len() as int) =~= pieces@);
}

/// Return a stream with the tokens of a template.
pub(crate) fn all(pieces: Vec<Piece>) -> (tokens: TokenStream)
    requires
        forall|i: int| 0 <= i < pieces.len() ==> (#[trigger] pieces[i]).possible(),
    ensures
        stream_tokens(tokens) == tokens_of(pieces@),
{
    let mut tokens = no_tokens();
    push_all(&mut tokens, pieces);
    assert(stream_tokens(tokens) =~= tokens_of(pieces@));
    tokens
}

} // verus!
