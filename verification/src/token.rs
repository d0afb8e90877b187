//! The token trees of a derive input, as plain values, and the text
//! operations that the expansion performs on them.
use vstd::prelude::*;
use vstd::string::*;

verus! {

/// The delimiter that encloses a group of tokens.
#[derive(Clone, Copy, Debug, PartialEq, Eq, Structural)]
pub enum Delim {
    Parenthesis,
    Brace,
    Bracket,
    Invisible,
}

/// One token tree of a derive input. An identifier and a literal hold their
/// source text; a group holds its delimiter and the tokens inside it.
#[derive(Debug)]
pub enum Token {
    Ident(String),
    Punct(char),
    Literal(String),
    Group(Delim, Vec<Token>),
}

/// The token is the punctuation character `c`.
pub open spec fn is_punct(t: Token, c: char) -> bool {
    t matches Token::Punct(x) && x == c
}

/// The token is an identifier whose text is `w`.
pub open spec fn ident_is(t: Token, w: Seq<char>) -> bool {
    t matches Token::Ident(i) && i@ == w
}

/// A cursor over a token stream: the stream and the index of the next token.
pub struct TokenCursor<'a> {
    pub tokens: &'a Vec<Token>,
    pub pos: usize,
}

impl<'a> TokenCursor<'a> {
    /// A cursor at the start of `tokens`.
    pub fn new(tokens: &'a Vec<Token>) -> (r: Self)
        ensures
            r.tokens == tokens,
            r.pos == 0,
    {
        TokenCursor { tokens, pos: 0 }
    }

    /// Hands out the next token, if there is one, and moves past it; at the
    /// end of the stream it returns `None` and stays where it is.
    pub fn next(&mut self) -> (r: Option<&'a Token>)
        ensures
            final(self).tokens == old(self).tokens,
            old(self).pos < old(self).tokens@.len() ==> {
                &&& r matches Some(t) && *t == old(self).tokens@[old(self).pos as int]
                &&& final(self).pos == old(self).pos + 1
            },
            old(self).pos >= old(self).tokens@.len() ==> {
                &&& r is None
                &&& final(self).pos == old(self).pos
            },
    {
        if self.pos < self.tokens.len() {
            let toks: &'a Vec<Token> = self.tokens;
            let t: &'a Token = &toks[self.pos];
            self.pos = self.pos + 1;
            Some(t)
        } else {
            None
        }
    }
}

/// `s` with every double quote taken out.
pub open spec fn unquoted(s: Seq<char>) -> Seq<char>
    decreases s.len(),
{
    if s.len() == 0 {
        seq![]
    } else {
        let r = unquoted(s.drop_last());
        if s.last() == '"' {
            r
        } else {
            r.push(s.last())
        }
    }
}

/// Appends one character to a string: `String::push`.
#[verifier::external_body]
pub(crate) fn push_char(s: &mut String, c: char)
    ensures
        final(s)@ == old(s)@.push(c),
{
    s.push(c);
}

/// The name of what `str::to_uppercase` returns for a text.
pub uninterp spec fn uppercase_of(s: Seq<char>) -> Seq<char>;

/// `str::to_uppercase`: the Unicode upper-case mapping of each character.
/// The contract only names the result as a function of the text; what that
/// mapping is character by character is not stated here.
#[verifier::external_body]
pub(crate) fn to_uppercase(s: &str) -> (r: String)
    ensures
        r@ == uppercase_of(s@),
{
    s.to_uppercase()
}

/// Whether the text of `a` is the text `lit`.
pub fn str_is(a: &String, lit: &str) -> (r: bool)
    ensures
        r == (a@ == lit@),
{
    let b = lit.to_owned();
    *a == b
}

/// The text of `s` with every double quote taken out, as the expansion reads
/// the value of a string literal.
pub fn unquote(s: &String) -> (r: String)
    ensures
        r@ == unquoted(s@),
{
    let t = s.as_str();
    let n = t.unicode_len();
    let mut r = String::new();
    let mut i: usize = 0;
    while i < n
        invariant
            i <= n,
            n == t@.len(),
            t@ == s@,
            r@ == unquoted(t@.take(i as int)),
        decreases n - i,
    {
        let c = t.get_char(i);
        assert(t@.take(i + 1).drop_last() =~= t@.take(i as int));
        if c != '"' {
            push_char(&mut r, c);
        }
        i = i + 1;
    }
    assert(t@.take(n as int) =~= t@);
    r
}

/// Appends the text `lit` to `s`.
pub fn push_text(s: &mut String, lit: &str)
    ensures
        final(s)@ == old(s)@ + lit@,
{
    s.append(lit);
}

} // verus!
