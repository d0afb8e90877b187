//! The entries of an `ormcle(...)` attribute: keys, flags, and the iterator
//! that reads them from the attribute's tokens.
use vstd::prelude::*;
use crate::token::{Token, TokenCursor, is_punct, unquoted, unquote, str_is};

verus! {

/// Why an attribute entry was refused.
#[derive(Clone, Copy, Debug, PartialEq, Eq, Structural)]
pub enum OrmcleError {
    InvalidKey,
    InvalidFlag,
}

/// The key of a `key = "value"` entry.
#[derive(Clone, Copy, Debug, PartialEq, Eq, Structural)]
pub enum Key {
    TableName,
    ColumnName,
}

/// An entry that stands alone.
#[derive(Clone, Copy, Debug, PartialEq, Eq, Structural)]
pub enum Flag {
    PrimaryKey,
}

/// A `key = "value"` entry.
#[derive(Debug)]
pub struct KeyValue {
    pub key: Key,
    pub value: String,
}

/// One entry of an attribute.
#[derive(Debug)]
pub enum Attr {
    Flag(Flag),
    KeyValue(KeyValue),
}

/// An attribute entry as a mathematical value.
pub enum AttrView {
    Flag(Flag),
    KeyValue(Key, Seq<char>),
}

impl View for Attr {
    type V = AttrView;

    open spec fn view(&self) -> AttrView {
        match self {
            Attr::Flag(f) => AttrView::Flag(*f),
            Attr::KeyValue(kv) => AttrView::KeyValue(kv.key, kv.value@),
        }
    }
}

/// The key that a text names, if any.
pub open spec fn key_named(s: Seq<char>) -> Option<Key> {
    if s == "table_name"@ {
        Some(Key::TableName)
    } else if s == "column_name"@ {
        Some(Key::ColumnName)
    } else {
        None
    }
}

/// The flag that a text names, if any.
pub open spec fn flag_named(s: Seq<char>) -> Option<Flag> {
    if s == "primary_key"@ {
        Some(Flag::PrimaryKey)
    } else {
        None
    }
}

impl Key {
    /// Reads a key from its name; any other text is an invalid key.
    pub fn from_str(s: &str) -> (r: Result<Key, OrmcleError>)
        ensures
            r == (match key_named(s@) {
                Some(k) => Ok(k),
                None => Err(OrmcleError::InvalidKey),
            }),
    {
        let owned = s.to_owned();
        if str_is(&owned, "table_name") {
            Ok(Key::TableName)
        } else if str_is(&owned, "column_name") {
            Ok(Key::ColumnName)
        } else {
            Err(OrmcleError::InvalidKey)
        }
    }
}

impl Flag {
    /// Reads a flag from its name; any other text is an invalid flag.
    pub fn from_str(s: &str) -> (r: Result<Flag, OrmcleError>)
        ensures
            r == (match flag_named(s@) {
                Some(f) => Ok(f),
                None => Err(OrmcleError::InvalidFlag),
            }),
    {
        let owned = s.to_owned();
        if str_is(&owned, "primary_key") {
            Ok(Flag::PrimaryKey)
        } else {
            Err(OrmcleError::InvalidFlag)
        }
    }
}

/// The entry that a key and its optional value make: with a value the key
/// must name a key, without one it must name a flag.
pub open spec fn entry_of(key: Seq<char>, value: Option<Seq<char>>) -> Result<AttrView, OrmcleError> {
    match value {
        Some(v) => match key_named(key) {
            Some(k) => Ok(AttrView::KeyValue(k, v)),
            None => Err(OrmcleError::InvalidKey),
        },
        None => match flag_named(key) {
            Some(f) => Ok(AttrView::Flag(f)),
            None => Err(OrmcleError::InvalidFlag),
        },
    }
}

/// What the attribute iterator hands out from position `p` of `s`, and the
/// position after it. Tokens up to the next identifier are skipped; the
/// identifier is the key; a `=` after it followed by a literal gives the
/// value, the literal's text without its quotes.
pub open spec fn attr_next(s: Seq<Token>, p: int) -> (Option<Result<AttrView, OrmcleError>>, int)
    decreases s.len() - p,
{
    if p >= s.len() {
        (None, p)
    } else {
        match s[p] {
            Token::Ident(k) => {
                let (value, q): (Option<Seq<char>>, int) = if p + 1 >= s.len() {
                    (None, p + 1)
                } else if !is_punct(s[p + 1], '=') {
                    (None, p + 2)
                } else if p + 2 >= s.len() {
                    (None, p + 2)
                } else {
                    match s[p + 2] {
                        Token::Literal(l) => (Some(unquoted(l@)), p + 3),
                        _ => (None, p + 3),
                    }
                };
                (Some(entry_of(k@, value)), q)
            },
            _ => attr_next(s, p + 1),
        }
    }
}

/// The view of what the attribute iterator returns.
pub open spec fn attr_item_view(r: Option<Result<Attr, OrmcleError>>) -> Option<Result<AttrView, OrmcleError>> {
    match r {
        None => None,
        Some(Ok(a)) => Some(Ok(a@)),
        Some(Err(e)) => Some(Err(e)),
    }
}

/// Each entry that the attribute iterator hands out moves it forward, and it
/// never moves past the end of the stream.
pub proof fn lemma_attr_next_advances(s: Seq<Token>, p: int)
    requires
        0 <= p,
    ensures
        attr_next(s, p).0 is Some ==> p < attr_next(s, p).1 <= s.len(),
        attr_next(s, p).0 is None ==> attr_next(s, p).1 == if p >= s.len() { p } else { s.len() as int },
    decreases s.len() - p,
{
    if p < s.len() {
        match s[p] {
            Token::Ident(_) => {},
            _ => lemma_attr_next_advances(s, p + 1),
        }
    }
}

/// Reads the entries of the tokens inside an `ormcle(...)` attribute.
pub struct AttrIterator<'a> {
    pub ts: TokenCursor<'a>,
}

impl<'a> AttrIterator<'a> {
    /// An iterator over the tokens of a group.
    pub fn from(stream: &'a Vec<Token>) -> (r: Self)
        ensures
            r.ts.tokens == stream,
            r.ts.pos == 0,
    {
        AttrIterator { ts: TokenCursor::new(stream) }
    }

    /// The next entry, `None` at the end of the tokens.
    pub fn next(&mut self) -> (r: Option<Result<Attr, OrmcleError>>)
        ensures
            final(self).ts.tokens == old(self).ts.tokens,
            (attr_item_view(r), final(self).ts.pos as int) == attr_next(
                old(self).ts.tokens@,
                old(self).ts.pos as int,
            ),
    {
        let ghost s = self.ts.tokens@;
        let ghost p0 = self.ts.pos as int;
        loop
            invariant
                self.ts.tokens@ == s,
                self.ts.tokens == old(self).ts.tokens,
                s == old(self).ts.tokens@,
                p0 == old(self).ts.pos,
                p0 <= self.ts.pos,
                attr_next(s, self.ts.pos as int) == attr_next(s, p0),
            decreases s.len() - self.ts.pos,
        {
            let ghost p = self.ts.pos as int;
            match self.ts.next() {
                Some(Token::Ident(i)) => {
                    let maybe_value: Option<String> = match self.ts.next() {
                        Some(Token::Punct(c)) => {
                            if *c == '=' {
                                match self.ts.next() {
                                    Some(Token::Literal(l)) => Some(unquote(l)),
                                    _ => None,
                                }
                            } else {
                                None
                            }
                        },
                        _ => None,
                    };
                    let attr = match maybe_value {
                        Some(value) => {
                            let key = match Key::from_str(i.as_str()) {
                                Ok(k) => k,
                                Err(e) => {
                                    return Some(Err(e));
                                },
                            };
                            Attr::KeyValue(KeyValue { key, value })
                        },
                        None => {
                            let flag = match Flag::from_str(i.as_str()) {
                                Ok(f) => f,
                                Err(e) => {
                                    return Some(Err(e));
                                },
                            };
                            Attr::Flag(flag)
                        },
                    };
                    return Some(Ok(attr));
                },
                Some(_) => {
                    continue;
                },
                None => {
                    return None;
                },
            }
        }
    }
}

} // verus!
