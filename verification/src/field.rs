//! The fields of a struct as the expansion reads them: name, type and the
//! settings of their `ormcle(...)` attributes.
use vstd::prelude::*;
use crate::token::{Token, TokenCursor, is_punct, ident_is, push_char, str_is};
use crate::attr::{Attr, AttrIterator, AttrView, Flag, Key, KeyValue, attr_next, lemma_attr_next_advances};
use crate::attribute::{Attribute, AttributeView, field_attr};
use crate::error::MacroError;

verus! {

/// A field of a struct: its name, the text of its type, and the settings of
/// its attributes, if it has any.
#[derive(Debug)]
pub struct Field {
    pub field_name: String,
    pub field_type: String,
    pub attr: Option<Attribute>,
}

/// A field as a mathematical value.
pub struct FieldView {
    pub field_name: Seq<char>,
    pub field_type: Seq<char>,
    pub attr: Option<AttributeView>,
}

/// The view of an optional attribute setting.
pub open spec fn opt_attribute_view(a: Option<Attribute>) -> Option<AttributeView> {
    match a {
        Some(x) => Some(x@),
        None => None,
    }
}

impl View for Field {
    type V = FieldView;

    open spec fn view(&self) -> FieldView {
        FieldView {
            field_name: self.field_name@,
            field_type: self.field_type@,
            attr: opt_attribute_view(self.attr),
        }
    }
}

/// The view of an optional field.
pub open spec fn opt_field_view(f: Option<Field>) -> Option<FieldView> {
    match f {
        Some(x) => Some(x@),
        None => None,
    }
}

/// Whether a field setting flags the primary key.
pub open spec fn flags_primary_key(a: Option<AttributeView>) -> bool {
    match a {
        Some(AttributeView::Field { primary_key, .. }) => primary_key,
        _ => false,
    }
}

/// The tokens of the parentheses in `ormcle(...)`, when the tokens of an
/// attribute `#[...]` have that shape.
pub open spec fn ormcle_args(g: Seq<Token>) -> Option<Seq<Token>> {
    if g.len() >= 2 && ident_is(g[0], "ormcle"@) {
        match g[1] {
            Token::Group(_, inner) => Some(inner@),
            _ => None,
        }
    } else {
        None
    }
}

/// The tokens of an attribute `#[...]` are the key marker `id(...)`, which
/// flags the field as the primary key.
pub open spec fn is_id_marker(g: Seq<Token>) -> bool {
    g.len() >= 1 && ident_is(g[0], "id"@)
}

/// What the entries of an `ormcle(...)` attribute from position `q` on do
/// to a field setting `attr`; `some` tells whether an entry was read.
/// `primary_key` flags the field, `column_name = "x"` names its column;
/// a `table_name` entry or a refused entry stop the expansion.
pub open spec fn field_entries_from(inner: Seq<Token>, q: int, attr: AttributeView, some: bool) -> Result<(AttributeView, bool), MacroError>
    decreases inner.len() - q,
{
    if q < 0 {
        Ok((attr, some))
    } else {
        let (r, nq) = attr_next(inner, q);
        proof {
            lemma_attr_next_advances(inner, q);
        }
        match r {
            None => Ok((attr, some)),
            Some(Ok(AttrView::Flag(Flag::PrimaryKey))) => field_entries_from(inner, nq, attr.set_primary_key(), true),
            Some(Ok(AttrView::KeyValue(Key::ColumnName, v))) => field_entries_from(inner, nq, attr.set_column_name(v), true),
            Some(Ok(AttrView::KeyValue(Key::TableName, _))) => Err(MacroError::Unreachable),
            Some(Err(e)) => Err(MacroError::Entry(e)),
        }
    }
}

/// The rest of a generic type from position `q` on, appended to `ty`:
/// punctuation and identifiers are taken up to and including the first `>`;
/// other tokens are passed over. `None` when the stream ends first.
pub open spec fn type_tail(s: Seq<Token>, q: int, ty: Seq<char>) -> (Option<Seq<char>>, int)
    decreases s.len() - q,
{
    if q >= s.len() || q < 0 {
        (None, q)
    } else {
        match s[q] {
            Token::Punct(c) => if c == '>' {
                (Some(ty.push(c)), q + 1)
            } else {
                type_tail(s, q + 1, ty.push(c))
            },
            Token::Ident(i) => type_tail(s, q + 1, ty + i@),
            _ => type_tail(s, q + 1, ty),
        }
    }
}

/// A field with the settings read so far: `None` if no entry was read.
pub open spec fn field_view_of(name: Seq<char>, ty: Seq<char>, attr: AttributeView, some: bool) -> FieldView {
    FieldView { field_name: name, field_type: ty, attr: if some { Some(attr) } else { None } }
}

/// What the field iterator hands out from position `p` of the tokens of a
/// struct body, with the settings `attr` read so far (`some` telling whether
/// any entry was read), and the position after it; `Err` where it stops the
/// expansion. Before a field, `#[ormcle(...)]` applies its entries and
/// `#[id(...)]` flags the field as the primary key; other attributes are
/// passed over.
pub open spec fn field_next(s: Seq<Token>, p: int, attr: AttributeView, some: bool) -> Result<(Option<FieldView>, int), MacroError>
    decreases s.len() - p,
{
    if p >= s.len() || p < 0 {
        Ok((None, p))
    } else {
        match s[p] {
            Token::Punct(c) => if c == '#' {
                if p + 1 >= s.len() {
                    Err(MacroError::Unreachable)
                } else {
                    match s[p + 1] {
                        Token::Group(_, g) => match ormcle_args(g@) {
                            Some(inner) => match field_entries_from(inner, 0, attr, some) {
                                Ok((a2, s2)) => field_next(s, p + 2, a2, s2),
                                Err(e) => Err(e),
                            },
                            None => if is_id_marker(g@) {
                                field_next(s, p + 2, attr.set_primary_key(), true)
                            } else {
                                field_next(s, p + 2, attr, some)
                            },
                        },
                        _ => Err(MacroError::Unreachable),
                    }
                }
            } else {
                field_next(s, p + 1, attr, some)
            },
            Token::Ident(name) => {
                if p + 1 >= s.len() {
                    Ok((None, p + 1))
                } else if !is_punct(s[p + 1], ':') {
                    Ok((None, p + 2))
                } else if p + 2 >= s.len() {
                    field_next(s, p + 2, attr, some)
                } else {
                    match s[p + 2] {
                        Token::Ident(t) => {
                            if p + 3 >= s.len() {
                                Ok((Some(field_view_of(name@, t@, attr, some)), p + 3))
                            } else if !is_punct(s[p + 3], '<') {
                                Ok((Some(field_view_of(name@, t@, attr, some)), p + 4))
                            } else {
                                match type_tail(s, p + 4, t@.push('<')) {
                                    (Some(ty), q) => Ok((Some(field_view_of(name@, ty, attr, some)), q)),
                                    (None, q) => Ok((None, q)),
                                }
                            }
                        },
                        _ => field_next(s, p + 3, attr, some),
                    }
                }
            },
            _ => field_next(s, p + 1, attr, some),
        }
    }
}

/// As `type_tail`, for the field reader that takes the shape of a type for
/// granted: a token other than punctuation or an identifier inside the
/// angle brackets stops the expansion.
pub open spec fn strict_type_tail(s: Seq<Token>, q: int, ty: Seq<char>) -> Result<(Option<Seq<char>>, int), MacroError>
    decreases s.len() - q,
{
    if q >= s.len() || q < 0 {
        Ok((None, q))
    } else {
        match s[q] {
            Token::Punct(c) => if c == '>' {
                Ok((Some(ty.push(c)), q + 1))
            } else {
                strict_type_tail(s, q + 1, ty.push(c))
            },
            Token::Ident(i) => strict_type_tail(s, q + 1, ty + i@),
            _ => Err(MacroError::Unreachable),
        }
    }
}

/// What `Field::try_from_iter` reads from position `p` on, with the
/// settings `attr` of the last `ormcle(...)` attribute seen, and the position
/// after it. A field that has settings is not returned.
pub open spec fn field_from(s: Seq<Token>, p: int, attr: Option<AttributeView>) -> Result<(Option<FieldView>, int), MacroError>
    decreases s.len() - p,
{
    if p >= s.len() || p < 0 {
        Ok((None, p))
    } else {
        match s[p] {
            Token::Punct(c) => if c == '#' {
                if p + 1 >= s.len() {
                    Err(MacroError::Unreachable)
                } else {
                    match s[p + 1] {
                        Token::Group(_, g) => match ormcle_args(g@) {
                            Some(inner) => match field_attr(inner) {
                                Ok(a) => field_from(s, p + 2, a),
                                Err(e) => Err(e),
                            },
                            None => field_from(s, p + 2, attr),
                        },
                        _ => Err(MacroError::Unreachable),
                    }
                }
            } else {
                field_from(s, p + 1, attr)
            },
            Token::Ident(name) => {
                if p + 1 >= s.len() {
                    Ok((None, p + 1))
                } else if !is_punct(s[p + 1], ':') {
                    Ok((None, p + 2))
                } else if p + 2 >= s.len() {
                    Err(MacroError::Unreachable)
                } else {
                    match s[p + 2] {
                        Token::Ident(t) => {
                            let ty: Result<(Option<Seq<char>>, int), MacroError> = if p + 3 >= s.len() {
                                Ok((Some(t@), p + 3))
                            } else if !is_punct(s[p + 3], '<') {
                                Ok((Some(t@), p + 4))
                            } else {
                                strict_type_tail(s, p + 4, t@.push('<'))
                            };
                            match ty {
                                Err(e) => Err(e),
                                Ok((None, q)) => Ok((None, q)),
                                Ok((Some(ty), q)) => if attr is Some {
                                    Ok((None, q))
                                } else {
                                    Ok((Some(FieldView { field_name: name@, field_type: ty, attr: None }), q))
                                },
                            }
                        },
                        _ => Err(MacroError::Unreachable),
                    }
                }
            },
            _ => field_from(s, p + 1, attr),
        }
    }
}

/// The fields that the field iterator hands out one after the other from
/// position `p` until it gives `None`; `Err` where it stops the expansion.
pub open spec fn fields_read(g: Seq<Token>, p: int) -> Result<Seq<FieldView>, MacroError>
    decreases g.len() - p,
{
    if p < 0 || p > g.len() {
        Ok(seq![])
    } else {
        proof {
            lemma_field_next(g, p, AttributeView::default_field(), false);
        }
        match field_iter_next(g, p) {
            Err(e) => Err(e),
            Ok((None, _)) => Ok(seq![]),
            Ok((Some(f), q)) => match fields_read(g, q) {
                Ok(rest) => Ok(seq![f] + rest),
                Err(e) => Err(e),
            },
        }
    }
}

/// What the field iterator's `next` gives from position `p`.
pub open spec fn field_iter_next(s: Seq<Token>, p: int) -> Result<(Option<FieldView>, int), MacroError> {
    field_next(s, p, AttributeView::default_field(), false)
}

/// The tokens inside the parentheses of `ormcle(...)`, if `g` has that shape.
pub fn ormcle_args_of<'a>(g: &'a Vec<Token>) -> (r: Option<&'a Vec<Token>>)
    ensures
        match r {
            Some(inner) => ormcle_args(g@) == Some(inner@),
            None => ormcle_args(g@) is None,
        },
{
    let mut group = TokenCursor::new(g);
    match group.next() {
        Some(Token::Ident(i)) => {
            if str_is(i, "ormcle") {
                match group.next() {
                    Some(Token::Group(_, inner)) => Some(inner),
                    _ => None,
                }
            } else {
                None
            }
        },
        _ => None,
    }
}

/// Whether the tokens of an attribute `#[...]` are the key marker `id(...)`.
pub fn id_marker(g: &Vec<Token>) -> (r: bool)
    ensures
        r == is_id_marker(g@),
{
    let mut group = TokenCursor::new(g);
    match group.next() {
        Some(Token::Ident(i)) => str_is(i, "id"),
        _ => false,
    }
}

/// Applies the entries of an `ormcle(...)` attribute to a field setting.
pub fn apply_field_entries(inner: &Vec<Token>, start: Attribute, some: bool) -> (r: Result<(Attribute, bool), MacroError>)
    ensures
        match r {
            Ok((a, s)) => field_entries_from(inner@, 0, start@, some) == Ok::<(AttributeView, bool), MacroError>((a@, s)),
            Err(e) => field_entries_from(inner@, 0, start@, some) == Err::<(AttributeView, bool), MacroError>(e),
        },
{
    let ghost g = inner@;
    let ghost goal = field_entries_from(g, 0, start@, some);
    let mut attr = start;
    let mut some_element = some;
    let mut attr_iter = AttrIterator::from(inner);
    loop
        invariant
            attr_iter.ts.tokens == inner,
            g == inner@,
            goal == field_entries_from(inner@, 0, start@, some),
            field_entries_from(g, attr_iter.ts.pos as int, attr@, some_element) == goal,
        decreases g.len() - attr_iter.ts.pos,
    {
        let ghost q = attr_iter.ts.pos as int;
        proof {
            lemma_attr_next_advances(g, q);
        }
        match attr_iter.next() {
            Some(attribute) => {
                some_element = true;
                match attribute {
                    Ok(Attr::Flag(Flag::PrimaryKey)) => {
                        attr = attr.with_primary_key();
                    },
                    Ok(Attr::KeyValue(KeyValue { key: Key::ColumnName, value })) => {
                        attr = attr.with_column_name(value);
                    },
                    Ok(_) => {
                        return Err(MacroError::Unreachable);
                    },
                    Err(e) => {
                        return Err(MacroError::Entry(e));
                    },
                }
            },
            None => {
                return Ok((attr, some_element));
            },
        }
    }
}

/// Reads the rest of a generic type up to and including the first `>`,
/// appending punctuation and identifiers to `ty`.
pub fn read_type_tail(ts: &mut TokenCursor, start: String) -> (r: Option<String>)
    ensures
        final(ts).tokens == old(ts).tokens,
        (match r {
            Some(t) => Some(t@),
            None => None,
        }, final(ts).pos as int) == type_tail(old(ts).tokens@, old(ts).pos as int, start@),
{
    let ghost s = ts.tokens@;
    let ghost goal = type_tail(s, ts.pos as int, start@);
    let mut ty = start;
    loop
        invariant
            ts.tokens == old(ts).tokens,
            goal == type_tail(old(ts).tokens@, old(ts).pos as int, start@),
            s == ts.tokens@,
            type_tail(s, ts.pos as int, ty@) == goal,
        decreases s.len() - ts.pos,
    {
        match ts.next() {
            Some(Token::Punct(c)) => {
                let p_as_char = *c;
                let type_end = p_as_char == '>';
                push_char(&mut ty, p_as_char);
                if type_end {
                    return Some(ty);
                }
            },
            Some(Token::Ident(i)) => {
                ty.append(i.as_str());
            },
            None => {
                return None;
            },
            _ => {
                continue;
            },
        }
    }
}

/// As `read_type_tail`, where a token other than punctuation or an
/// identifier inside the angle brackets stops the expansion.
pub fn read_type_tail_strict(ts: &mut TokenCursor, start: String) -> (r: Result<Option<String>, MacroError>)
    ensures
        final(ts).tokens == old(ts).tokens,
        match r {
            Ok(Some(t)) => strict_type_tail(old(ts).tokens@, old(ts).pos as int, start@)
                == Ok::<(Option<Seq<char>>, int), MacroError>((Some(t@), final(ts).pos as int)),
            Ok(None) => strict_type_tail(old(ts).tokens@, old(ts).pos as int, start@)
                == Ok::<(Option<Seq<char>>, int), MacroError>((None, final(ts).pos as int)),
            Err(e) => strict_type_tail(old(ts).tokens@, old(ts).pos as int, start@)
                == Err::<(Option<Seq<char>>, int), MacroError>(e),
        },
{
    let ghost s = ts.tokens@;
    let ghost goal = strict_type_tail(s, ts.pos as int, start@);
    let mut ty = start;
    loop
        invariant
            ts.tokens == old(ts).tokens,
            goal == strict_type_tail(old(ts).tokens@, old(ts).pos as int, start@),
            s == ts.tokens@,
            strict_type_tail(s, ts.pos as int, ty@) == goal,
        decreases s.len() - ts.pos,
    {
        match ts.next() {
            Some(Token::Punct(c)) => {
                let p_as_char = *c;
                let type_end = p_as_char == '>';
                push_char(&mut ty, p_as_char);
                if type_end {
                    return Ok(Some(ty));
                }
            },
            Some(Token::Ident(i)) => {
                ty.append(i.as_str());
            },
            None => {
                return Ok(None);
            },
            _ => {
                return Err(MacroError::Unreachable);
            },
        }
    }
}

impl Field {
    /// Whether the field is flagged as the primary key. A field's settings
    /// are never those of a struct.
    pub fn is_pk(&self) -> (r: bool)
        requires
            !(self.attr matches Some(Attribute::Struct { .. })),
        ensures
            r == flags_primary_key(opt_attribute_view(self.attr)),
    {
        match &self.attr {
            Some(Attribute::Field { primary_key, .. }) => *primary_key,
            _ => false,
        }
    }

    /// Reads one field from a token cursor, taking the settings of the last
    /// `ormcle(...)` attribute before it; a field that has settings gives
    /// `None`. `Err` where the reading stops the expansion.
    pub fn try_from_iter_checked(ts: &mut TokenCursor) -> (r: Result<Option<Self>, MacroError>)
        ensures
            final(ts).tokens == old(ts).tokens,
            match r {
                Ok(f) => field_from(old(ts).tokens@, old(ts).pos as int, None)
                    == Ok::<(Option<FieldView>, int), MacroError>((opt_field_view(f), final(ts).pos as int)),
                Err(e) => field_from(old(ts).tokens@, old(ts).pos as int, None)
                    == Err::<(Option<FieldView>, int), MacroError>(e),
            },
    {
        let ghost s = ts.tokens@;
        let ghost goal = field_from(s, ts.pos as int, None);
        let mut attr: Option<Attribute> = None;
        loop
            invariant
                ts.tokens == old(ts).tokens,
                s == ts.tokens@,
                goal == field_from(old(ts).tokens@, old(ts).pos as int, None),
                field_from(s, ts.pos as int, opt_attribute_view(attr)) == goal,
            decreases s.len() - ts.pos,
        {
            match ts.next() {
                Some(Token::Punct(c)) => {
                    if *c == '#' {
                        let group: &Vec<Token> = match ts.next() {
                            Some(Token::Group(_, g)) => g,
                            _ => {
                                return Err(MacroError::Unreachable);
                            },
                        };
                        if let Some(attr_group) = ormcle_args_of(group) {
                            match Attribute::try_parse_field_checked(attr_group) {
                                Ok(a) => {
                                    attr = a;
                                },
                                Err(e) => {
                                    return Err(e);
                                },
                            }
                        }
                    }
                },
                Some(Token::Ident(i)) => {
                    let field_name = i.clone();
                    let colon_found = match ts.next() {
                        Some(Token::Punct(c)) => *c == ':',
                        _ => false,
                    };
                    if !colon_found {
                        return Ok(None);
                    }
                    let field_type = match ts.next() {
                        Some(Token::Ident(t)) => {
                            let ty = t.clone();
                            let opening_bracket = match ts.next() {
                                Some(Token::Punct(c)) => *c == '<',
                                _ => false,
                            };
                            if !opening_bracket {
                                ty
                            } else {
                                let mut ty2 = ty;
                                push_char(&mut ty2, '<');
                                match read_type_tail_strict(ts, ty2) {
                                    Ok(Some(t2)) => t2,
                                    Ok(None) => {
                                        return Ok(None);
                                    },
                                    Err(e) => {
                                        return Err(e);
                                    },
                                }
                            }
                        },
                        _ => {
                            return Err(MacroError::Unreachable);
                        },
                    };
                    if attr.is_some() {
                        return Ok(None);
                    }
                    return Ok(Some(Field { field_name, field_type, attr }));
                },
                Some(_) => {
                    continue;
                },
                None => {
                    return Ok(None);
                },
            }
        }
    }

    /// Reads one field from a token cursor, on input that does not stop the
    /// expansion.
    pub fn try_from_iter(ts: &mut TokenCursor) -> (r: Option<Self>)
        requires
            field_from(old(ts).tokens@, old(ts).pos as int, None) is Ok,
        ensures
            final(ts).tokens == old(ts).tokens,
            field_from(old(ts).tokens@, old(ts).pos as int, None)
                == Ok::<(Option<FieldView>, int), MacroError>((opt_field_view(r), final(ts).pos as int)),
    {
        match Field::try_from_iter_checked(ts) {
            Ok(f) => f,
            Err(_) => {
                proof {
                    assert(false);
                }
                None
            },
        }
    }
}

/// Reads the fields of a struct body one after the other.
pub struct FieldIterator<'a> {
    pub ts: TokenCursor<'a>,
}

impl<'a> FieldIterator<'a> {
    /// An iterator over the tokens of a struct body.
    pub fn from(stream: &'a Vec<Token>) -> (r: Self)
        ensures
            r.ts.tokens == stream,
            r.ts.pos == 0,
    {
        FieldIterator { ts: TokenCursor::new(stream) }
    }

    /// The next field; `Ok(None)` where the reading ends, `Err` where the
    /// expansion stops.
    pub fn next_checked(&mut self) -> (r: Result<Option<Field>, MacroError>)
        ensures
            final(self).ts.tokens == old(self).ts.tokens,
            match r {
                Ok(f) => field_iter_next(old(self).ts.tokens@, old(self).ts.pos as int)
                    == Ok::<(Option<FieldView>, int), MacroError>((opt_field_view(f), final(self).ts.pos as int)),
                Err(e) => field_iter_next(old(self).ts.tokens@, old(self).ts.pos as int)
                    == Err::<(Option<FieldView>, int), MacroError>(e),
            },
    {
        let ghost s = self.ts.tokens@;
        let ghost goal = field_iter_next(s, self.ts.pos as int);
        let mut attr = Attribute::default_field();
        let mut some_element = false;
        loop
            invariant
                self.ts.tokens == old(self).ts.tokens,
                s == self.ts.tokens@,
                goal == field_iter_next(old(self).ts.tokens@, old(self).ts.pos as int),
                field_next(s, self.ts.pos as int, attr@, some_element) == goal,
            decreases s.len() - self.ts.pos,
        {
            match self.ts.next() {
                Some(Token::Punct(c)) => {
                    if *c == '#' {
                        let group: &Vec<Token> = match self.ts.next() {
                            Some(Token::Group(_, g)) => g,
                            _ => {
                                return Err(MacroError::Unreachable);
                            },
                        };
                        if let Some(inner) = ormcle_args_of(group) {
                            match apply_field_entries(inner, attr, some_element) {
                                Ok((a, s2)) => {
                                    attr = a;
                                    some_element = s2;
                                },
                                Err(e) => {
                                    return Err(e);
                                },
                            }
                        } else if id_marker(group) {
                            attr = attr.with_primary_key();
                            some_element = true;
                        }
                    }
                },
                Some(Token::Ident(i)) => {
                    let field_name = i.clone();
                    let colon_found = match self.ts.next() {
                        Some(Token::Punct(c)) => *c == ':',
                        _ => false,
                    };
                    if !colon_found {
                        return Ok(None);
                    }
                    let ty_token = self.ts.next();
                    if let Some(Token::Ident(t)) = ty_token {
                        let ty = t.clone();
                        let opening_bracket = match self.ts.next() {
                            Some(Token::Punct(c)) => *c == '<',
                            _ => false,
                        };
                        let field_type = if !opening_bracket {
                            ty
                        } else {
                            let mut ty2 = ty;
                            push_char(&mut ty2, '<');
                            match read_type_tail(&mut self.ts, ty2) {
                                Some(t2) => t2,
                                None => {
                                    return Ok(None);
                                },
                            }
                        };
                        let attr_out = if some_element { Some(attr) } else { None };
                        return Ok(Some(Field { field_name, field_type, attr: attr_out }));
                    }
                },
                Some(_) => {
                    continue;
                },
                None => {
                    return Ok(None);
                },
            }
        }
    }

    /// The next field, on input that does not stop the expansion.
    pub fn next(&mut self) -> (r: Option<Field>)
        requires
            field_iter_next(old(self).ts.tokens@, old(self).ts.pos as int) is Ok,
        ensures
            final(self).ts.tokens == old(self).ts.tokens,
            field_iter_next(old(self).ts.tokens@, old(self).ts.pos as int)
                == Ok::<(Option<FieldView>, int), MacroError>((opt_field_view(r), final(self).ts.pos as int)),
    {
        match self.next_checked() {
            Ok(f) => f,
            Err(_) => {
                proof {
                    assert(false);
                }
                None
            },
        }
    }
}


/// A field's settings are never those of a struct.
pub open spec fn field_setting_ok(a: Option<AttributeView>) -> bool {
    !(a matches Some(AttributeView::Struct { .. }))
}

/// The rest of a generic type ends at or after where it starts, and within
/// the stream when it starts within it.
pub proof fn lemma_type_tail_bounds(s: Seq<Token>, q: int, ty: Seq<char>)
    requires
        0 <= q <= s.len(),
    ensures
        q <= type_tail(s, q, ty).1 <= s.len(),
        type_tail(s, q, ty).0 is Some ==> q < type_tail(s, q, ty).1,
    decreases s.len() - q,
{
    if q < s.len() {
        match s[q] {
            Token::Punct(c) => if c != '>' {
                lemma_type_tail_bounds(s, q + 1, ty.push(c));
            },
            Token::Ident(i) => lemma_type_tail_bounds(s, q + 1, ty + i@),
            _ => lemma_type_tail_bounds(s, q + 1, ty),
        }
    }
}

/// The entries of an `ormcle(...)` attribute turn a field setting into a
/// field setting.
pub proof fn lemma_field_entries_keep_field(inner: Seq<Token>, q: int, attr: AttributeView, some: bool)
    requires
        0 <= q,
        attr is Field,
    ensures
        field_entries_from(inner, q, attr, some) matches Ok((a, _)) ==> a is Field,
    decreases inner.len() - q,
{
    let (r, nq) = attr_next(inner, q);
    lemma_attr_next_advances(inner, q);
    match r {
        Some(Ok(AttrView::Flag(Flag::PrimaryKey))) => lemma_field_entries_keep_field(inner, nq, attr.set_primary_key(), true),
        Some(Ok(AttrView::KeyValue(Key::ColumnName, v))) => lemma_field_entries_keep_field(inner, nq, attr.set_column_name(v), true),
        _ => {},
    }
}

/// Each field that the field iterator hands out moves it forward within the
/// stream, and carries a field setting or none.
pub proof fn lemma_field_next(s: Seq<Token>, p: int, attr: AttributeView, some: bool)
    requires
        0 <= p <= s.len(),
        attr is Field,
    ensures
        field_next(s, p, attr, some) matches Ok((r, q)) ==> p <= q <= s.len(),
        field_next(s, p, attr, some) matches Ok((Some(f), q)) ==> p < q && field_setting_ok(f.attr),
    decreases s.len() - p,
{
    if p < s.len() {
        match s[p] {
            Token::Punct(c) => if c == '#' {
                if p + 1 < s.len() {
                    match s[p + 1] {
                        Token::Group(_, g) => match ormcle_args(g@) {
                            Some(inner) => {
                                lemma_field_entries_keep_field(inner, 0, attr, some);
                                match field_entries_from(inner, 0, attr, some) {
                                    Ok((a2, s2)) => lemma_field_next(s, p + 2, a2, s2),
                                    Err(_) => {},
                                }
                            },
                            None => if is_id_marker(g@) {
                                lemma_field_next(s, p + 2, attr.set_primary_key(), true);
                            } else {
                                lemma_field_next(s, p + 2, attr, some);
                            },
                        },
                        _ => {},
                    }
                }
            } else {
                lemma_field_next(s, p + 1, attr, some);
            },
            Token::Ident(_) => {
                if p + 1 < s.len() && is_punct(s[p + 1], ':') {
                    if p + 2 >= s.len() {
                        lemma_field_next(s, p + 2, attr, some);
                    } else {
                        match s[p + 2] {
                            Token::Ident(t) => {
                                if p + 3 < s.len() && is_punct(s[p + 3], '<') {
                                    lemma_type_tail_bounds(s, p + 4, t@.push('<'));
                                }
                            },
                            _ => lemma_field_next(s, p + 3, attr, some),
                        }
                    }
                }
            },
            _ => lemma_field_next(s, p + 1, attr, some),
        }
    }
}

} // verus!
