//! The settings that `ormcle(...)` attributes give a struct or a field.
use vstd::prelude::*;
use crate::token::{Token, TokenCursor, is_punct, unquoted, unquote, str_is, uppercase_of, to_uppercase};
use crate::error::MacroError;

verus! {

/// What the attributes of a struct or of a field set.
#[derive(Debug)]
pub enum Attribute {
    Struct { table_name: Option<String> },
    Field { column_name: Option<String>, primary_key: bool },
}

/// An attribute setting as a mathematical value.
pub enum AttributeView {
    Struct { table_name: Option<Seq<char>> },
    Field { column_name: Option<Seq<char>>, primary_key: bool },
}

/// The view of an optional string.
pub open spec fn opt_str_view(o: Option<String>) -> Option<Seq<char>> {
    match o {
        Some(s) => Some(s@),
        None => None,
    }
}

impl View for Attribute {
    type V = AttributeView;

    open spec fn view(&self) -> AttributeView {
        match self {
            Attribute::Struct { table_name } => AttributeView::Struct {
                table_name: opt_str_view(*table_name),
            },
            Attribute::Field { column_name, primary_key } => AttributeView::Field {
                column_name: opt_str_view(*column_name),
                primary_key: *primary_key,
            },
        }
    }
}

impl AttributeView {
    /// A struct setting with no table name.
    pub open spec fn default_struct() -> AttributeView {
        AttributeView::Struct { table_name: None }
    }

    /// A field setting with no column name that is not the primary key.
    pub open spec fn default_field() -> AttributeView {
        AttributeView::Field { column_name: None, primary_key: false }
    }

    /// Sets the table name of a struct setting; a field setting is kept.
    pub open spec fn set_table_name(self, v: Seq<char>) -> AttributeView {
        match self {
            AttributeView::Struct { .. } => AttributeView::Struct { table_name: Some(v) },
            AttributeView::Field { .. } => self,
        }
    }

    /// Sets the column name of a field setting; a struct setting is kept.
    pub open spec fn set_column_name(self, v: Seq<char>) -> AttributeView {
        match self {
            AttributeView::Struct { .. } => self,
            AttributeView::Field { primary_key, .. } => AttributeView::Field {
                column_name: Some(v),
                primary_key,
            },
        }
    }

    /// Flags a field setting as the primary key; a struct setting is kept.
    pub open spec fn set_primary_key(self) -> AttributeView {
        match self {
            AttributeView::Struct { .. } => self,
            AttributeView::Field { column_name, .. } => AttributeView::Field {
                column_name,
                primary_key: true,
            },
        }
    }
}

/// What `try_parse_struct` makes of the tokens of a struct attribute from
/// position `q` on, with `attr` set so far: each identifier must be
/// `table_name`, followed by `=` and a literal; anything else refuses the
/// whole attribute.
pub open spec fn struct_attr_from(g: Seq<Token>, q: int, attr: AttributeView) -> Option<AttributeView>
    decreases g.len() - q,
{
    if q >= g.len() || q < 0 {
        Some(attr)
    } else {
        match g[q] {
            Token::Ident(f) => {
                if !(q + 1 < g.len() && is_punct(g[q + 1], '=')) {
                    None
                } else if !(q + 2 < g.len() && g[q + 2] is Literal) {
                    None
                } else if f@ != "table_name"@ {
                    None
                } else {
                    match g[q + 2] {
                        Token::Literal(l) => struct_attr_from(g, q + 3, attr.set_table_name(unquoted(l@))),
                        _ => None,
                    }
                }
            },
            _ => struct_attr_from(g, q + 1, attr),
        }
    }
}

/// What a field attribute's tokens say from position `q` on, read as they
/// are written: the value of the last `column_name = "x"` entry (without its
/// quotes) and whether `primary_key` appears, given `column` and `pk` read so
/// far and `some` telling whether any token was read. Another key with `=`
/// and a literal is passed over; a key without `=` refuses the attribute;
/// `=` without a literal after it is a shape the parser takes for granted.
pub open spec fn field_entries_raw_from(g: Seq<Token>, q: int, column: Option<Seq<char>>, pk: bool, some: bool) -> Result<Option<(Option<Seq<char>>, bool)>, MacroError>
    decreases g.len() - q,
{
    if q >= g.len() || q < 0 {
        Ok(if some { Some((column, pk)) } else { None })
    } else {
        match g[q] {
            Token::Ident(k) => {
                if k@ == "primary_key"@ {
                    field_entries_raw_from(g, q + 1, column, true, true)
                } else if !(q + 1 < g.len() && is_punct(g[q + 1], '=')) {
                    Ok(None)
                } else if !(q + 2 < g.len() && g[q + 2] is Literal) {
                    Err(MacroError::Unreachable)
                } else if k@ == "column_name"@ {
                    match g[q + 2] {
                        Token::Literal(l) => field_entries_raw_from(g, q + 3, Some(unquoted(l@)), pk, true),
                        _ => Err(MacroError::Unreachable),
                    }
                } else {
                    field_entries_raw_from(g, q + 3, column, pk, true)
                }
            },
            _ => field_entries_raw_from(g, q + 1, column, pk, true),
        }
    }
}

/// What a field attribute's tokens say, read as they are written.
pub open spec fn field_entries_raw(g: Seq<Token>) -> Result<Option<(Option<Seq<char>>, bool)>, MacroError> {
    field_entries_raw_from(g, 0, None, false, false)
}

/// The field setting with the given column name and primary-key flag.
pub open spec fn field_setting_of(column: Option<Seq<char>>, pk: bool) -> AttributeView {
    AttributeView::Field { column_name: column, primary_key: pk }
}

/// What `try_parse_field` makes of a field attribute's tokens: the setting
/// whose column name is the last `column_name` value in upper case, flagged
/// as the primary key when `primary_key` appears; `None` for no tokens or a
/// refused attribute.
pub open spec fn field_attr(g: Seq<Token>) -> Result<Option<AttributeView>, MacroError> {
    match field_entries_raw(g) {
        Ok(Some((column, pk))) => Ok(Some(field_setting_of(
            match column {
                Some(c) => Some(uppercase_of(c)),
                None => None,
            },
            pk,
        ))),
        Ok(None) => Ok(None),
        Err(e) => Err(e),
    }
}

impl Attribute {
    /// A struct setting with no table name.
    pub fn default_struct() -> (r: Self)
        ensures
            r@ == AttributeView::default_struct(),
    {
        Attribute::Struct { table_name: None }
    }

    /// A field setting with no column name that is not the primary key.
    pub fn default_field() -> (r: Self)
        ensures
            r@ == AttributeView::default_field(),
    {
        Attribute::Field { column_name: None, primary_key: false }
    }

    /// Sets the table name of a struct setting; a field setting is returned
    /// as it was.
    pub fn with_table_name(self, value: String) -> (r: Self)
        ensures
            r@ == self@.set_table_name(value@),
    {
        match self {
            Attribute::Struct { table_name: _ } => Attribute::Struct { table_name: Some(value) },
            Attribute::Field { .. } => self,
        }
    }

    /// Sets the column name of a field setting, keeping its primary-key flag;
    /// a struct setting is returned as it was.
    pub fn with_column_name(self, value: String) -> (r: Self)
        ensures
            r@ == self@.set_column_name(value@),
    {
        match self {
            Attribute::Struct { .. } => self,
            Attribute::Field { primary_key, .. } => Attribute::Field {
                column_name: Some(value),
                primary_key,
            },
        }
    }

    /// Flags a field setting as the primary key, keeping its column name; a
    /// struct setting is returned as it was.
    pub fn with_primary_key(self) -> (r: Self)
        ensures
            r@ == self@.set_primary_key(),
    {
        match self {
            Attribute::Struct { .. } => self,
            Attribute::Field { column_name, .. } => Attribute::Field {
                column_name,
                primary_key: true,
            },
        }
    }

    /// Reads the entries of a struct attribute `ormcle(table_name = "x")`
    /// from the tokens inside its parentheses.
    pub fn try_parse_struct(stream: &Vec<Token>) -> (r: Option<Self>)
        ensures
            match r {
                Some(a) => struct_attr_from(stream@, 0, AttributeView::default_struct()) == Some(a@),
                None => struct_attr_from(stream@, 0, AttributeView::default_struct()) is None,
            },
    {
        let ghost g = stream@;
        let mut ts = TokenCursor::new(stream);
        let mut attr = Attribute::default_struct();
        loop
            invariant
                ts.tokens == stream,
                g == stream@,
                struct_attr_from(g, ts.pos as int, attr@) == struct_attr_from(g, 0, AttributeView::default_struct()),
            decreases g.len() - ts.pos,
        {
            match ts.next() {
                Some(Token::Ident(i)) => {
                    let equal_found = match ts.next() {
                        Some(Token::Punct(c)) => *c == '=',
                        _ => false,
                    };
                    if !equal_found {
                        return None;
                    }
                    let maybe_value = match ts.next() {
                        Some(Token::Literal(l)) => unquote(l),
                        _ => {
                            return None;
                        },
                    };
                    if str_is(i, "table_name") {
                        attr = attr.with_table_name(maybe_value);
                    } else {
                        return None;
                    }
                },
                Some(_) => {
                    continue;
                },
                None => {
                    return Some(attr);
                },
            }
        }
    }

    /// Reads a field attribute's entries as they are written: the value of
    /// the last `column_name` entry and whether `primary_key` appears;
    /// `Err` where the reading stops with a panic.
    pub fn read_field_entries(stream: &Vec<Token>) -> (r: Result<Option<(Option<String>, bool)>, MacroError>)
        ensures
            match r {
                Ok(Some((c, pk))) => field_entries_raw(stream@)
                    == Ok::<Option<(Option<Seq<char>>, bool)>, MacroError>(Some((opt_str_view(c), pk))),
                Ok(None) => field_entries_raw(stream@) == Ok::<Option<(Option<Seq<char>>, bool)>, MacroError>(None),
                Err(e) => field_entries_raw(stream@) == Err::<Option<(Option<Seq<char>>, bool)>, MacroError>(e),
            },
    {
        let ghost g = stream@;
        let mut ts = TokenCursor::new(stream);
        let mut column: Option<String> = None;
        let mut pk = false;
        let mut some_element = false;
        loop
            invariant
                ts.tokens == stream,
                g == stream@,
                field_entries_raw_from(g, ts.pos as int, opt_str_view(column), pk, some_element) == field_entries_raw(g),
            decreases g.len() - ts.pos,
        {
            match ts.next() {
                Some(tt) => {
                    some_element = true;
                    match tt {
                        Token::Ident(i) => {
                            if str_is(i, "primary_key") {
                                pk = true;
                            } else {
                                let equal_found = match ts.next() {
                                    Some(Token::Punct(c)) => *c == '=',
                                    _ => false,
                                };
                                if !equal_found {
                                    return Ok(None);
                                }
                                let value = match ts.next() {
                                    Some(Token::Literal(l)) => unquote(l),
                                    _ => {
                                        return Err(MacroError::Unreachable);
                                    },
                                };
                                if str_is(i, "column_name") {
                                    column = Some(value);
                                } else {
                                    continue;
                                }
                            }
                        },
                        _ => {
                            continue;
                        },
                    }
                },
                None => {
                    return Ok(if some_element { Some((column, pk)) } else { None });
                },
            }
        }
    }

    /// The field setting with the given column name and primary-key flag.
    pub fn field_setting(column: Option<String>, primary_key: bool) -> (r: Self)
        ensures
            r@ == field_setting_of(opt_str_view(column), primary_key),
    {
        let mut attr = Attribute::default_field();
        if primary_key {
            attr = attr.with_primary_key();
        }
        match column {
            Some(c) => attr.with_column_name(c),
            None => attr,
        }
    }

    /// Reads the entries of a field attribute from the tokens inside its
    /// parentheses; `Err` where the reading stops with a panic.
    pub fn try_parse_field_checked(stream: &Vec<Token>) -> (r: Result<Option<Self>, MacroError>)
        ensures
            match r {
                Ok(Some(a)) => field_attr(stream@) == Ok::<Option<AttributeView>, MacroError>(Some(a@)),
                Ok(None) => field_attr(stream@) == Ok::<Option<AttributeView>, MacroError>(None),
                Err(e) => field_attr(stream@) == Err::<Option<AttributeView>, MacroError>(e),
            },
    {
        match Attribute::read_field_entries(stream) {
            Ok(Some((column, pk))) => {
                let upper = match column {
                    Some(c) => Some(to_uppercase(c.as_str())),
                    None => None,
                };
                Ok(Some(Attribute::field_setting(upper, pk)))
            },
            Ok(None) => Ok(None),
            Err(e) => Err(e),
        }
    }

    /// Reads the entries of a field attribute from the tokens inside its
    /// parentheses, on input that does not break the shapes it takes for
    /// granted.
    pub fn try_parse_field(stream: &Vec<Token>) -> (r: Option<Self>)
        requires
            field_entries_raw(stream@) is Ok,
        ensures
            field_attr(stream@) == Ok::<Option<AttributeView>, MacroError>(
                match r {
                    Some(a) => Some(a@),
                    None => None,
                },
            ),
    {
        match Attribute::try_parse_field_checked(stream) {
            Ok(r) => r,
            Err(_) => {
                proof {
                    assert(false);
                }
                None
            },
        }
    }
}

} // verus!
