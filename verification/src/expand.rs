//! What the derive macros `Table`, `Test` and `Id` make of a struct
//! definition: the checks on its tokens and the code they emit.
use vstd::prelude::*;
use crate::token::{Token, Delim, TokenCursor, str_is, push_text, uppercase_of, to_uppercase};
use crate::attribute::{Attribute, AttributeView};
use crate::field::{Field, FieldView, FieldIterator, field_iter_next, field_setting_ok, flags_primary_key, lemma_field_next};
use crate::entity::{Entity, EntityView, entity_from};
use crate::code::{field_init_text, push_field, find_by_id_text, find_by_id_code, repository_text, repository_code, get_row_head_text, get_row_tail_text, get_row_head};
use crate::error::MacroError;

verus! {

/// The views of a sequence of fields.
pub open spec fn field_views(v: Seq<Field>) -> Seq<FieldView> {
    v.map_values(|f: Field| f@)
}

/// The views of a sequence of strings.
pub open spec fn string_views(v: Seq<String>) -> Seq<Seq<char>> {
    v.map_values(|s: String| s@)
}

/// The column that the repository reads a field from: the column name of its
/// attribute, else its name in upper case.
pub open spec fn table_column_of(f: FieldView) -> Seq<char> {
    match f.attr {
        Some(AttributeView::Field { column_name: Some(c), .. }) => c,
        _ => uppercase_of(f.field_name),
    }
}

/// The column that `get_row` reads a field from: the column name of its
/// attribute, else its name as it is.
pub open spec fn row_column_of(f: FieldView) -> Seq<char> {
    match f.attr {
        Some(AttributeView::Field { column_name: Some(c), .. }) => c,
        _ => f.field_name,
    }
}

/// The initializers of the fields, each read from the column at the same
/// position.
pub open spec fn fields_text(fields: Seq<FieldView>, columns: Seq<Seq<char>>) -> Seq<char>
    decreases fields.len(),
{
    if fields.len() == 0 {
        seq![]
    } else {
        fields_text(fields.drop_last(), columns) + field_init_text(
            fields.last().field_name,
            columns[fields.len() - 1],
        )
    }
}

/// The position of the first field from `i` on that is flagged as the
/// primary key.
pub open spec fn first_pk_from(fields: Seq<FieldView>, i: int) -> Option<int>
    decreases fields.len() - i,
{
    if i >= fields.len() || i < 0 {
        None
    } else if flags_primary_key(fields[i].attr) {
        Some(i)
    } else {
        first_pk_from(fields, i + 1)
    }
}

/// The code of a table's repository: `find_all`, and `find_by_id` when a
/// field is flagged as the primary key, keyed by that field's type and
/// column.
pub open spec fn table_code_text(struct_name: Seq<char>, table_name: Seq<char>, fields: Seq<FieldView>, columns: Seq<Seq<char>>) -> Seq<char> {
    let ft = fields_text(fields, columns);
    let id_code = match first_pk_from(fields, 0) {
        Some(i) => find_by_id_text(fields[i].field_type, struct_name, table_name, columns[i], ft),
        None => seq![],
    };
    repository_text(struct_name, table_name, ft, id_code)
}

/// The column that the repository reads a field from.
pub fn table_column_name(field: &Field) -> (r: String)
    requires
        field_setting_ok(field@.attr),
    ensures
        r@ == table_column_of(field@),
{
    match &field.attr {
        Some(Attribute::Field { column_name: Some(c), .. }) => c.clone(),
        _ => to_uppercase(field.field_name.as_str()),
    }
}

/// Writes the code of a table's repository for the given fields, each read
/// from the column at the same position.
pub fn render_table(struct_name: &String, table_name: &String, fields: &Vec<Field>, columns: &Vec<String>) -> (r: String)
    requires
        fields.len() == columns.len(),
    ensures
        r@ == table_code_text(struct_name@, table_name@, field_views(fields@), string_views(columns@)),
{
    let ghost fv = field_views(fields@);
    let ghost cv = string_views(columns@);
    let mut text = String::new();
    let mut id: Option<usize> = None;
    let mut i: usize = 0;
    while i < fields.len()
        invariant
            i <= fields.len(),
            fields.len() == columns.len(),
            fv == field_views(fields@),
            cv == string_views(columns@),
            text@ == fields_text(fv.take(i as int), cv),
            match id {
                Some(j) => j < i && first_pk_from(fv, 0) == Some(j as int),
                None => first_pk_from(fv, 0) == first_pk_from(fv, i as int),
            },
        decreases fields.len() - i,
    {
        assert(fv.take(i + 1).drop_last() =~= fv.take(i as int));
        push_field(&mut text, fields[i].field_name.as_str(), columns[i].as_str());
        let pk = match &fields[i].attr {
            Some(Attribute::Field { primary_key, .. }) => *primary_key,
            _ => false,
        };
        if id.is_none() && pk {
            id = Some(i);
        }
        i = i + 1;
    }
    assert(fv.take(fields.len() as int) =~= fv);
    let id_code = match id {
        Some(j) => find_by_id_code(
            fields[j].field_type.as_str(),
            struct_name.as_str(),
            table_name.as_str(),
            columns[j].as_str(),
            text.as_str(),
        ),
        None => String::new(),
    };
    repository_code(struct_name.as_str(), table_name.as_str(), text.as_str(), id_code.as_str())
}

/// The tokens of the first group from position `p` on.
pub open spec fn first_group_from(s: Seq<Token>, p: int) -> Option<Seq<Token>>
    decreases s.len() - p,
{
    if p >= s.len() || p < 0 {
        None
    } else {
        match s[p] {
            Token::Group(_, g) => Some(g@),
            _ => first_group_from(s, p + 1),
        }
    }
}

/// The fields of a table's struct body from position `p` on, where `seen`
/// tells whether a field before was flagged as the primary key. A second
/// such field stops the expansion.
pub open spec fn table_fields_from(g: Seq<Token>, p: int, seen: bool) -> Result<Seq<FieldView>, MacroError>
    decreases g.len() - p,
{
    if p < 0 || p > g.len() {
        Ok(seq![])
    } else {
        proof {
            lemma_field_next(g, p, AttributeView::default_field(), false);
        }
        match field_iter_next(g, p) {
            Err(e) => Err(e),
            Ok((None, _)) => Ok(seq![]),
            Ok((Some(f), q)) => if flags_primary_key(f.attr) && seen {
                Err(MacroError::DuplicateId)
            } else {
                match table_fields_from(g, q, seen || flags_primary_key(f.attr)) {
                    Ok(rest) => Ok(seq![f] + rest),
                    Err(e) => Err(e),
                }
            },
        }
    }
}

/// The name of a table: the one its struct attribute sets, else the
/// struct's name.
pub open spec fn table_name_of(e: EntityView) -> Seq<char> {
    match e.attr {
        Some(AttributeView::Struct { table_name: Some(t) }) => t,
        _ => e.struct_name,
    }
}

/// What the `Table` derive makes of the tokens of a struct definition: the
/// repository code, or where it stops.
pub open spec fn table_expansion(s: Seq<Token>) -> Result<Seq<char>, MacroError> {
    match entity_from(s, 0, None) {
        Err(e) => Err(e),
        Ok((None, _)) => Err(MacroError::NoEntity),
        Ok((Some(ent), q)) => match first_group_from(s, q) {
            None => Err(MacroError::Unreachable),
            Some(g) => match table_fields_from(g, 0, false) {
                Err(e) => Err(e),
                Ok(fields) => Ok(
                    table_code_text(
                        ent.struct_name,
                        table_name_of(ent),
                        fields,
                        fields.map_values(|f: FieldView| table_column_of(f)),
                    ),
                ),
            },
        },
    }
}

/// `prefix` before what a reading gives, or where it stops.
pub open spec fn after_prefix<T>(prefix: Seq<T>, r: Result<Seq<T>, MacroError>) -> Result<Seq<T>, MacroError> {
    match r {
        Ok(rest) => Ok(prefix + rest),
        Err(e) => Err(e),
    }
}

/// The first group from the cursor on, the cursor left after it.
pub fn next_group<'a>(ts: &mut TokenCursor<'a>) -> (r: Option<&'a Vec<Token>>)
    ensures
        final(ts).tokens == old(ts).tokens,
        match r {
            Some(g) => first_group_from(old(ts).tokens@, old(ts).pos as int) == Some(g@),
            None => first_group_from(old(ts).tokens@, old(ts).pos as int) is None,
        },
{
    let ghost s = ts.tokens@;
    let ghost goal = first_group_from(s, ts.pos as int);
    loop
        invariant
            ts.tokens == old(ts).tokens,
            s == ts.tokens@,
            goal == first_group_from(old(ts).tokens@, old(ts).pos as int),
            first_group_from(s, ts.pos as int) == goal,
        decreases s.len() - ts.pos,
    {
        match ts.next() {
            Some(Token::Group(_, g)) => {
                return Some(g);
            },
            None => {
                return None;
            },
            _ => {
                continue;
            },
        }
    }
}

/// Reads the fields of a table's struct body; a second field flagged as the
/// primary key stops the expansion.
pub fn collect_table_fields(g: &Vec<Token>) -> (r: Result<Vec<Field>, MacroError>)
    ensures
        match r {
            Ok(v) => table_fields_from(g@, 0, false) == Ok::<Seq<FieldView>, MacroError>(field_views(v@))
                && forall|i: int| 0 <= i < v@.len() ==> field_setting_ok(#[trigger] v@[i]@.attr),
            Err(e) => table_fields_from(g@, 0, false) == Err::<Seq<FieldView>, MacroError>(e),
        },
{
    let ghost s = g@;
    let ghost goal = table_fields_from(s, 0, false);
    let mut field_iter = FieldIterator::from(g);
    let mut out: Vec<Field> = Vec::new();
    let mut seen = false;
    loop
        invariant
            field_iter.ts.tokens == g,
            s == g@,
            goal == table_fields_from(g@, 0, false),
            field_iter.ts.pos <= s.len(),
            goal == after_prefix(field_views(out@), table_fields_from(s, field_iter.ts.pos as int, seen)),
            forall|i: int| 0 <= i < out@.len() ==> field_setting_ok(#[trigger] out@[i]@.attr),
        decreases s.len() - field_iter.ts.pos,
    {
        let ghost p = field_iter.ts.pos as int;
        proof {
            lemma_field_next(s, p, AttributeView::default_field(), false);
        }
        match field_iter.next_checked() {
            Err(e) => {
                return Err(e);
            },
            Ok(None) => {
                assert(field_views(out@) + seq![] =~= field_views(out@));
                return Ok(out);
            },
            Ok(Some(field)) => {
                let pk = field.is_pk();
                if pk && seen {
                    return Err(MacroError::DuplicateId);
                }
                seen = seen || pk;
                let ghost fv = field@;
                let ghost before = field_views(out@);
                out.push(field);
                proof {
                    assert(field_views(out@) =~= before.push(fv));
                    match table_fields_from(s, field_iter.ts.pos as int, seen) {
                        Ok(rest) => {
                            assert(before + (seq![fv] + rest) =~= before.push(fv) + rest);
                        },
                        Err(_) => {},
                    }
                }
            },
        }
    }
}

/// What the `Table` derive emits for the tokens of a struct definition;
/// `Err` where it stops.
pub fn expand_table(tokens: &Vec<Token>) -> (r: Result<String, MacroError>)
    ensures
        match r {
            Ok(out) => table_expansion(tokens@) == Ok::<Seq<char>, MacroError>(out@),
            Err(e) => table_expansion(tokens@) == Err::<Seq<char>, MacroError>(e),
        },
{
    let mut ts = TokenCursor::new(tokens);
    let entity = match Entity::try_from_iter_checked(&mut ts) {
        Ok(Some(e)) => e,
        Ok(None) => {
            return Err(MacroError::NoEntity);
        },
        Err(e) => {
            return Err(e);
        },
    };
    let table_name = match &entity.attr {
        Some(Attribute::Struct { table_name: Some(t) }) => t.clone(),
        _ => entity.struct_name.clone(),
    };
    let group = match next_group(&mut ts) {
        Some(g) => g,
        None => {
            return Err(MacroError::Unreachable);
        },
    };
    let fields = match collect_table_fields(group) {
        Ok(f) => f,
        Err(e) => {
            return Err(e);
        },
    };
    let ghost fv = field_views(fields@);
    let mut columns: Vec<String> = Vec::new();
    let mut i: usize = 0;
    while i < fields.len()
        invariant
            i <= fields.len(),
            columns.len() == i,
            fv == field_views(fields@),
            forall|k: int| 0 <= k < fields@.len() ==> field_setting_ok(#[trigger] fields@[k]@.attr),
            string_views(columns@) =~= fv.take(i as int).map_values(|f: FieldView| table_column_of(f)),
        decreases fields.len() - i,
    {
        let c = table_column_name(&fields[i]);
        let ghost prev = string_views(columns@);
        let ghost cv = c@;
        columns.push(c);
        proof {
            assert(string_views(columns@) =~= prev.push(cv));
            assert(fv[i as int] == fields@[i as int]@);
            assert(fv.take(i + 1) =~= fv.take(i as int).push(fv[i as int]));
        }
        i = i + 1;
    }
    assert(fv.take(fields.len() as int) =~= fv);
    Ok(render_table(&entity.struct_name, &table_name, &fields, &columns))
}

/// The name after the first `struct` keyword from position `p` on, and the
/// position after it; the reading stops when there is no `struct` keyword
/// or no name after it.
pub open spec fn struct_name_from(s: Seq<Token>, p: int) -> Result<(Seq<char>, int), MacroError>
    decreases s.len() - p,
{
    if p >= s.len() || p < 0 {
        Err(MacroError::ExpectedStructDefinition)
    } else {
        match s[p] {
            Token::Ident(i) => if i@ == "struct"@ {
                if p + 1 < s.len() && s[p + 1] is Ident {
                    match s[p + 1] {
                        Token::Ident(n) => Ok((n@, p + 2)),
                        _ => Err(MacroError::ExpectedStructName),
                    }
                } else {
                    Err(MacroError::ExpectedStructName)
                }
            } else {
                struct_name_from(s, p + 1)
            },
            _ => struct_name_from(s, p + 1),
        }
    }
}

/// The tokens of the first brace group from position `p` on.
pub open spec fn brace_group_from(s: Seq<Token>, p: int) -> Result<Seq<Token>, MacroError>
    decreases s.len() - p,
{
    if p >= s.len() || p < 0 {
        Err(MacroError::ExpectedFieldsDefinition)
    } else {
        match s[p] {
            Token::Group(d, g) => if d == Delim::Brace {
                Ok(g@)
            } else {
                brace_group_from(s, p + 1)
            },
            _ => brace_group_from(s, p + 1),
        }
    }
}

/// The initializers that `get_row` builds for the fields of a struct body
/// from position `p` on.
pub open spec fn row_fields_from(g: Seq<Token>, p: int) -> Result<Seq<char>, MacroError>
    decreases g.len() - p,
{
    if p < 0 || p > g.len() {
        Ok(seq![])
    } else {
        proof {
            lemma_field_next(g, p, AttributeView::default_field(), false);
        }
        match field_iter_next(g, p) {
            Err(e) => Err(e),
            Ok((None, _)) => Ok(seq![]),
            Ok((Some(f), q)) => after_prefix(field_init_text(f.field_name, row_column_of(f)), row_fields_from(g, q)),
        }
    }
}

/// What the `Test` derive makes of the tokens of a struct definition: a
/// `get_row` function that builds the struct from a database row, or where
/// it stops.
pub open spec fn test_expansion(s: Seq<Token>) -> Result<Seq<char>, MacroError> {
    match struct_name_from(s, 0) {
        Err(e) => Err(e),
        Ok((name, q)) => match brace_group_from(s, q) {
            Err(e) => Err(e),
            Ok(g) => match row_fields_from(g, 0) {
                Err(e) => Err(e),
                Ok(ft) => Ok(get_row_head_text(name) + ft + get_row_tail_text()),
            },
        },
    }
}

/// Finds the name after the first `struct` keyword, the cursor left after it.
pub fn read_struct_name(ts: &mut TokenCursor) -> (r: Result<String, MacroError>)
    ensures
        final(ts).tokens == old(ts).tokens,
        match r {
            Ok(n) => struct_name_from(old(ts).tokens@, old(ts).pos as int)
                == Ok::<(Seq<char>, int), MacroError>((n@, final(ts).pos as int)),
            Err(e) => struct_name_from(old(ts).tokens@, old(ts).pos as int)
                == Err::<(Seq<char>, int), MacroError>(e),
        },
{
    let ghost s = ts.tokens@;
    let ghost goal = struct_name_from(s, ts.pos as int);
    loop
        invariant
            ts.tokens == old(ts).tokens,
            s == ts.tokens@,
            goal == struct_name_from(old(ts).tokens@, old(ts).pos as int),
            struct_name_from(s, ts.pos as int) == goal,
        decreases s.len() - ts.pos,
    {
        match ts.next() {
            Some(Token::Ident(i)) => {
                if str_is(i, "struct") {
                    match ts.next() {
                        Some(Token::Ident(n)) => {
                            return Ok(n.clone());
                        },
                        _ => {
                            return Err(MacroError::ExpectedStructName);
                        },
                    }
                }
            },
            None => {
                return Err(MacroError::ExpectedStructDefinition);
            },
            _ => {
                continue;
            },
        }
    }
}

/// Finds the first brace group, the cursor left after it.
pub fn next_brace_group<'a>(ts: &mut TokenCursor<'a>) -> (r: Result<&'a Vec<Token>, MacroError>)
    ensures
        final(ts).tokens == old(ts).tokens,
        match r {
            Ok(g) => brace_group_from(old(ts).tokens@, old(ts).pos as int) == Ok::<Seq<Token>, MacroError>(g@),
            Err(e) => brace_group_from(old(ts).tokens@, old(ts).pos as int) == Err::<Seq<Token>, MacroError>(e),
        },
{
    let ghost s = ts.tokens@;
    let ghost goal = brace_group_from(s, ts.pos as int);
    loop
        invariant
            ts.tokens == old(ts).tokens,
            s == ts.tokens@,
            goal == brace_group_from(old(ts).tokens@, old(ts).pos as int),
            brace_group_from(s, ts.pos as int) == goal,
        decreases s.len() - ts.pos,
    {
        match ts.next() {
            Some(Token::Group(d, g)) => {
                if *d == Delim::Brace {
                    return Ok(g);
                }
            },
            None => {
                return Err(MacroError::ExpectedFieldsDefinition);
            },
            _ => {
                continue;
            },
        }
    }
}

/// What the `Test` derive emits for the tokens of a struct definition;
/// `Err` where it stops.
pub fn expand_test(tokens: &Vec<Token>) -> (r: Result<String, MacroError>)
    ensures
        match r {
            Ok(out) => test_expansion(tokens@) == Ok::<Seq<char>, MacroError>(out@),
            Err(e) => test_expansion(tokens@) == Err::<Seq<char>, MacroError>(e),
        },
{
    let mut ts = TokenCursor::new(tokens);
    let struct_name = match read_struct_name(&mut ts) {
        Ok(n) => n,
        Err(e) => {
            return Err(e);
        },
    };
    let group = match next_brace_group(&mut ts) {
        Ok(g) => g,
        Err(e) => {
            return Err(e);
        },
    };
    let ghost s = group@;
    let ghost goal = test_expansion(tokens@);
    let mut field_iter = FieldIterator::from(group);
    let mut output = get_row_head(struct_name.as_str());
    let ghost head = output@;
    loop
        invariant
            field_iter.ts.tokens == group,
            s == group@,
            field_iter.ts.pos <= s.len(),
            goal == test_expansion(tokens@),
            goal == match after_prefix(output@, row_fields_from(s, field_iter.ts.pos as int)) {
                Ok(t) => Ok(t + get_row_tail_text()),
                Err(e) => Err(e),
            },
        decreases s.len() - field_iter.ts.pos,
    {
        let ghost p = field_iter.ts.pos as int;
        proof {
            lemma_field_next(s, p, AttributeView::default_field(), false);
        }
        match field_iter.next_checked() {
            Err(e) => {
                return Err(e);
            },
            Ok(None) => {
                let ghost before = output@;
                push_text(&mut output, "})}}");
                assert(before + seq![] =~= before);
                return Ok(output);
            },
            Ok(Some(field)) => {
                let ghost before = output@;
                let column: &String = match &field.attr {
                    Some(Attribute::Field { column_name: Some(c), .. }) => c,
                    _ => &field.field_name,
                };
                push_field(&mut output, field.field_name.as_str(), column.as_str());
                proof {
                    match row_fields_from(s, field_iter.ts.pos as int) {
                        Ok(rest) => {
                            assert(before + (field_init_text(field@.field_name, row_column_of(field@)) + rest)
                                =~= output@ + rest);
                        },
                        Err(_) => {},
                    }
                }
            },
        }
    }
}

/// The fields that the `Id` derive reads from a struct body from position
/// `p` on: each name must be followed by `:` and a type name.
pub open spec fn id_fields_from(g: Seq<Token>, p: int) -> Result<Seq<(Seq<char>, Seq<char>)>, MacroError>
    decreases g.len() - p,
{
    if p >= g.len() || p < 0 {
        Ok(seq![])
    } else {
        match g[p] {
            Token::Ident(f) => {
                if p + 2 < g.len() && is_colon(g[p + 1]) && g[p + 2] is Ident {
                    match g[p + 2] {
                        Token::Ident(t) => after_prefix(seq![(f@, t@)], id_fields_from(g, p + 3)),
                        _ => Err(MacroError::ExpectedFieldType),
                    }
                } else {
                    Err(MacroError::ExpectedFieldType)
                }
            },
            _ => id_fields_from(g, p + 1),
        }
    }
}

/// The token is `:`.
pub open spec fn is_colon(t: Token) -> bool {
    t matches Token::Punct(c) && c == ':'
}

/// Whether the `Id` derive comes to an end on the tokens of a struct
/// definition: it waits for ever when the struct name ends the input.
pub open spec fn id_halts(s: Seq<Token>) -> bool {
    match struct_name_from(s, 0) {
        Err(_) => true,
        Ok((_, q)) => q < s.len(),
    }
}

/// The code that the `Id` derive emits.
pub open spec fn id_code_text() -> Seq<char> {
    "const s: &'static str = \"oi\";"@
}

/// What the `Id` derive makes of the tokens of a struct definition, where it
/// comes to an end: the token after the struct name must be a brace group
/// declaring at least one field, each with a type name.
pub open spec fn id_expansion(s: Seq<Token>) -> Result<Seq<char>, MacroError> {
    match struct_name_from(s, 0) {
        Err(e) => Err(e),
        Ok((_, q)) => if q >= s.len() || q < 0 {
            Err(MacroError::ExpectedFieldsDefinition)
        } else {
            match s[q] {
                Token::Group(d, g) => if d == Delim::Brace {
                    match id_fields_from(g@, 0) {
                        Err(e) => Err(e),
                        Ok(fields) => if fields.len() == 0 {
                            Err(MacroError::ExpectedFields)
                        } else {
                            Ok(id_code_text())
                        },
                    }
                } else {
                    Err(MacroError::ExpectedFieldsDefinition)
                },
                _ => Err(MacroError::ExpectedFieldsDefinition),
            }
        },
    }
}

/// Whether the `Id` derive comes to an end on these tokens.
pub fn id_expansion_halts(tokens: &Vec<Token>) -> (r: bool)
    ensures
        r == id_halts(tokens@),
{
    let mut ts = TokenCursor::new(tokens);
    match read_struct_name(&mut ts) {
        Ok(_) => ts.pos < tokens.len(),
        Err(_) => true,
    }
}

/// Reads the fields of a struct body as the `Id` derive does.
pub fn collect_id_fields(g: &Vec<Token>) -> (r: Result<Vec<(String, String)>, MacroError>)
    ensures
        match r {
            Ok(v) => id_fields_from(g@, 0) == Ok::<Seq<(Seq<char>, Seq<char>)>, MacroError>(
                v@.map_values(|p: (String, String)| (p.0@, p.1@)),
            ),
            Err(e) => id_fields_from(g@, 0) == Err::<Seq<(Seq<char>, Seq<char>)>, MacroError>(e),
        },
{
    let ghost s = g@;
    let ghost goal = id_fields_from(s, 0);
    let mut inner_ts = TokenCursor::new(g);
    let mut fields: Vec<(String, String)> = Vec::new();
    loop
        invariant
            inner_ts.tokens == g,
            s == g@,
            goal == id_fields_from(g@, 0),
            goal == after_prefix(
                fields@.map_values(|p: (String, String)| (p.0@, p.1@)),
                id_fields_from(s, inner_ts.pos as int),
            ),
        decreases s.len() - inner_ts.pos,
    {
        match inner_ts.next() {
            Some(Token::Ident(i)) => {
                let field = i.clone();
                let colon = match inner_ts.next() {
                    Some(Token::Punct(c)) => *c == ':',
                    _ => false,
                };
                let field_type = if colon {
                    match inner_ts.next() {
                        Some(Token::Ident(t)) => Some(t.clone()),
                        _ => None,
                    }
                } else {
                    None
                };
                match field_type {
                    Some(ft) => {
                        let ghost before = fields@.map_values(|p: (String, String)| (p.0@, p.1@));
                        let ghost pair = (field@, ft@);
                        fields.push((field, ft));
                        proof {
                            assert(fields@.map_values(|p: (String, String)| (p.0@, p.1@)) =~= before.push(pair));
                            match id_fields_from(s, inner_ts.pos as int) {
                                Ok(rest) => {
                                    assert(before + (seq![pair] + rest) =~= before.push(pair) + rest);
                                },
                                Err(_) => {},
                            }
                        }
                    },
                    None => {
                        return Err(MacroError::ExpectedFieldType);
                    },
                }
            },
            Some(_) => {
                continue;
            },
            None => {
                proof {
                    let v = fields@.map_values(|p: (String, String)| (p.0@, p.1@));
                    assert(v + seq![] =~= v);
                }
                return Ok(fields);
            },
        }
    }
}

/// What the `Id` derive emits for the tokens of a struct definition on which
/// it comes to an end; `Err` where it stops.
pub fn expand_id(tokens: &Vec<Token>) -> (r: Result<String, MacroError>)
    requires
        id_halts(tokens@),
    ensures
        match r {
            Ok(out) => id_expansion(tokens@) == Ok::<Seq<char>, MacroError>(out@),
            Err(e) => id_expansion(tokens@) == Err::<Seq<char>, MacroError>(e),
        },
{
    let mut ts = TokenCursor::new(tokens);
    match read_struct_name(&mut ts) {
        Ok(_) => {},
        Err(e) => {
            return Err(e);
        },
    }
    let inner: &Vec<Token> = match ts.next() {
        Some(Token::Group(d, g)) => {
            if *d == Delim::Brace {
                g
            } else {
                return Err(MacroError::ExpectedFieldsDefinition);
            }
        },
        _ => {
            return Err(MacroError::ExpectedFieldsDefinition);
        },
    };
    let fields = match collect_id_fields(inner) {
        Ok(f) => f,
        Err(e) => {
            return Err(e);
        },
    };
    if fields.len() == 0 {
        return Err(MacroError::ExpectedFields);
    }
    let mut out = String::new();
    push_text(&mut out, "const s: &'static str = \"oi\";");
    assert(out@ =~= id_code_text());
    Ok(out)
}

} // verus!
