//! Properties that hold of every input of the readers and of every
//! expansion.
use vstd::prelude::*;
use crate::token::{Token, Delim, unquoted, ident_is, is_punct, uppercase_of};
use crate::attr::{key_named, flag_named, attr_next, AttrView, Key, Flag, lemma_attr_next_advances};
use crate::attribute::{AttributeView, field_entries_raw_from, field_entries_raw, struct_attr_from};
use crate::field::{field_entries_from, FieldView, field_iter_next, field_next, fields_read, field_setting_ok, flags_primary_key, lemma_field_next, lemma_type_tail_bounds, type_tail};
use crate::expand::{table_fields_from, table_code_text, fields_text, first_pk_from, row_fields_from, row_column_of, table_column_of, test_expansion, table_name_of, struct_name_from, brace_group_from, id_fields_from, id_expansion, id_code_text, is_colon};
use crate::code::{field_init_text, find_by_id_text, repository_text, get_row_head_text, get_row_tail_text};
use crate::error::MacroError;
use crate::entity::EntityView;

verus! {

/// Once the attribute iterator has no entry left, it stays at the end of its
/// tokens and has no entry left on the next call either.
pub proof fn lemma_attr_iterator_fused(s: Seq<Token>, p: int)
    requires
        0 <= p,
        attr_next(s, p).0 is None,
    ensures
        attr_next(s, p).1 >= s.len(),
        attr_next(s, attr_next(s, p).1).0 is None,
        attr_next(s, attr_next(s, p).1).1 == attr_next(s, p).1,
{
    crate::attr::lemma_attr_next_advances(s, p);
}

/// Taking the quotes out of a text leaves no quote in it.
pub proof fn lemma_unquoted_has_no_quote(s: Seq<char>)
    ensures
        forall|i: int| 0 <= i < unquoted(s).len() ==> unquoted(s)[i] != '"',
    decreases s.len(),
{
    if s.len() > 0 {
        lemma_unquoted_has_no_quote(s.drop_last());
        let r = unquoted(s.drop_last());
        if s.last() != '"' {
            assert forall|i: int| 0 <= i < unquoted(s).len() implies unquoted(s)[i] != '"' by {
                if i < r.len() {
                    assert(unquoted(s)[i] == r[i]);
                }
            }
        }
    }
}

/// Taking the quotes out of a text twice gives what taking them out once
/// gives.
pub proof fn lemma_unquoted_idempotent(s: Seq<char>)
    ensures
        unquoted(unquoted(s)) == unquoted(s),
    decreases s.len(),
{
    if s.len() > 0 {
        lemma_unquoted_idempotent(s.drop_last());
        let r = unquoted(s.drop_last());
        if s.last() != '"' {
            assert(r.push(s.last()).drop_last() =~= r);
        }
    }
}

/// Naming a field's column and flagging it as the primary key can be done
/// in either order.
pub proof fn lemma_field_setters_commute(a: AttributeView, v: Seq<char>)
    ensures
        a.set_column_name(v).set_primary_key() == a.set_primary_key().set_column_name(v),
{
}

/// Flagging the primary key twice is flagging it once, and of two column
/// names the last one set stands.
pub proof fn lemma_field_setters_overwrite(a: AttributeView, v: Seq<char>, w: Seq<char>)
    ensures
        a.set_primary_key().set_primary_key() == a.set_primary_key(),
        a.set_column_name(v).set_column_name(w) == a.set_column_name(w),
{
}

/// The field setters leave a struct setting as it is, and the table-name
/// setter leaves a field setting as it is.
pub proof fn lemma_setters_keep_the_other_kind(a: AttributeView, v: Seq<char>)
    ensures
        a is Struct ==> a.set_column_name(v) == a && a.set_primary_key() == a,
        a is Field ==> a.set_table_name(v) == a,
{
}

/// Every field of a table that the expansion accepts carries a field
/// setting or none, and at most one of them is flagged as the primary key;
/// when the fields before were already flagged, none is.
pub proof fn lemma_table_fields_single_key(g: Seq<Token>, p: int, seen: bool)
    requires
        0 <= p <= g.len(),
    ensures
        table_fields_from(g, p, seen) matches Ok(fields) ==> {
            &&& forall|i: int| 0 <= i < fields.len() ==> field_setting_ok(#[trigger] fields[i].attr)
            &&& forall|i: int, j: int|
                0 <= i < j < fields.len() ==> !(flags_primary_key(#[trigger] fields[i].attr) && flags_primary_key(
                    #[trigger] fields[j].attr,
                ))
            &&& seen ==> forall|i: int| 0 <= i < fields.len() ==> !flags_primary_key(#[trigger] fields[i].attr)
        },
    decreases g.len() - p,
{
    lemma_field_next(g, p, AttributeView::default_field(), false);
    match field_iter_next(g, p) {
        Ok((Some(f), q)) => {
            let seen2 = seen || flags_primary_key(f.attr);
            lemma_table_fields_single_key(g, q, seen2);
            match table_fields_from(g, q, seen2) {
                Ok(rest) => {
                    if !(flags_primary_key(f.attr) && seen) {
                        let fields = seq![f] + rest;
                        assert forall|i: int| 0 <= i < fields.len() implies field_setting_ok(#[trigger] fields[i].attr) by {
                            if i > 0 {
                                assert(fields[i] == rest[i - 1]);
                            }
                        }
                        assert forall|i: int, j: int|
                            0 <= i < j < fields.len() implies !(flags_primary_key(#[trigger] fields[i].attr)
                                && flags_primary_key(#[trigger] fields[j].attr)) by {
                            assert(fields[j] == rest[j - 1]);
                            if i > 0 {
                                assert(fields[i] == rest[i - 1]);
                            }
                        }
                        if seen {
                            assert forall|i: int| 0 <= i < fields.len() implies !flags_primary_key(
                                #[trigger] fields[i].attr,
                            ) by {
                                if i > 0 {
                                    assert(fields[i] == rest[i - 1]);
                                }
                            }
                        }
                    }
                },
                Err(_) => {},
            }
        },
        _ => {},
    }
}

/// The tokens from position `q` on are `J1, ..., Jm>` for the identifiers
/// `params` (at least one), and `end` is the position after the `>`.
pub open spec fn generic_params_at(g: Seq<Token>, q: int, params: Seq<Seq<char>>, end: int) -> bool
    decreases params.len(),
{
    &&& params.len() >= 1
    &&& 0 <= q
    &&& q + 1 < g.len()
    &&& ident_is(g[q], params[0])
    &&& if params.len() == 1 {
        is_punct(g[q + 1], '>') && end == q + 2
    } else {
        is_punct(g[q + 1], ',') && generic_params_at(g, q + 2, params.drop_first(), end)
    }
}

/// The identifiers `params` joined by commas.
pub open spec fn joined(params: Seq<Seq<char>>) -> Seq<char>
    decreases params.len(),
{
    if params.len() <= 1 {
        if params.len() == 1 {
            params[0]
        } else {
            seq![]
        }
    } else {
        params[0] + seq![','] + joined(params.drop_first())
    }
}

/// The type parameters `J1, ..., Jm>` are read as the text `J1,...,Jm>`
/// after what was read before.
pub proof fn lemma_generic_params(g: Seq<Token>, q: int, params: Seq<Seq<char>>, end: int, ty: Seq<char>)
    requires
        generic_params_at(g, q, params, end),
    ensures
        type_tail(g, q, ty) == (Some(ty + joined(params) + seq!['>']), end),
        q + 2 <= end <= g.len(),
    decreases params.len(),
{
    let j = params[0];
    if params.len() == 1 {
        assert(type_tail(g, q + 1, ty + j) == (Some((ty + j).push('>')), q + 2));
        assert((ty + j).push('>') =~= ty + joined(params) + seq!['>']);
    } else {
        lemma_generic_params(g, q + 2, params.drop_first(), end, (ty + j).push(','));
        assert(type_tail(g, q + 1, ty + j) == type_tail(g, q + 2, (ty + j).push(',')));
        assert((ty + j).push(',') + joined(params.drop_first()) + seq!['>'] =~= ty + joined(params) + seq!['>']);
    }
}

/// The tokens from position `p` on declare exactly `fields`, one after the
/// other, as `name: Type` without attributes, separated by commas, with an
/// optional comma at the end; each type is an identifier `T`, read as `T`,
/// or `I<J1, ..., Jm>` with identifiers, read as `I<J1,...,Jm>`.
pub open spec fn plain_fields_at(g: Seq<Token>, p: int, fields: Seq<FieldView>) -> bool
    decreases fields.len(),
{
    if fields.len() == 0 {
        p == g.len()
    } else {
        let f = fields[0];
        &&& f.attr is None
        &&& 0 <= p
        &&& p + 2 < g.len()
        &&& ident_is(g[p], f.field_name)
        &&& is_punct(g[p + 1], ':')
        &&& match g[p + 2] {
            Token::Ident(t) => {
                ||| {
                    &&& f.field_type == t@
                    &&& {
                        ||| p + 3 == g.len() && fields.len() == 1
                        ||| p + 3 < g.len() && is_punct(g[p + 3], ',') && plain_fields_at(g, p + 4, fields.drop_first())
                    }
                }
                ||| exists|params: Seq<Seq<char>>, r: int|
                    #[trigger] generic_params_at(g, p + 4, params, r) && {
                        &&& p + 3 < g.len()
                        &&& is_punct(g[p + 3], '<')
                        &&& f.field_type == t@ + seq!['<'] + joined(params) + seq!['>']
                        &&& {
                            ||| r == g.len() && fields.len() == 1
                            ||| r < g.len() && is_punct(g[r], ',') && plain_fields_at(g, r + 1, fields.drop_first())
                        }
                    }
            },
            _ => false,
        }
    }
}

/// A struct body that declares `n1: T1, ..., nk: Tk` gives these k fields,
/// in order, with their types as written and no settings; after them the
/// field iterator gives `None`.
pub proof fn lemma_plain_fields(g: Seq<Token>, p: int, fields: Seq<FieldView>)
    requires
        plain_fields_at(g, p, fields),
    ensures
        fields_read(g, p) == Ok::<Seq<FieldView>, MacroError>(fields),
    decreases fields.len(),
{
    if fields.len() == 0 {
        assert(field_iter_next(g, p) == Ok::<(Option<FieldView>, int), MacroError>((None, p)));
        assert(fields =~= seq![]);
    } else {
        let f = fields[0];
        let rest = fields.drop_first();
        assert(fields =~= seq![f] + rest);
        match g[p + 2] {
            Token::Ident(t) => {
                if f.field_type == t@ && p + 3 == g.len() && fields.len() == 1 {
                    assert(field_iter_next(g, p) == Ok::<(Option<FieldView>, int), MacroError>((Some(f), p + 3)));
                    assert(fields_read(g, p + 3) == Ok::<Seq<FieldView>, MacroError>(seq![]));
                    assert(rest =~= seq![]);
                    assert(seq![f] + seq![] =~= fields);
                } else if f.field_type == t@ && p + 3 < g.len() && is_punct(g[p + 3], ',') && plain_fields_at(g, p + 4, rest) {
                    assert(field_iter_next(g, p) == Ok::<(Option<FieldView>, int), MacroError>((Some(f), p + 4)));
                    lemma_plain_fields(g, p + 4, rest);
                } else {
                    let (params, r) = choose|params: Seq<Seq<char>>, r: int|
                        #[trigger] generic_params_at(g, p + 4, params, r) && {
                            &&& p + 3 < g.len()
                            &&& is_punct(g[p + 3], '<')
                            &&& f.field_type == t@ + seq!['<'] + joined(params) + seq!['>']
                            &&& {
                                ||| r == g.len() && fields.len() == 1
                                ||| r < g.len() && is_punct(g[r], ',') && plain_fields_at(g, r + 1, rest)
                            }
                        };
                    lemma_generic_params(g, p + 4, params, r, t@.push('<'));
                    assert(t@.push('<') + joined(params) + seq!['>'] =~= f.field_type);
                    assert(field_iter_next(g, p) == Ok::<(Option<FieldView>, int), MacroError>((Some(f), r)));
                    if r == g.len() && fields.len() == 1 {
                        assert(fields_read(g, r) == Ok::<Seq<FieldView>, MacroError>(seq![]));
                        assert(rest =~= seq![]);
                        assert(seq![f] + seq![] =~= fields);
                    } else {
                        lemma_plain_fields(g, r + 1, rest);
                        assert(field_iter_next(g, r) == field_iter_next(g, r + 1));
                        lemma_field_next(g, r + 1, AttributeView::default_field(), false);
                        assert(fields_read(g, r) == fields_read(g, r + 1));
                    }
                }
            },
            _ => {},
        }
    }
}

/// The first flagged field from `i` on is the only flagged field `k`, when
/// `i` does not lie past it.
proof fn lemma_first_pk_is_the_flagged(fields: Seq<FieldView>, i: int, k: int)
    requires
        0 <= i <= k < fields.len(),
        flags_primary_key(fields[k].attr),
        forall|j: int| 0 <= j < fields.len() && j != k ==> !flags_primary_key(#[trigger] fields[j].attr),
    ensures
        first_pk_from(fields, i) == Some(k),
    decreases k - i,
{
    if i < k {
        lemma_first_pk_is_the_flagged(fields, i + 1, k);
    }
}

/// With no flagged field from `i` on there is none to find.
proof fn lemma_first_pk_none(fields: Seq<FieldView>, i: int)
    requires
        0 <= i,
        forall|j: int| 0 <= j < fields.len() ==> !flags_primary_key(#[trigger] fields[j].attr),
    ensures
        first_pk_from(fields, i) is None,
    decreases fields.len() - i,
{
    if i < fields.len() {
        lemma_first_pk_none(fields, i + 1);
    }
}

/// The repository of a table whose field `k` is the one flagged as the
/// primary key, wherever it stands among the fields, has `find_by_id` taking
/// that field's type and querying that field's column; with no flagged
/// field it has no `find_by_id`.
pub proof fn lemma_find_by_id_keyed_by_flagged_field(
    struct_name: Seq<char>,
    table_name: Seq<char>,
    fields: Seq<FieldView>,
    columns: Seq<Seq<char>>,
    k: int,
)
    requires
        0 <= k < fields.len(),
        flags_primary_key(fields[k].attr),
        forall|j: int| 0 <= j < fields.len() && j != k ==> !flags_primary_key(#[trigger] fields[j].attr),
    ensures
        table_code_text(struct_name, table_name, fields, columns) == repository_text(
            struct_name,
            table_name,
            fields_text(fields, columns),
            find_by_id_text(fields[k].field_type, struct_name, table_name, columns[k], fields_text(fields, columns)),
        ),
        table_code_text(struct_name, table_name, fields, fields.map_values(|f: FieldView| table_column_of(f)))
            == repository_text(
            struct_name,
            table_name,
            fields_text(fields, fields.map_values(|f: FieldView| table_column_of(f))),
            find_by_id_text(
                fields[k].field_type,
                struct_name,
                table_name,
                table_column_of(fields[k]),
                fields_text(fields, fields.map_values(|f: FieldView| table_column_of(f))),
            ),
        ),
{
    lemma_first_pk_is_the_flagged(fields, 0, k);
}

/// The repository of a table with no field flagged as the primary key has
/// no `find_by_id`.
pub proof fn lemma_no_find_by_id_without_key(
    struct_name: Seq<char>,
    table_name: Seq<char>,
    fields: Seq<FieldView>,
    columns: Seq<Seq<char>>,
)
    requires
        forall|j: int| 0 <= j < fields.len() ==> !flags_primary_key(#[trigger] fields[j].attr),
    ensures
        table_code_text(struct_name, table_name, fields, columns) == repository_text(
            struct_name,
            table_name,
            fields_text(fields, columns),
            seq![],
        ),
{
    lemma_first_pk_none(fields, 0);
}

/// The initializers of a field followed by others: the field's own, then
/// the others'.
pub proof fn lemma_fields_text_prepend(f: FieldView, rest: Seq<FieldView>, c: Seq<char>, cols: Seq<Seq<char>>)
    requires
        rest.len() <= cols.len(),
    ensures
        fields_text(seq![f] + rest, seq![c] + cols) == field_init_text(f.field_name, c) + fields_text(rest, cols),
    decreases rest.len(),
{
    let fs = seq![f] + rest;
    let cs = seq![c] + cols;
    if rest.len() == 0 {
        assert(fs.drop_last() =~= seq![]);
        assert(fields_text(seq![], cs) == Seq::<char>::empty());
        assert(fields_text(rest, cols) == Seq::<char>::empty());
        assert(field_init_text(f.field_name, c) + Seq::<char>::empty() =~= field_init_text(f.field_name, c));
        assert(Seq::<char>::empty() + field_init_text(f.field_name, c) =~= field_init_text(f.field_name, c));
    } else {
        assert(fs.drop_last() =~= seq![f] + rest.drop_last());
        lemma_fields_text_prepend(f, rest.drop_last(), c, cols);
        assert(fs.last() == rest.last());
        assert(cs[fs.len() - 1] == cols[rest.len() - 1]);
        assert(fields_text(seq![f] + rest, seq![c] + cols) =~= field_init_text(f.field_name, c) + fields_text(rest, cols));
    }
}

/// `get_row` initializes every field that the field reader yields, in
/// order, each from its column (the attribute's column name, else the field
/// name), whatever the field's other settings; it stops exactly where the
/// reader stops.
pub proof fn lemma_get_row_covers_every_field(g: Seq<Token>, p: int)
    requires
        0 <= p <= g.len(),
    ensures
        row_fields_from(g, p) == match fields_read(g, p) {
            Ok(fs) => Ok::<Seq<char>, MacroError>(fields_text(fs, fs.map_values(|f: FieldView| row_column_of(f)))),
            Err(e) => Err::<Seq<char>, MacroError>(e),
        },
    decreases g.len() - p,
{
    lemma_field_next(g, p, AttributeView::default_field(), false);
    match field_iter_next(g, p) {
        Ok((Some(f), q)) => {
            lemma_get_row_covers_every_field(g, q);
            match fields_read(g, q) {
                Ok(rest) => {
                    let fs = seq![f] + rest;
                    let cols = rest.map_values(|x: FieldView| row_column_of(x));
                    assert(fs.map_values(|x: FieldView| row_column_of(x)) =~= seq![row_column_of(f)] + cols);
                    lemma_fields_text_prepend(f, rest, row_column_of(f), cols);
                },
                Err(_) => {},
            }
        },
        Ok((None, _)) => {
            let e: Seq<FieldView> = seq![];
            assert(e.map_values(|x: FieldView| row_column_of(x)) =~= seq![]);
        },
        Err(_) => {},
    }
}

/// What the `Test` derive emits for a struct with a name and a brace body:
/// the head of `get_row`, one initializer per field that the reader yields,
/// in order, and the tail.
pub proof fn lemma_test_expansion_covers_every_field(s: Seq<Token>, name: Seq<char>, q: int, g: Seq<Token>)
    requires
        struct_name_from(s, 0) == Ok::<(Seq<char>, int), MacroError>((name, q)),
        brace_group_from(s, q) == Ok::<Seq<Token>, MacroError>(g),
    ensures
        test_expansion(s) == match fields_read(g, 0) {
            Ok(fs) => Ok::<Seq<char>, MacroError>(
                get_row_head_text(name) + fields_text(fs, fs.map_values(|f: FieldView| row_column_of(f)))
                    + get_row_tail_text(),
            ),
            Err(e) => Err::<Seq<char>, MacroError>(e),
        },
{
    lemma_get_row_covers_every_field(g, 0);
}

/// A body without identifiers declares no field for the `Id` derive; a body
/// with an identifier that the derive reads gives at least one field.
proof fn lemma_id_fields_count(g: Seq<Token>, p: int)
    requires
        0 <= p,
    ensures
        (forall|i: int| p <= i < g.len() ==> !(#[trigger] g[i] is Ident)) ==> id_fields_from(g, p)
            == Ok::<Seq<(Seq<char>, Seq<char>)>, MacroError>(seq![]),
        (exists|i: int| p <= i < g.len() && #[trigger] g[i] is Ident) ==> (id_fields_from(g, p) matches Ok(fs) ==> fs.len() > 0),
        id_fields_from(g, p) matches Err(e) ==> e == MacroError::ExpectedFieldType,
    decreases g.len() - p,
{
    if p < g.len() {
        match g[p] {
            Token::Ident(_) => {
                if p + 2 < g.len() && is_colon(g[p + 1]) && g[p + 2] is Ident {
                    lemma_id_fields_count(g, p + 3);
                }
            },
            _ => {
                lemma_id_fields_count(g, p + 1);
                if exists|i: int| p <= i < g.len() && #[trigger] g[i] is Ident {
                    let i = choose|i: int| p <= i < g.len() && #[trigger] g[i] is Ident;
                    assert(i != p);
                    assert(p + 1 <= i);
                }
            },
        }
    }
}

/// The tokens from position `p` on declare exactly `fields` for the `Id`
/// derive: `name: Type` pairs of identifiers, separated by commas, with an
/// optional comma at the end.
pub open spec fn plain_id_fields_at(g: Seq<Token>, p: int, fields: Seq<(Seq<char>, Seq<char>)>) -> bool
    decreases fields.len(),
{
    if fields.len() == 0 {
        p == g.len()
    } else {
        &&& 0 <= p
        &&& p + 2 < g.len()
        &&& ident_is(g[p], fields[0].0)
        &&& is_colon(g[p + 1])
        &&& ident_is(g[p + 2], fields[0].1)
        &&& {
            ||| p + 3 == g.len() && fields.len() == 1
            ||| p + 3 < g.len() && is_punct(g[p + 3], ',') && plain_id_fields_at(g, p + 4, fields.drop_first())
        }
    }
}

/// The `Id` derive reads a body `n1: T1, ..., nk: Tk` as these k pairs, in
/// order.
pub proof fn lemma_id_fields_plain(g: Seq<Token>, p: int, fields: Seq<(Seq<char>, Seq<char>)>)
    requires
        plain_id_fields_at(g, p, fields),
    ensures
        id_fields_from(g, p) == Ok::<Seq<(Seq<char>, Seq<char>)>, MacroError>(fields),
    decreases fields.len(),
{
    if fields.len() == 0 {
        assert(fields =~= seq![]);
    } else {
        let rest = fields.drop_first();
        if p + 3 == g.len() && fields.len() == 1 {
            assert(id_fields_from(g, p + 3) == Ok::<Seq<(Seq<char>, Seq<char>)>, MacroError>(seq![]));
            assert(seq![fields[0]] + seq![] =~= fields);
        } else {
            lemma_id_fields_plain(g, p + 4, rest);
            assert(id_fields_from(g, p + 3) == id_fields_from(g, p + 4));
            assert(seq![fields[0]] + rest =~= fields);
        }
    }
}

/// The `Id` derive, on a struct whose name is followed by a brace body,
/// refuses with `ExpectedFields` exactly when the body holds no identifier,
/// and accepts every body that declares one or more typed fields.
pub proof fn lemma_id_refuses_only_empty_bodies(s: Seq<Token>, name: Seq<char>, q: int, g: Seq<Token>)
    requires
        struct_name_from(s, 0) == Ok::<(Seq<char>, int), MacroError>((name, q)),
        0 <= q < s.len(),
        s[q] matches Token::Group(d, v) && d == Delim::Brace && v@ == g,
    ensures
        (forall|i: int| 0 <= i < g.len() ==> !(#[trigger] g[i] is Ident)) ==> id_expansion(s)
            == Err::<Seq<char>, MacroError>(MacroError::ExpectedFields),
        (exists|i: int| 0 <= i < g.len() && #[trigger] g[i] is Ident) ==> id_expansion(s)
            != Err::<Seq<char>, MacroError>(MacroError::ExpectedFields),
        (exists|i: int| 0 <= i < g.len() && #[trigger] g[i] is Ident) && id_fields_from(g, 0) is Ok ==> id_expansion(s)
            == Ok::<Seq<char>, MacroError>(id_code_text()),
        forall|fields: Seq<(Seq<char>, Seq<char>)>|
            plain_id_fields_at(g, 0, fields) && fields.len() > 0 ==> id_expansion(s) == Ok::<Seq<char>, MacroError>(
                id_code_text(),
            ),
{
    lemma_id_fields_count(g, 0);
    assert forall|fields: Seq<(Seq<char>, Seq<char>)>|
        plain_id_fields_at(g, 0, fields) && fields.len() > 0 implies id_expansion(s) == Ok::<Seq<char>, MacroError>(
            id_code_text(),
        ) by {
        lemma_id_fields_plain(g, 0, fields);
    }
}

/// The value of the string literal at position `i`, without its quotes.
pub open spec fn literal_value_at(g: Seq<Token>, i: int) -> Option<Seq<char>> {
    if 0 <= i < g.len() {
        match g[i] {
            Token::Literal(l) => Some(unquoted(l@)),
            _ => None,
        }
    } else {
        None
    }
}

/// Reading a field attribute's entries as they are written: the key flag is
/// set exactly when a `primary_key` entry appears (or was already set), and
/// the column is the value of the last `column_name` entry (or the one read
/// before, when there is none), whatever the order of the entries.
pub proof fn lemma_field_entries_raw_from(g: Seq<Token>, q: int, column: Option<Seq<char>>, pk0: bool, some: bool)
    requires
        0 <= q,
    ensures
        field_entries_raw_from(g, q, column, pk0, some) matches Ok(Some((c, pk))) ==> {
            &&& pk <==> (pk0 || exists|i: int| q <= i < g.len() && ident_is(#[trigger] g[i], "primary_key"@))
            &&& (forall|i: int| q <= i < g.len() ==> !ident_is(#[trigger] g[i], "column_name"@)) ==> c == column
            &&& forall|j: int|
                q <= j < g.len() && ident_is(#[trigger] g[j], "column_name"@) && (forall|i: int|
                    j < i < g.len() ==> !ident_is(#[trigger] g[i], "column_name"@)) ==> (c is Some
                    && c == literal_value_at(g, j + 2))
        },
    decreases g.len() - q,
{
    if q < g.len() {
        match g[q] {
            Token::Ident(k) => {
                if k@ == "primary_key"@ {
                    lemma_field_entries_raw_from(g, q + 1, column, true, true);
                    if field_entries_raw_from(g, q, column, pk0, some) is Ok {
                        assert(ident_is(g[q], "primary_key"@));
                        assert(!ident_is(g[q], "column_name"@)) by {
                            reveal_strlit("primary_key");
                            reveal_strlit("column_name");
                            assert("primary_key"@[0] != "column_name"@[0]);
                        }
                    }
                } else if q + 1 < g.len() && is_punct(g[q + 1], '=') && q + 2 < g.len() && g[q + 2] is Literal {
                    let next_column = if k@ == "column_name"@ {
                        match g[q + 2] {
                            Token::Literal(l) => Some(unquoted(l@)),
                            _ => column,
                        }
                    } else {
                        column
                    };
                    lemma_field_entries_raw_from(g, q + 3, next_column, pk0, true);
                    assert(!ident_is(g[q + 1], "primary_key"@) && !ident_is(g[q + 2], "primary_key"@));
                    assert(!ident_is(g[q + 1], "column_name"@) && !ident_is(g[q + 2], "column_name"@));
                    assert(!ident_is(g[q], "primary_key"@));
                }
            },
            _ => {
                lemma_field_entries_raw_from(g, q + 1, column, pk0, true);
            },
        }
    }
}

/// A field attribute read as written is flagged as the primary key exactly
/// when a `primary_key` entry appears in it, and names the value of its last
/// `column_name` entry, whatever entries stand before or after.
pub proof fn lemma_field_entries_raw(g: Seq<Token>)
    ensures
        field_entries_raw(g) matches Ok(Some((c, pk))) ==> {
            &&& pk <==> exists|i: int| 0 <= i < g.len() && ident_is(#[trigger] g[i], "primary_key"@)
            &&& (forall|i: int| 0 <= i < g.len() ==> !ident_is(#[trigger] g[i], "column_name"@)) ==> c is None
            &&& forall|j: int|
                0 <= j < g.len() && ident_is(#[trigger] g[j], "column_name"@) && (forall|i: int|
                    j < i < g.len() ==> !ident_is(#[trigger] g[i], "column_name"@)) ==> (c is Some
                    && c == literal_value_at(g, j + 2))
        },
{
    lemma_field_entries_raw_from(g, 0, None, false, false);
}

/// The entries that the attribute iterator reads from position `q` on, up
/// to the end of the tokens or the first refused entry.
pub open spec fn attr_entries(inner: Seq<Token>, q: int) -> Seq<AttrView>
    decreases inner.len() - q,
{
    if q < 0 {
        seq![]
    } else {
        proof {
            lemma_attr_next_advances(inner, q);
        }
        match attr_next(inner, q) {
            (Some(Ok(e)), nq) => seq![e] + attr_entries(inner, nq),
            _ => seq![],
        }
    }
}

/// The column name of a field setting.
pub open spec fn setting_column(a: AttributeView) -> Option<Seq<char>> {
    match a {
        AttributeView::Field { column_name, .. } => column_name,
        AttributeView::Struct { .. } => None,
    }
}

/// The primary-key flag of a field setting.
pub open spec fn setting_pk(a: AttributeView) -> bool {
    match a {
        AttributeView::Field { primary_key, .. } => primary_key,
        AttributeView::Struct { .. } => false,
    }
}

/// The entry names a column.
pub open spec fn is_column_entry(e: AttrView) -> bool {
    e matches AttrView::KeyValue(Key::ColumnName, _)
}

/// The value of a `key = "value"` entry.
pub open spec fn entry_value(e: AttrView) -> Seq<char> {
    match e {
        AttrView::KeyValue(_, v) => v,
        AttrView::Flag(_) => seq![],
    }
}

/// Some entry is `primary_key`.
pub open spec fn has_key_entry(es: Seq<AttrView>) -> bool {
    exists|j: int| 0 <= j < es.len() && #[trigger] es[j] == AttrView::Flag(Flag::PrimaryKey)
}

/// Some entry names a column.
pub open spec fn has_column_entry(es: Seq<AttrView>) -> bool {
    exists|j: int| 0 <= j < es.len() && is_column_entry(#[trigger] es[j])
}

/// Entry `j` names a column and no entry after it does.
pub open spec fn is_last_column_entry(es: Seq<AttrView>, j: int) -> bool {
    &&& 0 <= j < es.len()
    &&& is_column_entry(es[j])
    &&& forall|i: int| j < i < es.len() ==> !is_column_entry(#[trigger] es[i])
}

/// How the three properties of a sequence of entries follow from those of
/// its tail.
proof fn lemma_entries_prepend(e: AttrView, rest: Seq<AttrView>)
    ensures
        has_key_entry(seq![e] + rest) == (e == AttrView::Flag(Flag::PrimaryKey) || has_key_entry(rest)),
        has_column_entry(seq![e] + rest) == (is_column_entry(e) || has_column_entry(rest)),
        forall|j: int| #[trigger] is_last_column_entry(seq![e] + rest, j) ==> (if j == 0 {
            !has_column_entry(rest)
        } else {
            is_last_column_entry(rest, j - 1) && rest[j - 1] == (seq![e] + rest)[j]
        }),
        is_column_entry(e) && !has_column_entry(rest) ==> is_last_column_entry(seq![e] + rest, 0),
{
    let es = seq![e] + rest;
    assert(es[0] == e);
    assert forall|j: int| 0 <= j < rest.len() implies #[trigger] rest[j] == es[j + 1] by {}
    if has_key_entry(rest) {
        let j = choose|j: int| 0 <= j < rest.len() && #[trigger] rest[j] == AttrView::Flag(Flag::PrimaryKey);
        assert(es[j + 1] == AttrView::Flag(Flag::PrimaryKey));
    }
    if has_key_entry(es) {
        let j = choose|j: int| 0 <= j < es.len() && #[trigger] es[j] == AttrView::Flag(Flag::PrimaryKey);
        if j > 0 {
            assert(rest[j - 1] == es[j]);
        }
    }
    if has_column_entry(rest) {
        let j = choose|j: int| 0 <= j < rest.len() && is_column_entry(#[trigger] rest[j]);
        assert(is_column_entry(es[j + 1]));
    }
    if has_column_entry(es) {
        let j = choose|j: int| 0 <= j < es.len() && is_column_entry(#[trigger] es[j]);
        if j > 0 {
            assert(rest[j - 1] == es[j]);
        }
    }
    assert forall|j: int| #[trigger] is_last_column_entry(es, j) implies (if j == 0 {
        !has_column_entry(rest)
    } else {
        is_last_column_entry(rest, j - 1) && rest[j - 1] == es[j]
    }) by {
        if j == 0 {
            if has_column_entry(rest) {
                let k = choose|k: int| 0 <= k < rest.len() && is_column_entry(#[trigger] rest[k]);
                assert(!is_column_entry(es[k + 1]));
            }
        } else {
            assert forall|i: int| j - 1 < i < rest.len() implies !is_column_entry(#[trigger] rest[i]) by {
                assert(rest[i] == es[i + 1]);
            }
        }
    }
    if is_column_entry(e) && !has_column_entry(rest) {
        assert forall|i: int| 0 < i < es.len() implies !is_column_entry(#[trigger] es[i]) by {
            assert(es[i] == rest[i - 1]);
        }
    }
}

/// Applying the entries of an `ormcle(...)` attribute to a field setting
/// changes only what each entry names, so the order of `primary_key` and
/// `column_name` entries does not matter: the result is flagged as the
/// primary key exactly when the setting was or a `primary_key` entry
/// appears, and its column is that of the last `column_name` entry (or the
/// setting's own, when there is none).
pub proof fn lemma_field_entries_commute(inner: Seq<Token>, q: int, attr: AttributeView, some: bool)
    requires
        0 <= q,
        attr is Field,
    ensures
        field_entries_from(inner, q, attr, some) matches Ok((a, _)) ==> {
            let es = attr_entries(inner, q);
            &&& a is Field
            &&& setting_pk(a) == (setting_pk(attr) || has_key_entry(es))
            &&& !has_column_entry(es) ==> setting_column(a) == setting_column(attr)
            &&& forall|j: int| #[trigger] is_last_column_entry(es, j) ==> setting_column(a) == Some(entry_value(es[j]))
        },
    decreases inner.len() - q,
{
    lemma_attr_next_advances(inner, q);
    let (r, nq) = attr_next(inner, q);
    let es = attr_entries(inner, q);
    match r {
        Some(Ok(e)) => {
            let rest = attr_entries(inner, nq);
            assert(es == seq![e] + rest);
            lemma_entries_prepend(e, rest);
            match e {
                AttrView::Flag(Flag::PrimaryKey) => {
                    lemma_field_entries_commute(inner, nq, attr.set_primary_key(), true);
                },
                AttrView::KeyValue(Key::ColumnName, v0) => {
                    lemma_field_entries_commute(inner, nq, attr.set_column_name(v0), true);
                },
                _ => {},
            }
        },
        None => {
            assert(es =~= seq![]);
        },
        _ => {},
    }
}

/// Some field is flagged as the primary key.
pub open spec fn any_flagged(fs: Seq<FieldView>) -> bool {
    exists|i: int| 0 <= i < fs.len() && flags_primary_key(#[trigger] fs[i].attr)
}

/// Two different fields are flagged as the primary key.
pub open spec fn two_flagged(fs: Seq<FieldView>) -> bool {
    exists|i: int, j: int|
        0 <= i < j < fs.len() && flags_primary_key(#[trigger] fs[i].attr) && flags_primary_key(#[trigger] fs[j].attr)
}

/// How the two properties of a sequence of fields follow from those of its
/// tail.
proof fn lemma_flagged_prepend(f: FieldView, rest: Seq<FieldView>)
    ensures
        any_flagged(seq![f] + rest) == (flags_primary_key(f.attr) || any_flagged(rest)),
        two_flagged(seq![f] + rest) == ((flags_primary_key(f.attr) && any_flagged(rest)) || two_flagged(rest)),
{
    let fs = seq![f] + rest;
    assert(fs[0] == f);
    assert forall|j: int| 0 <= j < rest.len() implies #[trigger] rest[j] == fs[j + 1] by {}
    if any_flagged(rest) {
        let j = choose|j: int| 0 <= j < rest.len() && flags_primary_key(#[trigger] rest[j].attr);
        assert(flags_primary_key(fs[j + 1].attr));
        if flags_primary_key(f.attr) {
            assert(flags_primary_key(fs[0].attr) && flags_primary_key(fs[j + 1].attr));
        }
    }
    if any_flagged(fs) {
        let j = choose|j: int| 0 <= j < fs.len() && flags_primary_key(#[trigger] fs[j].attr);
        if j > 0 {
            assert(rest[j - 1] == fs[j]);
        }
    }
    if two_flagged(rest) {
        let (i, j) = choose|i: int, j: int|
            0 <= i < j < rest.len() && flags_primary_key(#[trigger] rest[i].attr) && flags_primary_key(#[trigger] rest[j].attr);
        assert(flags_primary_key(fs[i + 1].attr) && flags_primary_key(fs[j + 1].attr));
    }
    if two_flagged(fs) {
        let (i, j) = choose|i: int, j: int|
            0 <= i < j < fs.len() && flags_primary_key(#[trigger] fs[i].attr) && flags_primary_key(#[trigger] fs[j].attr);
        assert(rest[j - 1] == fs[j]);
        if i > 0 {
            assert(rest[i - 1] == fs[i]);
        } else {
            assert(flags_primary_key(rest[j - 1].attr));
        }
    }
}

/// The `Table` derive takes every field that the field reader yields, in
/// order, and refuses the body with `DuplicateId` exactly when two of them
/// (or one, after a flagged field before) are flagged as the primary key.
pub proof fn lemma_table_fields_are_the_fields_read(g: Seq<Token>, p: int, seen: bool)
    requires
        0 <= p <= g.len(),
    ensures
        fields_read(g, p) matches Ok(fs) ==> table_fields_from(g, p, seen) == if two_flagged(fs) || (seen && any_flagged(fs)) {
            Err::<Seq<FieldView>, MacroError>(MacroError::DuplicateId)
        } else {
            Ok::<Seq<FieldView>, MacroError>(fs)
        },
    decreases g.len() - p,
{
    lemma_field_next(g, p, AttributeView::default_field(), false);
    match field_iter_next(g, p) {
        Ok((Some(f), q)) => {
            let seen2 = seen || flags_primary_key(f.attr);
            lemma_table_fields_are_the_fields_read(g, q, seen2);
            match fields_read(g, q) {
                Ok(rest) => {
                    lemma_flagged_prepend(f, rest);
                },
                Err(_) => {},
            }
        },
        Ok((None, _)) => {
            let e: Seq<FieldView> = seq![];
            assert(!any_flagged(e));
            assert(!two_flagged(e));
        },
        Err(_) => {},
    }
}

/// A table is named by its struct attribute's `table_name`, else by the
/// struct; a repository column is the attribute's column name, else the
/// field name in upper case; a `get_row` column is the attribute's column
/// name, else the field name as written.
pub proof fn lemma_names(e: EntityView, f: FieldView)
    ensures
        e.attr matches Some(AttributeView::Struct { table_name: Some(t) }) ==> table_name_of(e) == t,
        !(e.attr matches Some(AttributeView::Struct { table_name: Some(_) })) ==> table_name_of(e) == e.struct_name,
        f.attr matches Some(AttributeView::Field { column_name: Some(c), .. }) ==> table_column_of(f) == c
            && row_column_of(f) == c,
        !(f.attr matches Some(AttributeView::Field { column_name: Some(_), .. })) ==> table_column_of(f)
            == uppercase_of(f.field_name) && row_column_of(f) == f.field_name,
{
}

/// Attribute entries are named `table_name`, `column_name` (keys with a
/// value) and `primary_key` (a flag); no other name is a key or a flag.
pub proof fn lemma_entry_names(s: Seq<char>)
    ensures
        key_named("table_name"@) == Some(Key::TableName),
        key_named("column_name"@) == Some(Key::ColumnName),
        flag_named("primary_key"@) == Some(Flag::PrimaryKey),
        s != "table_name"@ && s != "column_name"@ ==> key_named(s) is None,
        s != "primary_key"@ ==> flag_named(s) is None,
{
    reveal_strlit("table_name");
    reveal_strlit("column_name");
    assert("table_name"@[0] != "column_name"@[0]);
}

/// `needle` occurs twice in `hay`.
pub open spec fn occurs_twice(needle: Seq<char>, hay: Seq<char>) -> bool {
    exists|x: Seq<char>, m: Seq<char>, y: Seq<char>| hay == x + needle + m + needle + y
}

/// `needle` occurs in `hay`.
pub open spec fn occurs(needle: Seq<char>, hay: Seq<char>) -> bool {
    exists|x: Seq<char>, y: Seq<char>| hay == x + needle + y
}

/// Both `find_by_id` methods take the key type as their `id` parameter,
/// return the struct, and query the table at the key column.
pub proof fn lemma_find_by_id_query(typ: Seq<char>, struct_name: Seq<char>, table_name: Seq<char>, column: Seq<char>, fields: Seq<char>)
    ensures
        occurs_twice(typ + ") -> ::sibyl::Result<Option<"@ + struct_name + ">> {\n                let stmt = self.session.prepare(\"SELECT * FROM "@ + table_name + " WHERE "@ + column, find_by_id_text(typ, struct_name, table_name, column, fields)),
{
    let x = "\n            #[cfg(feature = \"nonblocking\")]\n            pub async fn find_by_id(&'a self, id: "@;
    let m = " = :ID\").await?;\n                let rows = stmt.query((\"ID\", id)).await?;\n                if let Some(row) = rows.next().await? {\n                    Ok(Some("@ + struct_name + "  { "@ + fields + " }))\n                } else {\n                    Ok(None)\n                }\n            }\n\n            #[cfg(feature = \"blocking\")]\n            pub fn find_by_id(&'a self, id: "@;
    let y = " = :ID\")?;\n                let rows = stmt.query((\"ID\", id))?;\n                if let Some(row) = rows.next()? {\n                    Ok(Some("@ + struct_name + "  { "@ + fields + " }))\n                } else {\n                    Ok(None)\n                }\n            }"@;
    assert(find_by_id_text(typ, struct_name, table_name, column, fields) =~= x + (typ + ") -> ::sibyl::Result<Option<"@ + struct_name + ">> {\n                let stmt = self.session.prepare(\"SELECT * FROM "@ + table_name + " WHERE "@ + column) + m + (typ + ") -> ::sibyl::Result<Option<"@ + struct_name + ">> {\n                let stmt = self.session.prepare(\"SELECT * FROM "@ + table_name + " WHERE "@ + column) + y);
}

/// A repository has a constructor `new` right after `impl<'a> ...Repository<'a>`,
/// reads all rows of its table in both `find_all` methods, and ends with the
/// `find_by_id` code followed by the closing of the impl.
pub proof fn lemma_repository_parts(struct_name: Seq<char>, table_name: Seq<char>, fields: Seq<char>, id_code: Seq<char>)
    ensures
        occurs(struct_name + "Repository<'a> {\n                pub fn new(session: &'a sibyl::Session<'a>) -> Self {\n                    Self { session }\n                }\n\n               #[cfg(feature = \"nonblocking\")]\n                pub async fn find_all(&'a self) -> ::sibyl::Result<Vec<"@, repository_text(struct_name, table_name, fields, id_code)),
        occurs_twice(">> {\n                    let stmt = self.session.prepare(\"SELECT * FROM "@ + table_name, repository_text(struct_name, table_name, fields, id_code)),
        repository_text(struct_name, table_name, fields, id_code) == ("\n            pub struct "@ + struct_name + "Repository<'a> {\n                session: &'a sibyl::Session<'a>\n            }\n\n            impl<'a> "@ + struct_name + "Repository<'a> {\n                pub fn new(session: &'a sibyl::Session<'a>) -> Self {\n                    Self { session }\n                }\n\n               #[cfg(feature = \"nonblocking\")]\n                pub async fn find_all(&'a self) -> ::sibyl::Result<Vec<"@ + struct_name + ">> {\n                    let stmt = self.session.prepare(\"SELECT * FROM "@ + table_name + "\").await?;\n                    let rows = stmt.query(()).await?;\n                    let mut result = vec![];\n                    while let Some(row) = rows.next().await? {\n                        result.push(\n                            "@ + struct_name + " { "@ + fields + " }\n                        );\n                    }\n                    Ok(result)\n                }\n\n                #[cfg(feature = \"blocking\")]\n                pub fn find_all(&'a self) -> ::sibyl::Result<Vec<"@ + struct_name + ">> {\n                    let stmt = self.session.prepare(\"SELECT * FROM "@ + table_name + "\")?;\n                    let rows = stmt.query(())?;\n                    let mut result = vec![];\n                    while let Some(row) = rows.next()? {\n                        result.push(\n                            "@ + struct_name + " { "@ + fields + " }\n                        );\n                    }\n                    Ok(result)\n                }\n\n                "@) + id_code + "\n            }\n        "@,
{
    let x1 = "\n            pub struct "@ + struct_name + "Repository<'a> {\n                session: &'a sibyl::Session<'a>\n            }\n\n            impl<'a> "@;
    let y1 = struct_name + ">> {\n                    let stmt = self.session.prepare(\"SELECT * FROM "@ + table_name + "\").await?;\n                    let rows = stmt.query(()).await?;\n                    let mut result = vec![];\n                    while let Some(row) = rows.next().await? {\n                        result.push(\n                            "@ + struct_name + " { "@ + fields + " }\n                        );\n                    }\n                    Ok(result)\n                }\n\n                #[cfg(feature = \"blocking\")]\n                pub fn find_all(&'a self) -> ::sibyl::Result<Vec<"@ + struct_name + ">> {\n                    let stmt = self.session.prepare(\"SELECT * FROM "@ + table_name + "\")?;\n                    let rows = stmt.query(())?;\n                    let mut result = vec![];\n                    while let Some(row) = rows.next()? {\n                        result.push(\n                            "@ + struct_name + " { "@ + fields + " }\n                        );\n                    }\n                    Ok(result)\n                }\n\n                "@ + id_code + "\n            }\n        "@;
    assert(repository_text(struct_name, table_name, fields, id_code) =~= x1 + (struct_name + "Repository<'a> {\n                pub fn new(session: &'a sibyl::Session<'a>) -> Self {\n                    Self { session }\n                }\n\n               #[cfg(feature = \"nonblocking\")]\n                pub async fn find_all(&'a self) -> ::sibyl::Result<Vec<"@) + y1);
    let x2 = "\n            pub struct "@ + struct_name + "Repository<'a> {\n                session: &'a sibyl::Session<'a>\n            }\n\n            impl<'a> "@ + struct_name + "Repository<'a> {\n                pub fn new(session: &'a sibyl::Session<'a>) -> Self {\n                    Self { session }\n                }\n\n               #[cfg(feature = \"nonblocking\")]\n                pub async fn find_all(&'a self) -> ::sibyl::Result<Vec<"@ + struct_name;
    let m2 = "\").await?;\n                    let rows = stmt.query(()).await?;\n                    let mut result = vec![];\n                    while let Some(row) = rows.next().await? {\n                        result.push(\n                            "@ + struct_name + " { "@ + fields + " }\n                        );\n                    }\n                    Ok(result)\n                }\n\n                #[cfg(feature = \"blocking\")]\n                pub fn find_all(&'a self) -> ::sibyl::Result<Vec<"@ + struct_name;
    let y2 = "\")?;\n                    let rows = stmt.query(())?;\n                    let mut result = vec![];\n                    while let Some(row) = rows.next()? {\n                        result.push(\n                            "@ + struct_name + " { "@ + fields + " }\n                        );\n                    }\n                    Ok(result)\n                }\n\n                "@ + id_code + "\n            }\n        "@;
    assert(repository_text(struct_name, table_name, fields, id_code) =~= x2 + (">> {\n                    let stmt = self.session.prepare(\"SELECT * FROM "@ + table_name) + m2 + (">> {\n                    let stmt = self.session.prepare(\"SELECT * FROM "@ + table_name) + y2);
}

/// The table name of a struct setting.
pub open spec fn setting_table(a: AttributeView) -> Option<Seq<char>> {
    match a {
        AttributeView::Struct { table_name } => table_name,
        AttributeView::Field { .. } => None,
    }
}

/// A struct attribute that `try_parse_struct` accepts holds only
/// `table_name` keys, each followed by `=` and a literal, and names the value
/// of the last one (or keeps the name read before, when there is none).
pub proof fn lemma_struct_attr_from(g: Seq<Token>, q: int, attr: AttributeView)
    requires
        0 <= q,
        attr is Struct,
    ensures
        struct_attr_from(g, q, attr) matches Some(a) ==> {
            &&& a is Struct
            &&& forall|i: int| q <= i < g.len() && #[trigger] g[i] is Ident ==> ident_is(g[i], "table_name"@)
            &&& (forall|i: int| q <= i < g.len() ==> !(#[trigger] g[i] is Ident)) ==> setting_table(a) == setting_table(attr)
            &&& forall|j: int|
                q <= j < g.len() && #[trigger] g[j] is Ident && (forall|i: int| j < i < g.len() ==> !(#[trigger] g[i] is Ident))
                    ==> (setting_table(a) is Some && setting_table(a) == literal_value_at(g, j + 2))
        },
    decreases g.len() - q,
{
    if q < g.len() {
        match g[q] {
            Token::Ident(f) => {
                if q + 1 < g.len() && is_punct(g[q + 1], '=') && q + 2 < g.len() && g[q + 2] is Literal && f@ == "table_name"@ {
                    match g[q + 2] {
                        Token::Literal(l) => {
                            lemma_struct_attr_from(g, q + 3, attr.set_table_name(unquoted(l@)));
                            assert(!(g[q + 1] is Ident) && !(g[q + 2] is Ident));
                        },
                        _ => {},
                    }
                }
            },
            _ => {
                lemma_struct_attr_from(g, q + 1, attr);
            },
        }
    }
}

} // verus!
