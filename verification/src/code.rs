//! The code that the derive macros emit, as text.
use vstd::prelude::*;
use crate::token::push_text;

verus! {

/// The initializer of one field in a struct literal built from a database
/// row: `name: row.get("COLUMN")?,`.
pub open spec fn field_init_text(field_name: Seq<char>, column_name: Seq<char>) -> Seq<char> {
    field_name + ": row.get(\""@ + column_name + "\")?,"@
}

/// Appends the initializer of one field to `out`.
pub fn push_field(out: &mut String, field_name: &str, column_name: &str)
    ensures
        final(out)@ == old(out)@ + field_init_text(field_name@, column_name@),
{
    let ghost start = out@;
    push_text(out, field_name);
    push_text(out, ": row.get(\"");
    push_text(out, column_name);
    push_text(out, "\")?,");
    assert(out@ =~= start + field_init_text(field_name@, column_name@));
}

/// The `find_by_id` methods of a repository, in their non-blocking and
/// blocking forms, for a key of type `typ` stored in column `column`.
pub open spec fn find_by_id_text(typ: Seq<char>, struct_name: Seq<char>, table_name: Seq<char>, column: Seq<char>, fields: Seq<char>) -> Seq<char> {
    "\n            #[cfg(feature = \"nonblocking\")]\n            pub async fn find_by_id(&'a self, id: "@ + typ + ") -> ::sibyl::Result<Option<"@ + struct_name + ">> {\n                let stmt = self.session.prepare(\"SELECT * FROM "@ + table_name + " WHERE "@ + column + " = :ID\").await?;\n                let rows = stmt.query((\"ID\", id)).await?;\n                if let Some(row) = rows.next().await? {\n                    Ok(Some("@ + struct_name + "  { "@ + fields + " }))\n                } else {\n                    Ok(None)\n                }\n            }\n\n            #[cfg(feature = \"blocking\")]\n            pub fn find_by_id(&'a self, id: "@ + typ + ") -> ::sibyl::Result<Option<"@ + struct_name + ">> {\n                let stmt = self.session.prepare(\"SELECT * FROM "@ + table_name + " WHERE "@ + column + " = :ID\")?;\n                let rows = stmt.query((\"ID\", id))?;\n                if let Some(row) = rows.next()? {\n                    Ok(Some("@ + struct_name + "  { "@ + fields + " }))\n                } else {\n                    Ok(None)\n                }\n            }"@
}

/// The text of the `find_by_id` methods.
pub fn find_by_id_code(typ: &str, struct_name: &str, table_name: &str, column: &str, fields: &str) -> (r: String)
    ensures
        r@ == find_by_id_text(typ@, struct_name@, table_name@, column@, fields@),
{
    let mut out = String::new();
    push_text(&mut out, "\n            #[cfg(feature = \"nonblocking\")]\n            pub async fn find_by_id(&'a self, id: ");
    push_text(&mut out, typ);
    push_text(&mut out, ") -> ::sibyl::Result<Option<");
    push_text(&mut out, struct_name);
    push_text(&mut out, ">> {\n                let stmt = self.session.prepare(\"SELECT * FROM ");
    push_text(&mut out, table_name);
    push_text(&mut out, " WHERE ");
    push_text(&mut out, column);
    push_text(&mut out, " = :ID\").await?;\n                let rows = stmt.query((\"ID\", id)).await?;\n                if let Some(row) = rows.next().await? {\n                    Ok(Some(");
    push_text(&mut out, struct_name);
    push_text(&mut out, "  { ");
    push_text(&mut out, fields);
    push_text(&mut out, " }))\n                } else {\n                    Ok(None)\n                }\n            }\n\n            #[cfg(feature = \"blocking\")]\n            pub fn find_by_id(&'a self, id: ");
    push_text(&mut out, typ);
    push_text(&mut out, ") -> ::sibyl::Result<Option<");
    push_text(&mut out, struct_name);
    push_text(&mut out, ">> {\n                let stmt = self.session.prepare(\"SELECT * FROM ");
    push_text(&mut out, table_name);
    push_text(&mut out, " WHERE ");
    push_text(&mut out, column);
    push_text(&mut out, " = :ID\")?;\n                let rows = stmt.query((\"ID\", id))?;\n                if let Some(row) = rows.next()? {\n                    Ok(Some(");
    push_text(&mut out, struct_name);
    push_text(&mut out, "  { ");
    push_text(&mut out, fields);
    push_text(&mut out, " }))\n                } else {\n                    Ok(None)\n                }\n            }");
    assert(out@ =~= find_by_id_text(typ@, struct_name@, table_name@, column@, fields@));
    out
}

/// The repository struct of a table, which borrows a database session: its
/// constructor `new` and its `find_all` methods, followed by `id_code`.
pub open spec fn repository_text(struct_name: Seq<char>, table_name: Seq<char>, fields: Seq<char>, id_code: Seq<char>) -> Seq<char> {
    "\n            pub struct "@ + struct_name + "Repository<'a> {\n                session: &'a sibyl::Session<'a>\n            }\n\n            impl<'a> "@ + struct_name + "Repository<'a> {\n                pub fn new(session: &'a sibyl::Session<'a>) -> Self {\n                    Self { session }\n                }\n\n               #[cfg(feature = \"nonblocking\")]\n                pub async fn find_all(&'a self) -> ::sibyl::Result<Vec<"@ + struct_name + ">> {\n                    let stmt = self.session.prepare(\"SELECT * FROM "@ + table_name + "\").await?;\n                    let rows = stmt.query(()).await?;\n                    let mut result = vec![];\n                    while let Some(row) = rows.next().await? {\n                        result.push(\n                            "@ + struct_name + " { "@ + fields + " }\n                        );\n                    }\n                    Ok(result)\n                }\n\n                #[cfg(feature = \"blocking\")]\n                pub fn find_all(&'a self) -> ::sibyl::Result<Vec<"@ + struct_name + ">> {\n                    let stmt = self.session.prepare(\"SELECT * FROM "@ + table_name + "\")?;\n                    let rows = stmt.query(())?;\n                    let mut result = vec![];\n                    while let Some(row) = rows.next()? {\n                        result.push(\n                            "@ + struct_name + " { "@ + fields + " }\n                        );\n                    }\n                    Ok(result)\n                }\n\n                "@ + id_code + "\n            }\n        "@
}

/// The text of a repository.
pub fn repository_code(struct_name: &str, table_name: &str, fields: &str, id_code: &str) -> (r: String)
    ensures
        r@ == repository_text(struct_name@, table_name@, fields@, id_code@),
{
    let mut out = String::new();
    push_text(&mut out, "\n            pub struct ");
    push_text(&mut out, struct_name);
    push_text(&mut out, "Repository<'a> {\n                session: &'a sibyl::Session<'a>\n            }\n\n            impl<'a> ");
    push_text(&mut out, struct_name);
    push_text(&mut out, "Repository<'a> {\n                pub fn new(session: &'a sibyl::Session<'a>) -> Self {\n                    Self { session }\n                }\n\n               #[cfg(feature = \"nonblocking\")]\n                pub async fn find_all(&'a self) -> ::sibyl::Result<Vec<");
    push_text(&mut out, struct_name);
    push_text(&mut out, ">> {\n                    let stmt = self.session.prepare(\"SELECT * FROM ");
    push_text(&mut out, table_name);
    push_text(&mut out, "\").await?;\n                    let rows = stmt.query(()).await?;\n                    let mut result = vec![];\n                    while let Some(row) = rows.next().await? {\n                        result.push(\n                            ");
    push_text(&mut out, struct_name);
    push_text(&mut out, " { ");
    push_text(&mut out, fields);
    push_text(&mut out, " }\n                        );\n                    }\n                    Ok(result)\n                }\n\n                #[cfg(feature = \"blocking\")]\n                pub fn find_all(&'a self) -> ::sibyl::Result<Vec<");
    push_text(&mut out, struct_name);
    push_text(&mut out, ">> {\n                    let stmt = self.session.prepare(\"SELECT * FROM ");
    push_text(&mut out, table_name);
    push_text(&mut out, "\")?;\n                    let rows = stmt.query(())?;\n                    let mut result = vec![];\n                    while let Some(row) = rows.next()? {\n                        result.push(\n                            ");
    push_text(&mut out, struct_name);
    push_text(&mut out, " { ");
    push_text(&mut out, fields);
    push_text(&mut out, " }\n                        );\n                    }\n                    Ok(result)\n                }\n\n                ");
    push_text(&mut out, id_code);
    push_text(&mut out, "\n            }\n        ");
    assert(out@ =~= repository_text(struct_name@, table_name@, fields@, id_code@));
    out
}

/// The beginning of a `get_row` function, up to the field initializers.
pub open spec fn get_row_head_text(struct_name: Seq<char>) -> Seq<char> {
    "impl "@ + struct_name + " {\n            fn get_row(row: sibyl::Row<'_>) -> sibyl::Result<Self> {\n                Ok(Self {"@
}

/// The end of a `get_row` function, after the field initializers.
pub open spec fn get_row_tail_text() -> Seq<char> {
    "})}}"@
}

/// Starts the text of a `get_row` function.
pub fn get_row_head(struct_name: &str) -> (r: String)
    ensures
        r@ == get_row_head_text(struct_name@),
{
    let mut out = String::new();
    push_text(&mut out, "impl ");
    push_text(&mut out, struct_name);
    push_text(&mut out, " {\n            fn get_row(row: sibyl::Row<'_>) -> sibyl::Result<Self> {\n                Ok(Self {");
    assert(out@ =~= get_row_head_text(struct_name@));
    out
}

} // verus!
