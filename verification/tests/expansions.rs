use ormcle::error::MacroError;
use ormcle::expand::{expand_id, expand_table, expand_test, id_expansion_halts};
use ormcle::id::{Id, OrmcleId};
use ormcle::token::{Delim, Token};

fn ident(s: &str) -> Token {
    Token::Ident(s.to_string())
}

fn punct(c: char) -> Token {
    Token::Punct(c)
}

fn lit(s: &str) -> Token {
    Token::Literal(format!("\"{}\"", s))
}

fn group(d: Delim, v: Vec<Token>) -> Token {
    Token::Group(d, v)
}

fn ormcle_attr(args: Vec<Token>) -> Vec<Token> {
    vec![
        punct('#'),
        group(Delim::Bracket, vec![ident("ormcle"), group(Delim::Parenthesis, args)]),
    ]
}

fn push_field(out: &mut String, field: &str, column: &str) {
    out.push_str(field);
    out.push_str(": row.get(\"");
    out.push_str(column);
    out.push_str("\")?,");
}

fn repository(struct_name: &str, table_name: &str, fields: &str, id_dependent_code: &str) -> String {
    format!(
        "
            pub struct {struct_name}Repository<'a> {{
                session: &'a sibyl::Session<'a>
            }}

            impl<'a> {struct_name}Repository<'a> {{
                pub fn new(session: &'a sibyl::Session<'a>) -> Self {{
                    Self {{ session }}
                }}

               #[cfg(feature = \"nonblocking\")]
                pub async fn find_all(&'a self) -> ::sibyl::Result<Vec<{struct_name}>> {{
                    let stmt = self.session.prepare(\"SELECT * FROM {table_name}\").await?;
                    let rows = stmt.query(()).await?;
                    let mut result = vec![];
                    while let Some(row) = rows.next().await? {{
                        result.push(
                            {struct_name} {{ {fields} }}
                        );
                    }}
                    Ok(result)
                }}

                #[cfg(feature = \"blocking\")]
                pub fn find_all(&'a self) -> ::sibyl::Result<Vec<{struct_name}>> {{
                    let stmt = self.session.prepare(\"SELECT * FROM {table_name}\")?;
                    let rows = stmt.query(())?;
                    let mut result = vec![];
                    while let Some(row) = rows.next()? {{
                        result.push(
                            {struct_name} {{ {fields} }}
                        );
                    }}
                    Ok(result)
                }}

                {id_dependent_code }
            }}
        "
    )
}

fn find_by_id(typ: &str, struct_name: &str, table: &str, name: &str, fields: &str) -> String {
    format!("
            #[cfg(feature = \"nonblocking\")]
            pub async fn find_by_id(&'a self, id: {typ}) -> ::sibyl::Result<Option<{struct}>> {{
                let stmt = self.session.prepare(\"SELECT * FROM {table} WHERE {name} = :ID\").await?;
                let rows = stmt.query((\"ID\", id)).await?;
                if let Some(row) = rows.next().await? {{
                    Ok(Some({struct}  {{ {fields} }}))
                }} else {{
                    Ok(None)
                }}
            }}

            #[cfg(feature = \"blocking\")]
            pub fn find_by_id(&'a self, id: {typ}) -> ::sibyl::Result<Option<{struct}>> {{
                let stmt = self.session.prepare(\"SELECT * FROM {table} WHERE {name} = :ID\")?;
                let rows = stmt.query((\"ID\", id))?;
                if let Some(row) = rows.next()? {{
                    Ok(Some({struct}  {{ {fields} }}))
                }} else {{
                    Ok(None)
                }}
            }}",
        typ = typ,
        struct = struct_name,
        table = table,
        name = name
    )
}

/// `#[derive(Table, Debug)] #[ormcle(table_name = "CUSTOMERS")] pub struct CustomersStruct { ... }`
fn customers_struct_tokens() -> Vec<Token> {
    let mut body = Vec::new();
    body.extend(ormcle_attr(vec![
        ident("primary_key"),
        punct(','),
        ident("column_name"),
        punct('='),
        lit("CUSTOMER_ID"),
    ]));
    body.extend(vec![ident("id"), punct(':'), ident("i32"), punct(',')]);
    body.extend(ormcle_attr(vec![ident("column_name"), punct('='), lit("EMAIL_ADDRESS")]));
    body.extend(vec![
        ident("email"),
        punct(':'),
        ident("Option"),
        punct('<'),
        ident("String"),
        punct('>'),
        punct(','),
    ]);
    body.extend(ormcle_attr(vec![ident("column_name"), punct('='), lit("FULL_NAME")]));
    body.extend(vec![ident("name"), punct(':'), ident("String"), punct(',')]);
    let mut toks = ormcle_attr(vec![ident("table_name"), punct('='), lit("CUSTOMERS")]);
    toks.extend(vec![
        ident("pub"),
        ident("struct"),
        ident("CustomersStruct"),
        group(Delim::Brace, body),
    ]);
    toks
}

/// `pub struct Customers { #[id(0)] customer_id: i32, email_address: Option<String>, full_name: String }`
fn customers_tokens() -> Vec<Token> {
    let body = vec![
        punct('#'),
        group(Delim::Bracket, vec![ident("id"), group(Delim::Parenthesis, vec![Token::Literal("0".to_string())])]),
        ident("customer_id"),
        punct(':'),
        ident("i32"),
        punct(','),
        ident("email_address"),
        punct(':'),
        ident("Option"),
        punct('<'),
        ident("String"),
        punct('>'),
        punct(','),
        ident("full_name"),
        punct(':'),
        ident("String"),
        punct(','),
    ];
    vec![ident("pub"), ident("struct"), ident("Customers"), group(Delim::Brace, body)]
}

/// `#[derive(Debug, Test)] struct OrderId { order_id: i32, line_item_id: i32 }`
fn order_id_tokens() -> Vec<Token> {
    let body = vec![
        ident("order_id"),
        punct(':'),
        ident("i32"),
        punct(','),
        ident("line_item_id"),
        punct(':'),
        ident("i32"),
        punct(','),
    ];
    vec![ident("struct"), ident("OrderId"), group(Delim::Brace, body)]
}

#[test]
fn table_for_customers_struct() {
    let out = expand_table(&customers_struct_tokens()).unwrap();
    let mut fields = String::new();
    push_field(&mut fields, "id", "CUSTOMER_ID");
    push_field(&mut fields, "email", "EMAIL_ADDRESS");
    push_field(&mut fields, "name", "FULL_NAME");
    let id_code = find_by_id("i32", "CustomersStruct", "CUSTOMERS", "CUSTOMER_ID", &fields);
    assert_eq!(out, repository("CustomersStruct", "CUSTOMERS", &fields, &id_code));
    assert!(out.contains("session: &'a sibyl::Session<'a>"));
    assert!(out.contains("SELECT * FROM CUSTOMERS WHERE CUSTOMER_ID = :ID"));
}

#[test]
fn table_keyed_by_id_marker_with_upper_case_columns() {
    let out = expand_table(&customers_tokens()).unwrap();
    let mut fields = String::new();
    push_field(&mut fields, "customer_id", "CUSTOMER_ID");
    push_field(&mut fields, "email_address", "EMAIL_ADDRESS");
    push_field(&mut fields, "full_name", "FULL_NAME");
    let id_code = find_by_id("i32", "Customers", "Customers", "CUSTOMER_ID", &fields);
    assert_eq!(out, repository("Customers", "Customers", &fields, &id_code));
    assert!(out.contains("SELECT * FROM Customers WHERE CUSTOMER_ID = :ID"));
    assert!(out.contains("pub fn new(session: &'a sibyl::Session<'a>) -> Self"));
    assert!(out.contains("pub async fn find_by_id(&'a self, id: i32)"));
}

#[test]
fn table_without_key_has_no_find_by_id() {
    let body = vec![ident("full_name"), punct(':'), ident("String")];
    let toks = vec![ident("struct"), ident("Person"), group(Delim::Brace, body)];
    let out = expand_table(&toks).unwrap();
    let mut fields = String::new();
    push_field(&mut fields, "full_name", "FULL_NAME");
    assert_eq!(out, repository("Person", "Person", &fields, ""));
    assert!(!out.contains("find_by_id"));
    assert!(out.contains("pub fn new("));
}

#[test]
fn table_refuses_id_marker_and_primary_key_together() {
    let mut body = vec![
        punct('#'),
        group(Delim::Bracket, vec![ident("id"), group(Delim::Parenthesis, vec![Token::Literal("0".to_string())])]),
        ident("a"),
        punct(':'),
        ident("i32"),
        punct(','),
    ];
    body.extend(ormcle_attr(vec![ident("primary_key")]));
    body.extend(vec![ident("b"), punct(':'), ident("i32")]);
    let toks = vec![ident("struct"), ident("Two"), group(Delim::Brace, body)];
    assert_eq!(expand_table(&toks), Err(MacroError::DuplicateId));
}

#[test]
fn table_refuses_two_keys() {
    let mut body = ormcle_attr(vec![ident("primary_key")]);
    body.extend(vec![ident("a"), punct(':'), ident("i32"), punct(',')]);
    body.extend(ormcle_attr(vec![ident("primary_key")]));
    body.extend(vec![ident("b"), punct(':'), ident("i32")]);
    let toks = vec![ident("struct"), ident("Two"), group(Delim::Brace, body)];
    assert_eq!(expand_table(&toks), Err(MacroError::DuplicateId));
}

#[test]
fn table_without_struct_or_body() {
    assert_eq!(
        expand_table(&vec![ident("enum"), ident("E")]),
        Err(MacroError::NoEntity)
    );
    assert_eq!(
        expand_table(&vec![ident("struct"), ident("S"), punct(';')]),
        Err(MacroError::Unreachable)
    );
    assert_eq!(
        expand_table(&vec![ident("struct"), punct(';')]),
        Err(MacroError::Unreachable)
    );
}

#[test]
fn table_refuses_unknown_field_entry() {
    let mut body = ormcle_attr(vec![ident("nullable")]);
    body.extend(vec![ident("a"), punct(':'), ident("i32")]);
    let toks = vec![ident("struct"), ident("S"), group(Delim::Brace, body)];
    assert_eq!(
        expand_table(&toks),
        Err(MacroError::Entry(ormcle::attr::OrmcleError::InvalidFlag))
    );
}

#[test]
fn get_row_for_order_id() {
    let out = expand_test(&order_id_tokens()).unwrap();
    let mut expected = format!(
        "impl {struct_name} {{
            fn get_row(row: sibyl::Row<'_>) -> sibyl::Result<Self> {{
                Ok(Self {{",
        struct_name = "OrderId"
    );
    push_field(&mut expected, "order_id", "order_id");
    push_field(&mut expected, "line_item_id", "line_item_id");
    expected.push_str("})}}");
    assert_eq!(out, expected);
}

#[test]
fn get_row_uses_column_names_as_written() {
    let mut body = ormcle_attr(vec![ident("column_name"), punct('='), lit("Full_Name")]);
    body.extend(vec![ident("name"), punct(':'), ident("String")]);
    let toks = vec![ident("struct"), ident("P"), group(Delim::Brace, body)];
    let out = expand_test(&toks).unwrap();
    assert!(out.contains("name: row.get(\"Full_Name\")?,"));
}

#[test]
fn get_row_refusals() {
    assert_eq!(expand_test(&vec![ident("enum")]), Err(MacroError::ExpectedStructDefinition));
    assert_eq!(
        expand_test(&vec![ident("struct"), punct('<')]),
        Err(MacroError::ExpectedStructName)
    );
    assert_eq!(
        expand_test(&vec![ident("struct"), ident("S"), group(Delim::Parenthesis, vec![])]),
        Err(MacroError::ExpectedFieldsDefinition)
    );
}

#[test]
fn id_derive() {
    let toks = order_id_tokens();
    assert!(id_expansion_halts(&toks));
    assert_eq!(expand_id(&toks).unwrap(), "const s: &'static str = \"oi\";");
    let empty = vec![ident("struct"), ident("S"), group(Delim::Brace, vec![])];
    assert_eq!(expand_id(&empty), Err(MacroError::ExpectedFields));
    let no_type = vec![
        ident("struct"),
        ident("S"),
        group(Delim::Brace, vec![ident("a"), punct(':'), punct('&')]),
    ];
    assert_eq!(expand_id(&no_type), Err(MacroError::ExpectedFieldType));
    let tuple = vec![ident("struct"), ident("S"), group(Delim::Parenthesis, vec![ident("i32")])];
    assert_eq!(expand_id(&tuple), Err(MacroError::ExpectedFieldsDefinition));
    let unnamed = vec![ident("struct"), punct(';')];
    assert!(id_expansion_halts(&unnamed));
    assert_eq!(expand_id(&unnamed), Err(MacroError::ExpectedStructName));
    let ends_after_name = vec![ident("struct"), ident("S")];
    assert!(!id_expansion_halts(&ends_after_name));
}

#[test]
fn key_types_list_their_fields() {
    assert_eq!(<i32 as OrmcleId>::fields(), None);
    assert_eq!(<i16 as OrmcleId>::fields(), None);
    assert_eq!(<i8 as OrmcleId>::fields(), None);
    assert_eq!(<Id as OrmcleId>::fields(), Some(&["first", "second"][..]));
}
