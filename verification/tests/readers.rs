use ormcle::attr::{Attr, AttrIterator, Flag, Key, KeyValue, OrmcleError};
use ormcle::attribute::Attribute;
use ormcle::entity::Entity;
use ormcle::error::MacroError;
use ormcle::field::{Field, FieldIterator};
use ormcle::token::{unquote, Delim, Token, TokenCursor};

fn ident(s: &str) -> Token {
    Token::Ident(s.to_string())
}

fn punct(c: char) -> Token {
    Token::Punct(c)
}

fn lit(s: &str) -> Token {
    Token::Literal(format!("\"{}\"", s))
}

fn group(d: Delim, v: Vec<Token>) -> Token {
    Token::Group(d, v)
}

/// `#[ormcle(args)]`
fn ormcle_attr(args: Vec<Token>) -> Vec<Token> {
    vec![
        punct('#'),
        group(Delim::Bracket, vec![ident("ormcle"), group(Delim::Parenthesis, args)]),
    ]
}

fn customers_body() -> Vec<Token> {
    let mut body = Vec::new();
    body.extend(ormcle_attr(vec![
        ident("primary_key"),
        punct(','),
        ident("column_name"),
        punct('='),
        lit("CUSTOMER_ID"),
    ]));
    body.extend(vec![ident("id"), punct(':'), ident("i32"), punct(',')]);
    body.extend(ormcle_attr(vec![ident("column_name"), punct('='), lit("EMAIL_ADDRESS")]));
    body.extend(vec![
        ident("email"),
        punct(':'),
        ident("Option"),
        punct('<'),
        ident("String"),
        punct('>'),
        punct(','),
    ]);
    body.extend(ormcle_attr(vec![ident("column_name"), punct('='), lit("FULL_NAME")]));
    body.extend(vec![ident("name"), punct(':'), ident("String"), punct(',')]);
    body
}

#[test]
fn key_and_flag_names() {
    assert_eq!(Key::from_str("table_name"), Ok(Key::TableName));
    assert_eq!(Key::from_str("column_name"), Ok(Key::ColumnName));
    assert_eq!(Key::from_str("primary_key"), Err(OrmcleError::InvalidKey));
    assert_eq!(Flag::from_str("primary_key"), Ok(Flag::PrimaryKey));
    assert_eq!(Flag::from_str("table_name"), Err(OrmcleError::InvalidFlag));
}

#[test]
fn unquote_takes_out_every_quote() {
    assert_eq!(unquote(&"\"CUSTOMERS\"".to_string()), "CUSTOMERS");
    assert_eq!(unquote(&"a\"b\"\"c".to_string()), "abc");
    assert_eq!(unquote(&String::new()), "");
    let once = unquote(&"\"x\"y\"".to_string());
    assert_eq!(unquote(&once), once);
}

#[test]
fn attr_iterator_reads_flags_and_key_values() {
    let toks = vec![
        ident("primary_key"),
        punct(','),
        ident("column_name"),
        punct('='),
        lit("CUSTOMER_ID"),
    ];
    let mut it = AttrIterator::from(&toks);
    match it.next() {
        Some(Ok(Attr::Flag(Flag::PrimaryKey))) => {}
        other => panic!("unexpected {:?}", other),
    }
    match it.next() {
        Some(Ok(Attr::KeyValue(KeyValue { key: Key::ColumnName, value }))) => {
            assert_eq!(value, "CUSTOMER_ID")
        }
        other => panic!("unexpected {:?}", other),
    }
    assert!(it.next().is_none());
    assert!(it.next().is_none());
    assert_eq!(it.ts.pos, toks.len());
}

#[test]
fn attr_iterator_refuses_unknown_names() {
    let toks = vec![ident("colour"), punct('='), lit("red"), ident("nullable")];
    let mut it = AttrIterator::from(&toks);
    assert!(matches!(it.next(), Some(Err(OrmcleError::InvalidKey))));
    assert!(matches!(it.next(), Some(Err(OrmcleError::InvalidFlag))));
    assert!(it.next().is_none());
}

#[test]
fn attr_iterator_without_literal_reads_a_flag() {
    // `primary_key = column` : the value is not a literal, so the key is read as a flag
    let toks = vec![ident("primary_key"), punct('='), ident("column")];
    let mut it = AttrIterator::from(&toks);
    assert!(matches!(it.next(), Some(Ok(Attr::Flag(Flag::PrimaryKey)))));
    assert_eq!(it.ts.pos, 3);
    assert!(it.next().is_none());
}

#[test]
fn attribute_builders() {
    match Attribute::default_struct() {
        Attribute::Struct { table_name: None } => {}
        other => panic!("unexpected {:?}", other),
    }
    match Attribute::default_struct().with_table_name("T".to_string()) {
        Attribute::Struct { table_name: Some(t) } => assert_eq!(t, "T"),
        other => panic!("unexpected {:?}", other),
    }
    match Attribute::default_field().with_table_name("T".to_string()) {
        Attribute::Field { column_name: None, primary_key: false } => {}
        other => panic!("unexpected {:?}", other),
    }
    match Attribute::default_field().with_primary_key().with_column_name("C".to_string()) {
        Attribute::Field { column_name: Some(c), primary_key: true } => assert_eq!(c, "C"),
        other => panic!("unexpected {:?}", other),
    }
    match Attribute::default_struct().with_column_name("C".to_string()).with_primary_key() {
        Attribute::Struct { table_name: None } => {}
        other => panic!("unexpected {:?}", other),
    }
}

#[test]
fn setters_commute_and_overwrite() {
    let a = Attribute::default_field().with_column_name("A".to_string()).with_primary_key();
    let b = Attribute::default_field().with_primary_key().with_column_name("A".to_string());
    assert_eq!(format!("{:?}", a), format!("{:?}", b));
    let c = Attribute::default_field()
        .with_column_name("A".to_string())
        .with_column_name("B".to_string());
    match c {
        Attribute::Field { column_name: Some(n), primary_key: false } => assert_eq!(n, "B"),
        other => panic!("unexpected {:?}", other),
    }
}

#[test]
fn parse_struct_attribute() {
    let toks = vec![ident("table_name"), punct('='), lit("CUSTOMERS")];
    match Attribute::try_parse_struct(&toks) {
        Some(Attribute::Struct { table_name: Some(t) }) => assert_eq!(t, "CUSTOMERS"),
        other => panic!("unexpected {:?}", other),
    }
    let other_key = vec![ident("schema"), punct('='), lit("X")];
    assert!(Attribute::try_parse_struct(&other_key).is_none());
    let no_equal = vec![ident("table_name")];
    assert!(Attribute::try_parse_struct(&no_equal).is_none());
    match Attribute::try_parse_struct(&Vec::new()) {
        Some(Attribute::Struct { table_name: None }) => {}
        other => panic!("unexpected {:?}", other),
    }
}

#[test]
fn parse_field_attribute_upper_cases_the_column() {
    let toks = vec![ident("column_name"), punct('='), lit("email_address")];
    match Attribute::try_parse_field(&toks) {
        Some(Attribute::Field { column_name: Some(c), primary_key: false }) => {
            assert_eq!(c, "EMAIL_ADDRESS")
        }
        other => panic!("unexpected {:?}", other),
    }
    let pk = vec![ident("primary_key"), punct(','), ident("other"), punct('='), lit("x")];
    match Attribute::try_parse_field(&pk) {
        Some(Attribute::Field { column_name: None, primary_key: true }) => {}
        other => panic!("unexpected {:?}", other),
    }
    assert!(Attribute::try_parse_field(&Vec::new()).is_none());
    assert!(Attribute::try_parse_field(&vec![ident("column_name")]).is_none());
    assert!(matches!(
        Attribute::try_parse_field_checked(&vec![ident("column_name"), punct('=')]),
        Err(MacroError::Unreachable)
    ));
}

#[test]
fn field_iterator_reads_customers_fields() {
    let body = customers_body();
    let mut it = FieldIterator::from(&body);
    let f1 = it.next().unwrap();
    assert_eq!(f1.field_name, "id");
    assert_eq!(f1.field_type, "i32");
    assert!(f1.is_pk());
    match &f1.attr {
        Some(Attribute::Field { column_name: Some(c), primary_key: true }) => {
            assert_eq!(c, "CUSTOMER_ID")
        }
        other => panic!("unexpected {:?}", other),
    }
    let f2 = it.next().unwrap();
    assert_eq!(f2.field_name, "email");
    assert_eq!(f2.field_type, "Option<String>");
    assert!(!f2.is_pk());
    let f3 = it.next().unwrap();
    assert_eq!(f3.field_name, "name");
    assert_eq!(f3.field_type, "String");
    assert!(it.next().is_none());
}

#[test]
fn field_iterator_field_without_attribute() {
    let body = vec![ident("full_name"), punct(':'), ident("String")];
    let mut it = FieldIterator::from(&body);
    let f = it.next().unwrap();
    assert_eq!(f.field_name, "full_name");
    assert!(f.attr.is_none());
    assert!(!f.is_pk());
    assert!(it.next().is_none());
}

#[test]
fn field_iterator_stops_without_colon() {
    let body = vec![ident("pub"), ident("name"), punct(':'), ident("String")];
    let mut it = FieldIterator::from(&body);
    assert!(it.next().is_none());
    assert_eq!(it.ts.pos, 2);
}

#[test]
fn field_iterator_refusals() {
    let table_name_on_field = ormcle_attr(vec![ident("table_name"), punct('='), lit("T")]);
    let mut it = FieldIterator::from(&table_name_on_field);
    assert!(matches!(it.next_checked(), Err(MacroError::Unreachable)));
    let bad_entry = ormcle_attr(vec![ident("nullable")]);
    let mut it = FieldIterator::from(&bad_entry);
    assert!(matches!(
        it.next_checked(),
        Err(MacroError::Entry(OrmcleError::InvalidFlag))
    ));
    let hash_alone = vec![punct('#')];
    let mut it = FieldIterator::from(&hash_alone);
    assert!(matches!(it.next_checked(), Err(MacroError::Unreachable)));
}

#[test]
fn field_try_from_iter() {
    let plain = vec![ident("id"), punct(':'), ident("Vec"), punct('<'), ident("u8"), punct('>')];
    let mut ts = TokenCursor::new(&plain);
    let f: Field = Field::try_from_iter(&mut ts).unwrap();
    assert_eq!(f.field_name, "id");
    assert_eq!(f.field_type, "Vec<u8>");
    let mut with_attr = ormcle_attr(vec![ident("primary_key")]);
    with_attr.extend(vec![ident("id"), punct(':'), ident("i32")]);
    let mut ts = TokenCursor::new(&with_attr);
    assert!(Field::try_from_iter(&mut ts).is_none());
    let no_type = vec![ident("id"), punct(':')];
    let mut ts = TokenCursor::new(&no_type);
    assert!(matches!(Field::try_from_iter_checked(&mut ts), Err(MacroError::Unreachable)));
}

#[test]
fn entity_reads_name_and_table() {
    let mut toks = ormcle_attr(vec![ident("table_name"), punct('='), lit("CUSTOMERS")]);
    toks.extend(vec![
        ident("pub"),
        ident("struct"),
        ident("CustomersStruct"),
        group(Delim::Brace, Vec::new()),
    ]);
    let mut ts = TokenCursor::new(&toks);
    let e: Entity = Entity::try_from_iter(&mut ts).unwrap();
    assert_eq!(e.struct_name, "CustomersStruct");
    match e.attr {
        Some(Attribute::Struct { table_name: Some(t) }) => assert_eq!(t, "CUSTOMERS"),
        other => panic!("unexpected {:?}", other),
    }
    assert_eq!(ts.pos, 5);
    let none = vec![ident("enum"), ident("E")];
    let mut ts = TokenCursor::new(&none);
    assert!(Entity::try_from_iter(&mut ts).is_none());
}

#[test]
fn field_iterator_id_marker_flags_the_key() {
    let body = vec![
        punct('#'),
        group(Delim::Bracket, vec![ident("id"), group(Delim::Parenthesis, vec![Token::Literal("0".to_string())])]),
        ident("customer_id"),
        punct(':'),
        ident("i32"),
        punct(','),
        punct('#'),
        group(Delim::Bracket, vec![ident("serde"), group(Delim::Parenthesis, vec![ident("skip")])]),
        ident("note"),
        punct(':'),
        ident("String"),
    ];
    let mut it = FieldIterator::from(&body);
    let f = it.next().unwrap();
    assert_eq!(f.field_name, "customer_id");
    assert!(f.is_pk());
    match &f.attr {
        Some(Attribute::Field { column_name: None, primary_key: true }) => {}
        other => panic!("unexpected {:?}", other),
    }
    let g = it.next().unwrap();
    assert_eq!(g.field_name, "note");
    assert!(g.attr.is_none());
    assert!(it.next().is_none());
}

#[test]
fn field_entries_read_as_written() {
    let toks = vec![
        ident("column_name"),
        punct('='),
        lit("first"),
        punct(','),
        ident("column_name"),
        punct('='),
        lit("second_col"),
        punct(','),
        ident("primary_key"),
    ];
    match Attribute::read_field_entries(&toks) {
        Ok(Some((Some(c), true))) => assert_eq!(c, "second_col"),
        other => panic!("unexpected {:?}", other),
    }
    assert!(matches!(Attribute::read_field_entries(&Vec::new()), Ok(None)));
    match Attribute::field_setting(Some("SECOND_COL".to_string()), true) {
        Attribute::Field { column_name: Some(c), primary_key: true } => assert_eq!(c, "SECOND_COL"),
        other => panic!("unexpected {:?}", other),
    }
    match Attribute::try_parse_field(&toks) {
        Some(Attribute::Field { column_name: Some(c), primary_key: true }) => {
            assert_eq!(c, "SECOND_COL")
        }
        other => panic!("unexpected {:?}", other),
    }
}

#[test]
fn plain_body_gives_its_fields_in_order() {
    // a: i32, b: Vec<u8>, c: HashMap<K, V>,
    let body = vec![
        ident("a"),
        punct(':'),
        ident("i32"),
        punct(','),
        ident("b"),
        punct(':'),
        ident("Vec"),
        punct('<'),
        ident("u8"),
        punct('>'),
        punct(','),
        ident("c"),
        punct(':'),
        ident("HashMap"),
        punct('<'),
        ident("K"),
        punct(','),
        ident("V"),
        punct('>'),
        punct(','),
    ];
    let mut it = FieldIterator::from(&body);
    let expected = [("a", "i32"), ("b", "Vec<u8>"), ("c", "HashMap<K,V>")];
    for (name, ty) in expected {
        let f = it.next().unwrap();
        assert_eq!(f.field_name, name);
        assert_eq!(f.field_type, ty);
        assert!(f.attr.is_none());
    }
    assert!(it.next().is_none());
}
