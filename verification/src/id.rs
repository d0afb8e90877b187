//! Key types of tables: a key made of one integer column has no field
//! names; a composite key lists the names of its fields.
use vstd::prelude::*;

verus! {

/// A type that can serve as the key of a table.
pub trait OrmcleId {
    /// The names of the fields of a composite key; `None` for a key that is
    /// a single value.
    spec fn field_names() -> Option<Seq<Seq<char>>>;

    /// The names of the fields of a composite key; `None` for a key that is
    /// a single value.
    fn fields() -> (r: Option<&'static [&'static str]>)
        ensures
            match r {
                Some(names) => Self::field_names() == Some(names@.map_values(|n: &str| n@)),
                None => Self::field_names() is None,
            },
    ;
}

impl OrmcleId for i32 {
    open spec fn field_names() -> Option<Seq<Seq<char>>> {
        None
    }

    fn fields() -> (r: Option<&'static [&'static str]>) {
        None
    }
}

impl OrmcleId for i16 {
    open spec fn field_names() -> Option<Seq<Seq<char>>> {
        None
    }

    fn fields() -> (r: Option<&'static [&'static str]>) {
        None
    }
}

impl OrmcleId for i8 {
    open spec fn field_names() -> Option<Seq<Seq<char>>> {
        None
    }

    fn fields() -> (r: Option<&'static [&'static str]>) {
        None
    }
}

/// A composite key of two columns.
pub struct Id {
    pub first: i32,
    pub sec: i16,
}

impl OrmcleId for Id {
    open spec fn field_names() -> Option<Seq<Seq<char>>> {
        Some(seq!["first"@, "second"@])
    }

    fn fields() -> (r: Option<&'static [&'static str]>) {
        let names: &'static [&'static str] = &["first", "second"];
        assert(names@.map_values(|n: &str| n@) =~= seq!["first"@, "second"@]);
        Some(names)
    }
}

/// A struct keyed by a composite key.
pub struct Struct {
    pub id: Id,
}

/// A struct keyed by a single integer.
pub struct Prim {
    pub id: i32,
}

} // verus!
