//! The struct that a derive input declares: its name and the settings of its
//! `ormcle(...)` attribute.
use vstd::prelude::*;
use crate::token::{Token, TokenCursor, str_is};
use crate::attribute::{Attribute, AttributeView, struct_attr_from};
use crate::field::{ormcle_args, ormcle_args_of, opt_attribute_view};
use crate::error::MacroError;

verus! {

/// The struct of a derive input: its name and its settings, if its
/// `ormcle(...)` attribute could be read.
#[derive(Debug)]
pub struct Entity {
    pub struct_name: String,
    pub attr: Option<Attribute>,
}

/// An entity as a mathematical value.
pub struct EntityView {
    pub struct_name: Seq<char>,
    pub attr: Option<AttributeView>,
}

impl View for Entity {
    type V = EntityView;

    open spec fn view(&self) -> EntityView {
        EntityView { struct_name: self.struct_name@, attr: opt_attribute_view(self.attr) }
    }
}

/// The view of an optional entity.
pub open spec fn opt_entity_view(e: Option<Entity>) -> Option<EntityView> {
    match e {
        Some(x) => Some(x@),
        None => None,
    }
}

/// What `Entity::try_from_iter` reads from position `p` on, with the
/// settings `attr` of the last `ormcle(...)` attribute seen, and the position
/// after it: the name after the `struct` keyword. `Err` where the reading
/// stops the expansion.
pub open spec fn entity_from(s: Seq<Token>, p: int, attr: Option<AttributeView>) -> Result<(Option<EntityView>, int), MacroError>
    decreases s.len() - p,
{
    if p >= s.len() || p < 0 {
        Ok((None, p))
    } else {
        match s[p] {
            Token::Ident(i) => if i@ == "struct"@ {
                if p + 1 < s.len() && s[p + 1] is Ident {
                    match s[p + 1] {
                        Token::Ident(n) => Ok((Some(EntityView { struct_name: n@, attr }), p + 2)),
                        _ => Err(MacroError::Unreachable),
                    }
                } else {
                    Err(MacroError::Unreachable)
                }
            } else {
                entity_from(s, p + 1, attr)
            },
            Token::Punct(c) => if c == '#' {
                if p + 1 >= s.len() {
                    Err(MacroError::Unreachable)
                } else {
                    match s[p + 1] {
                        Token::Group(_, g) => match ormcle_args(g@) {
                            Some(inner) => entity_from(s, p + 2, struct_attr_from(inner, 0, AttributeView::default_struct())),
                            None => entity_from(s, p + 2, attr),
                        },
                        _ => Err(MacroError::Unreachable),
                    }
                }
            } else {
                entity_from(s, p + 1, attr)
            },
            _ => entity_from(s, p + 1, attr),
        }
    }
}

impl Entity {
    /// Reads the struct's settings and name from a token cursor, stopping
    /// right after the name; `Ok(None)` if there is no `struct` keyword,
    /// `Err` where the reading stops the expansion.
    pub fn try_from_iter_checked(ts: &mut TokenCursor) -> (r: Result<Option<Self>, MacroError>)
        ensures
            final(ts).tokens == old(ts).tokens,
            match r {
                Ok(e) => entity_from(old(ts).tokens@, old(ts).pos as int, None)
                    == Ok::<(Option<EntityView>, int), MacroError>((opt_entity_view(e), final(ts).pos as int)),
                Err(e) => entity_from(old(ts).tokens@, old(ts).pos as int, None)
                    == Err::<(Option<EntityView>, int), MacroError>(e),
            },
    {
        let ghost s = ts.tokens@;
        let ghost goal = entity_from(s, ts.pos as int, None);
        let mut attr: Option<Attribute> = None;
        loop
            invariant
                ts.tokens == old(ts).tokens,
                s == ts.tokens@,
                goal == entity_from(old(ts).tokens@, old(ts).pos as int, None),
                entity_from(s, ts.pos as int, opt_attribute_view(attr)) == goal,
            decreases s.len() - ts.pos,
        {
            match ts.next() {
                Some(Token::Ident(i)) => {
                    if str_is(i, "struct") {
                        match ts.next() {
                            Some(Token::Ident(n)) => {
                                return Ok(Some(Entity { struct_name: n.clone(), attr }));
                            },
                            _ => {
                                return Err(MacroError::Unreachable);
                            },
                        }
                    }
                },
                Some(Token::Punct(c)) => {
                    if *c == '#' {
                        let group: &Vec<Token> = match ts.next() {
                            Some(Token::Group(_, g)) => g,
                            _ => {
                                return Err(MacroError::Unreachable);
                            },
                        };
                        if let Some(inner) = ormcle_args_of(group) {
                            attr = Attribute::try_parse_struct(inner);
                        }
                    }
                },
                Some(_) => {
                    continue;
                },
                None => {
                    return Ok(None);
                },
            }
        }
    }

    /// Reads the struct's settings and name from a token cursor, on input
    /// that does not stop the expansion.
    pub fn try_from_iter(ts: &mut TokenCursor) -> (r: Option<Self>)
        requires
            entity_from(old(ts).tokens@, old(ts).pos as int, None) is Ok,
        ensures
            final(ts).tokens == old(ts).tokens,
            entity_from(old(ts).tokens@, old(ts).pos as int, None)
                == Ok::<(Option<EntityView>, int), MacroError>((opt_entity_view(r), final(ts).pos as int)),
    {
        match Entity::try_from_iter_checked(ts) {
            Ok(e) => e,
            Err(_) => {
                proof {
                    assert(false);
                }
                None
            },
        }
    }
}

} // verus!
