//! Attribute literals and the helper that builds the empty defaults used
//! when an attribute of any type is left unset.

use vstd::prelude::*;

verus! {

/// A coerced attribute value.
pub struct CoercedAttr {
    pub lit: AttrLiteral,
}

/// A literal attribute value.
pub enum AttrLiteral {
    Str(String),
    List(Vec<CoercedAttr>),
}

impl CoercedAttr {
    pub fn new_literal(lit: AttrLiteral) -> (r: CoercedAttr)
        ensures
            r.lit == lit,
    {
        CoercedAttr { lit }
    }
}

/// The attribute type that accepts anything; its defaults are empty values.
pub struct AnyAttrType;

impl AnyAttrType {
    /// The empty string literal.
    pub fn empty_string() -> (r: CoercedAttr)
        ensures
            r.lit matches AttrLiteral::Str(s) && s@ == Seq::<char>::empty(),
    {
        CoercedAttr::new_literal(AttrLiteral::Str(String::new()))
    }

    /// The empty list literal.
    pub fn empty_list() -> (r: CoercedAttr)
        ensures
            r.lit matches AttrLiteral::List(v) && v@ == Seq::<CoercedAttr>::empty(),
    {
        let r = CoercedAttr::new_literal(AttrLiteral::List(Vec::new()));
        proof {
            assert(r.lit matches AttrLiteral::List(v) ==> v@ =~= Seq::<CoercedAttr>::empty());
        }
        r
    }
}

} // verus!
