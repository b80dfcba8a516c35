//! Structural widget identity.
//!
//! An `Id` is built from a caller-supplied source-site token (a file name or
//! any equivalent uniqueness token) together with a line, a column and three
//! auxiliary discriminators for widgets created in a loop at one call site.
//! An optional owning link to a parent `Id` keeps structurally identical
//! child widgets nested under different parents apart.  Two identities are
//! equal exactly when all fields, including the full parent chain, are equal;
//! token strings are compared by content.

use vstd::prelude::*;
use vstd::string::StrSliceExecFns;

verus! {

/// The mathematical value of an `Id`: the token as a character sequence, the
/// numeric discriminators, and the parent chain.
pub ghost struct IdV {
    pub token: Seq<char>,
    pub line: u32,
    pub column: u32,
    pub aux_1: u32,
    pub aux_2: u32,
    pub aux_3: u32,
    pub parent: Option<Box<IdV>>,
}

/// A structural, call-site-derived widget identity.
#[derive(Debug)]
pub struct Id {
    line: u32,
    column: u32,
    aux_1: u32,
    aux_2: u32,
    aux_3: u32,
    file: &'static str,
    parent: Option<Box<Id>>,
}

/// The mathematical value of an identity, chasing the whole parent chain.
pub closed spec fn id_view(id: Id) -> IdV
    decreases id,
{
    IdV {
        token: id.file@,
        line: id.line,
        column: id.column,
        aux_1: id.aux_1,
        aux_2: id.aux_2,
        aux_3: id.aux_3,
        parent: match id.parent {
            Option::None => Option::None,
            Option::Some(p) => Option::Some(Box::new(id_view(*p))),
        },
    }
}

impl View for Id {
    type V = IdV;

    open spec fn view(&self) -> IdV {
        id_view(*self)
    }
}

impl Id {
    /// Builds a fresh identity from a source-site token and discriminators.
    /// Pure data construction: deterministic and side-effect-free.
    pub fn new(file: &'static str, line: u32, column: u32, aux_1: u32, aux_2: u32, aux_3: u32) -> (r:
        Id)
        ensures
            r@ == (IdV {
                token: file@,
                line,
                column,
                aux_1,
                aux_2,
                aux_3,
                parent: Option::<Box<IdV>>::None,
            }),
    {
        Id { line, column, aux_1, aux_2, aux_3, file, parent: None }
    }

    /// A copy of this identity owning `other` as its parent, so that
    /// structurally identical children of different parents do not collide.
    pub fn with_parent(self, other: Id) -> (r: Id)
        ensures
            r@ == (IdV { parent: Option::Some(Box::new(other@)), ..self@ }),
    {
        Id { parent: Some(Box::new(other)), ..self }
    }
}

/// Whether two token strings have the same characters.
fn str_content_eq(a: &str, b: &str) -> (r: bool)
    ensures
        r == (a@ == b@),
{
    let a_len = a.unicode_len();
    let b_len = b.unicode_len();
    if a_len != b_len {
        proof {
            assert(a@ =~= b@ ==> a@.len() == b@.len());
        }
        return false;
    }
    let mut i: usize = 0;
    while i < a_len
        invariant
            i <= a_len,
            a_len == a@.len(),
            b_len == b@.len(),
            a_len == b_len,
            forall|j: int| 0 <= j < i ==> a@[j] == b@[j],
        decreases a_len - i,
    {
        if a.get_char(i) != b.get_char(i) {
            proof {
                assert(a@[i as int] != b@[i as int]);
            }
            return false;
        }
        i = i + 1;
    }
    proof {
        assert(a@ =~= b@);
    }
    true
}

/// Whether two identities are structurally equal, parent chains included.
fn id_eq(a: &Id, b: &Id) -> (r: bool)
    ensures
        r == (a@ == b@),
    decreases *a,
{
    let fields_eq = a.line == b.line && a.column == b.column && a.aux_1 == b.aux_1 && a.aux_2
        == b.aux_2 && a.aux_3 == b.aux_3 && str_content_eq(a.file, b.file);
    if !fields_eq {
        return false;
    }
    match (&a.parent, &b.parent) {
        (None, None) => true,
        (Some(pa), Some(pb)) => id_eq(pa, pb),
        _ => false,
    }
}

/// A deep copy of an identity, parent chain included.
fn id_clone(a: &Id) -> (r: Id)
    ensures
        r == *a,
    decreases *a,
{
    Id {
        line: a.line,
        column: a.column,
        aux_1: a.aux_1,
        aux_2: a.aux_2,
        aux_3: a.aux_3,
        file: a.file,
        parent: match &a.parent {
            None => None,
            Some(p) => Some(Box::new(id_clone(p))),
        },
    }
}

impl Clone for Id {
    fn clone(&self) -> (r: Id)
        ensures
            r == *self,
    {
        id_clone(self)
    }
}

impl PartialEq for Id {
    fn eq(&self, other: &Id) -> (r: bool) {
        id_eq(self, other)
    }
}

impl Eq for Id {

}

impl vstd::std_specs::cmp::PartialEqSpecImpl for Id {
    open spec fn obeys_eq_spec() -> bool {
        true
    }

    open spec fn eq_spec(&self, other: &Id) -> bool {
        self@ == other@
    }
}

} // verus!
