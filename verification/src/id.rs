//! Participant identity: a validated name plus a uniqueness token.

use vstd::prelude::*;
use vstd::string::StrSliceExecFns;
use crate::err::{TResult, TellErr, LibErr};
use crate::util::timestamp;

verus! {

/// The mathematical value of an [`Id`]: its name's characters and its token.
pub ghost struct IdView {
    pub name: Seq<char>,
    pub sign: u128,
}

/// An immutable participant identity. The name is validated on creation
/// (between [`NAME_MIN_LEN`] and [`NAME_MAX_LEN`] characters, the only
/// validation in the system); the token is a creation-time clock reading used
/// only for uniqueness, never for ordering.
#[derive(Debug)]
pub struct Id {
    name: String,
    sign: u128,
}

/// Shortest accepted identity name, in characters.
pub const NAME_MIN_LEN: usize = 3;

/// Longest accepted identity name, in characters.
pub const NAME_MAX_LEN: usize = 10;

/// Does `name` have an accepted length for an identity?
pub open spec fn valid_name(name: Seq<char>) -> bool {
    NAME_MIN_LEN <= name.len() <= NAME_MAX_LEN
}

impl View for Id {
    type V = IdView;

    closed spec fn view(&self) -> IdView {
        IdView { name: self.name@, sign: self.sign }
    }
}

impl DeepView for Id {
    type V = IdView;

    open spec fn deep_view(&self) -> IdView {
        self.view()
    }
}

impl Clone for Id {
    fn clone(&self) -> (r: Self)
        ensures
            r@ == self@,
    {
        Id { name: self.name.clone(), sign: self.sign }
    }
}

impl PartialEq for Id {
    /// Equality is by the full pair: name and token.
    fn eq(&self, other: &Id) -> (r: bool) {
        self.name == other.name && self.sign == other.sign
    }
}

impl vstd::std_specs::cmp::PartialEqSpecImpl for Id {
    open spec fn obeys_eq_spec() -> bool {
        true
    }

    open spec fn eq_spec(&self, other: &Id) -> bool {
        self@ == other@
    }
}

impl Id {
    /// Create an identity from `name`, stamping it with a fresh clock token.
    /// Succeeds exactly when the name's length is accepted; otherwise the
    /// name is handed back inside the error.
    pub fn new(name: String) -> (r: TResult<Id>)
        ensures
            valid_name(name@) <==> r is Ok,
            r is Ok ==> r->Ok_0@.name == name@,
            !valid_name(name@) ==> (r matches Err(TellErr::Lib(LibErr::InvalidName(n))) && n@
                == name@),
    {
        match Self::verify_name(&name) {
            Err(e) => Err(e),
            Ok(()) => Ok(Id { name, sign: timestamp() }),
        }
    }

    fn verify_name(name: &String) -> (r: TResult<()>)
        ensures
            valid_name(name@) <==> r is Ok,
            !valid_name(name@) ==> (r matches Err(TellErr::Lib(LibErr::InvalidName(n))) && n@
                == name@),
    {
        let len = name.as_str().unicode_len();
        if len > NAME_MAX_LEN || len < NAME_MIN_LEN {
            Err(TellErr::Lib(LibErr::InvalidName(name.clone())))
        } else {
            Ok(())
        }
    }

    /// An identity with every field given, bypassing name validation; the
    /// decoder rebuilds received identities through this, exactly as they
    /// came off the wire.
    pub fn from_parts(name: String, sign: u128) -> (r: Id)
        ensures
            r@ == (IdView { name: name@, sign }),
    {
        Id { name, sign }
    }

    /// The name this identity was created with.
    pub fn name(&self) -> (r: &String)
        ensures
            r@ == self@.name,
    {
        &self.name
    }

    /// The uniqueness token this identity was stamped with.
    pub fn sign(&self) -> (r: u128)
        ensures
            r == self@.sign,
    {
        self.sign
    }
}

} // verus!
