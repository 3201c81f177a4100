//! The output names that a build has handed out: article slugs and fragment stems,
//! each of which must be unique.

use vstd::prelude::*;
use crate::footnotes::{contains_id, has_id};

verus! {

/// A name that was already taken in this build.
#[derive(Clone, Debug, PartialEq, Eq)]
pub struct DuplicateName(pub String);

/// The names taken so far, in the order they were claimed.
#[derive(Debug)]
pub struct NameRegistry {
    pub names: Vec<String>,
}

impl NameRegistry {
    /// No name taken yet.
    pub fn new() -> (r: NameRegistry)
        ensures
            r.names@.len() == 0,
    {
        NameRegistry { names: Vec::new() }
    }

    /// Takes `name`; fails, and changes nothing, when it was taken before.
    pub fn claim(&mut self, name: &str) -> (r: Result<(), DuplicateName>)
        ensures
            has_id(old(self).names@, name@) ==> final(self).names@ == old(self).names@ && (
            r matches Err(DuplicateName(x)) && x@ == name@),
            !has_id(old(self).names@, name@) ==> r is Ok && final(self).names@.len()
                == old(self).names@.len() + 1 && final(self).names@.drop_last()
                == old(self).names@ && final(self).names@.last()@ == name@,
    {
        if contains_id(&self.names, name) {
            return Err(DuplicateName(name.to_owned()));
        }
        self.names.push(name.to_owned());
        assert(self.names@.drop_last() =~= old(self).names@);
        Ok(())
    }
}

/// Two articles with the same slug cannot both be built: once a name is claimed,
/// claiming it again fails.
pub proof fn lemma_second_claim_fails(names: Seq<String>, taken: Seq<String>, name: Seq<char>)
    requires
        taken.len() == names.len() + 1,
        taken.drop_last() == names,
        taken.last()@ == name,
    ensures
        has_id(taken, name),
{
    assert(taken[taken.len() - 1]@ == name);
}

} // verus!
