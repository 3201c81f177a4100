//! Footnote references and definitions of one article, which must match.

use vstd::prelude::*;
use crate::text::text_eq;

verus! {

/// Why the footnotes of an article do not match.
#[derive(Clone, Debug, PartialEq, Eq)]
pub enum FootnoteError {
    /// Two definitions carry the same identifier.
    DuplicateDefinition(String),
    /// A reference names an identifier that no definition carries.
    ReferenceWithoutDefinition(String),
    /// A definition carries an identifier that no reference names.
    DefinitionWithoutReference(String),
}

/// Some identifier of the list is `x`.
pub open spec fn has_id(v: Seq<String>, x: Seq<char>) -> bool {
    exists|i: int| 0 <= i < v.len() && #[trigger] v[i]@ == x
}

/// The identifiers of a list, as a set.
pub open spec fn id_set(v: Seq<String>) -> Set<Seq<char>> {
    Set::new(|x: Seq<char>| has_id(v, x))
}

/// Whether some identifier of `v` is `x`.
pub fn contains_id(v: &Vec<String>, x: &str) -> (r: bool)
    ensures
        r == has_id(v@, x@),
{
    let mut i: usize = 0;
    while i < v.len()
        invariant
            i <= v@.len(),
            forall|k: int| 0 <= k < i ==> v@[k]@ != x@,
        decreases v@.len() - i,
    {
        if text_eq(v[i].as_str(), x) {
            return true;
        }
        i = i + 1;
    }
    false
}

/// The footnote identifiers seen so far: references in the order met, and
/// definitions, each identifier at most once.
#[derive(Debug)]
pub struct FootnoteTracker {
    pub references: Vec<String>,
    pub definitions: Vec<String>,
}

impl FootnoteTracker {
    /// `e` is the mismatch to report: the first reference, in the order met, with no
    /// definition; or, when every reference has one, the first definition with no
    /// reference.
    pub open spec fn mismatch_reported(&self, e: FootnoteError) -> bool {
        match e {
            FootnoteError::ReferenceWithoutDefinition(x) => exists|i: int|
                0 <= i < self.references@.len() && #[trigger] self.references@[i]@ == x@
                    && !has_id(self.definitions@, x@) && forall|k: int|
                    0 <= k < i ==> has_id(self.definitions@, #[trigger] self.references@[k]@),
            FootnoteError::DefinitionWithoutReference(x) => (forall|k: int|
                0 <= k < self.references@.len() ==> has_id(
                    self.definitions@,
                    #[trigger] self.references@[k]@,
                )) && exists|j: int|
                0 <= j < self.definitions@.len() && #[trigger] self.definitions@[j]@ == x@
                    && !has_id(self.references@, x@) && forall|k: int|
                    0 <= k < j ==> has_id(self.references@, #[trigger] self.definitions@[k]@),
            FootnoteError::DuplicateDefinition(_) => false,
        }
    }

    /// No footnote seen yet.
    pub fn new() -> (r: FootnoteTracker)
        ensures
            r.references@.len() == 0,
            r.definitions@.len() == 0,
    {
        FootnoteTracker { references: Vec::new(), definitions: Vec::new() }
    }

    /// Records a reference to footnote `id`.
    pub fn add_reference(&mut self, id: &str)
        ensures
            final(self).definitions@ == old(self).definitions@,
            final(self).references@.len() == old(self).references@.len() + 1,
            final(self).references@.drop_last() == old(self).references@,
            final(self).references@.last()@ == id@,
    {
        self.references.push(id.to_owned());
        assert(self.references@.drop_last() =~= old(self).references@);
    }

    /// Records the definition of footnote `id`; a second definition of the same
    /// identifier is refused and leaves the tracker as it was.
    pub fn add_definition(&mut self, id: &str) -> (r: Result<(), FootnoteError>)
        ensures
            final(self).references@ == old(self).references@,
            has_id(old(self).definitions@, id@) ==> final(self).definitions@ == old(
                self,
            ).definitions@ && (r matches Err(FootnoteError::DuplicateDefinition(x)) && x@ == id@),
            !has_id(old(self).definitions@, id@) ==> r is Ok && final(self).definitions@.len()
                == old(self).definitions@.len() + 1 && final(self).definitions@.drop_last() == old(
                self,
            ).definitions@ && final(self).definitions@.last()@ == id@,
    {
        if contains_id(&self.definitions, id) {
            return Err(FootnoteError::DuplicateDefinition(id.to_owned()));
        }
        self.definitions.push(id.to_owned());
        assert(self.definitions@.drop_last() =~= old(self).definitions@);
        Ok(())
    }

    /// Checks that references and definitions name the same identifiers. Reports
    /// the first reference, in the order met, with no definition; else the first
    /// definition with no reference.
    pub fn finish(&self) -> (r: Result<(), FootnoteError>)
        ensures
            r is Ok <==> id_set(self.references@) == id_set(self.definitions@),
            r matches Err(e) ==> self.mismatch_reported(e),
    {
        let mut i: usize = 0;
        while i < self.references.len()
            invariant
                i <= self.references@.len(),
                forall|k: int|
                    0 <= k < i ==> has_id(self.definitions@, #[trigger] self.references@[k]@),
            decreases self.references@.len() - i,
        {
            if !contains_id(&self.definitions, self.references[i].as_str()) {
                let x = self.references[i].clone();
                assert(!(id_set(self.references@) =~= id_set(self.definitions@))) by {
                    assert(id_set(self.references@).contains(x@));
                }
                return Err(FootnoteError::ReferenceWithoutDefinition(x));
            }
            i = i + 1;
        }
        let mut j: usize = 0;
        while j < self.definitions.len()
            invariant
                j <= self.definitions@.len(),
                forall|k: int|
                    0 <= k < self.references@.len() ==> has_id(
                        self.definitions@,
                        #[trigger] self.references@[k]@,
                    ),
                forall|k: int|
                    0 <= k < j ==> has_id(self.references@, #[trigger] self.definitions@[k]@),
            decreases self.definitions@.len() - j,
        {
            if !contains_id(&self.references, self.definitions[j].as_str()) {
                let x = self.definitions[j].clone();
                assert(!(id_set(self.references@) =~= id_set(self.definitions@))) by {
                    assert(id_set(self.definitions@).contains(x@));
                }
                return Err(FootnoteError::DefinitionWithoutReference(x));
            }
            j = j + 1;
        }
        assert(id_set(self.references@) =~= id_set(self.definitions@));
        Ok(())
    }
}

} // verus!
