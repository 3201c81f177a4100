//! Site configuration values that the library reads.

use vstd::prelude::*;
use crate::text::text_eq;

verus! {

/// A page that is not an article (the index, an about page): its title and the
/// path of its HTML body.
#[derive(Clone, Debug, PartialEq, Eq)]
pub struct Fragment {
    pub title: String,
    pub path: String,
}

/// Where the page of a fragment goes, relative to the output directory: the
/// fragment named `index` is the site's front page, every other one gets a
/// directory of its own.
pub open spec fn fragment_output_of(stem: Seq<char>) -> Seq<char> {
    if stem == "index"@ {
        "index.html"@
    } else {
        stem + "/index.html"@
    }
}

/// The output path of the page of the fragment whose file stem is `stem`.
pub fn fragment_output_path(stem: &str) -> (r: String)
    ensures
        r@ == fragment_output_of(stem@),
{
    if text_eq(stem, "index") {
        "index.html".to_owned()
    } else {
        let mut out = stem.to_owned();
        out.append("/index.html");
        out
    }
}

} // verus!
