//! The metadata block at the head of an article.

use vstd::prelude::*;
use crate::date::{Date, parse_date_text, parsed_date};
use crate::text::chars_of;

verus! {

/// An article's metadata: title, slug, creation date and optional last-updated date.
#[derive(Clone, Debug, PartialEq, Eq)]
pub struct Frontmatter {
    pub title: String,
    pub slug: String,
    pub created: Date,
    pub updated: Option<Date>,
}

/// What a [`Frontmatter`] holds, as mathematical values.
pub struct FrontmatterView {
    pub title: Seq<char>,
    pub slug: Seq<char>,
    pub created: Date,
    pub updated: Option<Date>,
}

impl View for Frontmatter {
    type V = FrontmatterView;

    open spec fn view(&self) -> FrontmatterView {
        FrontmatterView {
            title: self.title@,
            slug: self.slug@,
            created: self.created,
            updated: self.updated,
        }
    }
}

/// Why a metadata block was refused.
#[derive(Clone, Copy, Debug, PartialEq, Eq, Structural)]
pub enum FrontmatterError {
    /// The block is absent, or a required field is missing.
    MissingField,
    /// The title or the slug is empty.
    EmptyField,
    /// A date is not a plain calendar date, or carries time-zone information.
    InvalidDate,
    /// The slug holds `/`, `\` or `:`.
    InvalidSlug,
    /// The last-updated date precedes the creation date.
    UpdatedBeforeCreated,
}

/// A character that may not stand in a slug: it separates path components.
pub open spec fn is_path_separator(c: char) -> bool {
    c == '/' || c == '\\' || c == ':'
}

/// A slug with no path separator in it.
pub open spec fn slug_is_clean(slug: Seq<char>) -> bool {
    forall|i: int| 0 <= i < slug.len() ==> !is_path_separator(#[trigger] slug[i])
}

/// The first rule that the fields break, if any, in the order the validator checks them.
pub open spec fn field_error(
    title: Seq<char>,
    slug: Seq<char>,
    created: Date,
    updated: Option<Date>,
) -> Option<FrontmatterError> {
    if title.len() == 0 || slug.len() == 0 {
        Some(FrontmatterError::EmptyField)
    } else if !slug_is_clean(slug) {
        Some(FrontmatterError::InvalidSlug)
    } else if updated matches Some(u) && u.spec_before(created) {
        Some(FrontmatterError::UpdatedBeforeCreated)
    } else {
        None
    }
}

/// A character that separates the time from the date.
pub open spec fn is_time_separator(c: char) -> bool {
    c == 'T' || c == 't' || c == ' '
}

/// Index `i` of a date text starts time-zone information: a `Z`, a bracketed
/// annotation, or a sign after the time.
pub open spec fn zone_at(s: Seq<char>, i: int) -> bool {
    0 <= i < s.len() && (s[i] == 'Z' || s[i] == 'z' || s[i] == '[' || ((s[i] == '+' || s[i]
        == '-') && exists|j: int| 0 <= j < i && #[trigger] is_time_separator(s[j])))
}

/// A date text that carries time-zone information.
pub open spec fn has_zone_info(s: Seq<char>) -> bool {
    exists|i: int| #[trigger] zone_at(s, i)
}

/// Whether a date text carries time-zone information.
pub fn date_has_zone(text: &str) -> (r: bool)
    ensures
        r == has_zone_info(text@),
{
    let s = chars_of(text);
    let mut seen_time = false;
    let mut i: usize = 0;
    while i < s.len()
        invariant
            s@ == text@,
            i <= s@.len(),
            seen_time == exists|j: int| 0 <= j < i && #[trigger] is_time_separator(s@[j]),
            forall|k: int| 0 <= k < i ==> !#[trigger] zone_at(s@, k),
        decreases s@.len() - i,
    {
        let c = s[i];
        if c == 'Z' || c == 'z' || c == '[' || ((c == '+' || c == '-') && seen_time) {
            assert(zone_at(s@, i as int));
            return true;
        }
        if c == 'T' || c == 't' || c == ' ' {
            assert(is_time_separator(s@[i as int]));
            seen_time = true;
        }
        i = i + 1;
    }
    false
}

/// The text of a field of the metadata block at the head of `input`, when the block
/// is there and the field holds a string.
pub uninterp spec fn front_matter_field(input: Seq<char>, key: Seq<char>) -> Option<Seq<char>>;

/// What reading the metadata block of `input` gives.
pub open spec fn frontmatter_of(input: Seq<char>) -> Result<FrontmatterView, FrontmatterError> {
    let title = front_matter_field(input, "title"@);
    let slug = front_matter_field(input, "slug"@);
    let created = front_matter_field(input, "created"@);
    let updated = front_matter_field(input, "updated"@);
    if title is None || slug is None || created is None {
        Err(FrontmatterError::MissingField)
    } else if parsed_date(created->Some_0) is None || has_zone_info(created->Some_0) {
        Err(FrontmatterError::InvalidDate)
    } else if updated is Some && (parsed_date(updated->Some_0) is None || has_zone_info(
        updated->Some_0,
    )) {
        Err(FrontmatterError::InvalidDate)
    } else {
        let c = parsed_date(created->Some_0)->Some_0;
        let u = if updated is Some { parsed_date(updated->Some_0) } else { None };
        match field_error(title->Some_0, slug->Some_0, c, u) {
            Some(e) => Err(e),
            None => Ok(FrontmatterView { title: title->Some_0, slug: slug->Some_0, created: c, updated: u }),
        }
    }
}

/// Relies on gray_matter's YAML front matter: `Matter::parse` finds the block between
/// `---` lines, `Pod::as_hashmap` gives its fields and `Pod::as_string` the text of one.
#[verifier::external_body]
fn matter_field(input: &str, key: &str) -> (r: Option<String>)
    ensures
        r is Some == front_matter_field(input@, key@) is Some,
        r matches Some(v) ==> v@ == front_matter_field(input@, key@)->Some_0,
{
    let data = gray_matter::Matter::<gray_matter::engine::YAML>::new().parse(input).data?;
    data.as_hashmap().ok()?.get(key)?.as_string().ok()
}

/// Whether `slug` holds no path separator.
pub fn slug_is_valid(slug: &str) -> (r: bool)
    ensures
        r == slug_is_clean(slug@),
{
    let n = slug.unicode_len();
    let mut i: usize = 0;
    while i < n
        invariant
            n == slug@.len(),
            i <= n,
            forall|k: int| 0 <= k < i ==> !is_path_separator(#[trigger] slug@[k]),
        decreases n - i,
    {
        let c = slug.get_char(i);
        if c == '/' || c == '\\' || c == ':' {
            return false;
        }
        i = i + 1;
    }
    true
}

impl Frontmatter {
    /// The fields are present and consistent: the dates are real dates.
    pub open spec fn wf(&self) -> bool {
        &&& self.created.valid()
        &&& self.updated matches Some(u) ==> u.valid()
    }

    /// Checks the fields of a metadata block: title and slug are not empty, the slug
    /// holds no path separator, and the last-updated date, when present, does not
    /// precede the creation date (the same day is accepted).
    pub fn from_fields(title: String, slug: String, created: Date, updated: Option<Date>) -> (r:
        Result<Frontmatter, FrontmatterError>)
        requires
            created.valid(),
            updated matches Some(u) ==> u.valid(),
        ensures
            match field_error(title@, slug@, created, updated) {
                Some(e) => r == Err::<Frontmatter, FrontmatterError>(e),
                None => r matches Ok(f) && f@ == (FrontmatterView {
                    title: title@,
                    slug: slug@,
                    created,
                    updated,
                }) && f.wf(),
            },
    {
        if title.unicode_len() == 0 || slug.unicode_len() == 0 {
            return Err(FrontmatterError::EmptyField);
        }
        if !slug_is_valid(slug.as_str()) {
            return Err(FrontmatterError::InvalidSlug);
        }
        if let Some(u) = updated {
            if u.is_before(&created) {
                return Err(FrontmatterError::UpdatedBeforeCreated);
            }
        }
        Ok(Frontmatter { title, slug, created, updated })
    }

    /// Reads and checks the metadata block at the head of an article.
    pub fn from_text(input: &str) -> (r: Result<Frontmatter, FrontmatterError>)
        ensures
            match frontmatter_of(input@) {
                Err(e) => r == Err::<Frontmatter, FrontmatterError>(e),
                Ok(v) => r matches Ok(f) && f@ == v && f.wf(),
            },
    {
        let title = matter_field(input, "title");
        let slug = matter_field(input, "slug");
        let created = matter_field(input, "created");
        let updated = matter_field(input, "updated");
        let (title, slug, created) = match (title, slug, created) {
            (Some(t), Some(s), Some(c)) => (t, s, c),
            _ => return Err(FrontmatterError::MissingField),
        };
        let created = match parse_date_text(created.as_str()) {
            Some(d) => if date_has_zone(created.as_str()) {
                return Err(FrontmatterError::InvalidDate);
            } else {
                d
            },
            None => return Err(FrontmatterError::InvalidDate),
        };
        let updated = match updated {
            Some(u) => match parse_date_text(u.as_str()) {
                Some(d) => if date_has_zone(u.as_str()) {
                    return Err(FrontmatterError::InvalidDate);
                } else {
                    Some(d)
                },
                None => return Err(FrontmatterError::InvalidDate),
            },
            None => None,
        };
        Self::from_fields(title, slug, created, updated)
    }
}

/// A last-updated date before the creation date is refused; the same day or a
/// later one is accepted.
pub proof fn lemma_updated_not_before_created(
    title: Seq<char>,
    slug: Seq<char>,
    created: Date,
    updated: Date,
)
    requires
        title.len() > 0,
        slug.len() > 0,
        slug_is_clean(slug),
    ensures
        field_error(title, slug, created, Some(updated)) == (if updated.spec_before(created) {
            Some(FrontmatterError::UpdatedBeforeCreated)
        } else {
            None::<FrontmatterError>
        }),
        updated == created ==> field_error(title, slug, created, Some(updated)) is None,
{
}

} // verus!
