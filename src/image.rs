//! Images referenced by articles: source validation, the capture of an image's
//! alt text across parser events, and the cache of converted images.

use vstd::prelude::*;
use crate::html::{attrs_html, HtmlTree, NodeKind};
use crate::text::{chars_of, decimal_text, push_char, u32_text};

verus! {

/// The extension of converted images.
pub const OUTPUT_IMAGE_EXTENSION: &'static str = "avif";

/// The pixel size of an image.
#[derive(Clone, Copy, Debug, PartialEq, Eq, Structural)]
pub struct Dimensions {
    pub width: u32,
    pub height: u32,
}

/// Why an image source was refused.
#[derive(Clone, Copy, Debug, PartialEq, Eq, Structural)]
pub enum ImageSrcError {
    /// The source is the empty string.
    Empty,
    /// The source is absolute or has a `..` component.
    NotNormalizedRelative,
}

/// A `..` component starts at index `i` of the path.
pub open spec fn parent_component_at(s: Seq<char>, i: int) -> bool {
    &&& 0 <= i
    &&& i + 2 <= s.len()
    &&& s[i] == '.'
    &&& s[i + 1] == '.'
    &&& (i == 0 || s[i - 1] == '/')
    &&& (i + 2 == s.len() || s[i + 2] == '/')
}

/// The verdict on an image source: not empty, relative, no `..` component.
pub open spec fn image_src_check(s: Seq<char>) -> Result<(), ImageSrcError> {
    if s.len() == 0 {
        Err(ImageSrcError::Empty)
    } else if s[0] == '/' || exists|i: int| #[trigger] parent_component_at(s, i) {
        Err(ImageSrcError::NotNormalizedRelative)
    } else {
        Ok(())
    }
}

/// Checks that an image source is a normalized relative path: not empty, not
/// absolute, and with no `..` component.
pub fn validate_image_src(url: &str) -> (r: Result<(), ImageSrcError>)
    ensures
        r == image_src_check(url@),
{
    let s = chars_of(url);
    let n = s.len();
    if n == 0 {
        return Err(ImageSrcError::Empty);
    }
    if s[0] == '/' {
        return Err(ImageSrcError::NotNormalizedRelative);
    }
    let mut i: usize = 0;
    while i < n - 1
        invariant
            s@ == url@,
            n == s@.len(),
            n >= 1,
            forall|j: int| 0 <= j < i ==> !#[trigger] parent_component_at(s@, j),
        decreases n - i,
    {
        if s[i] == '.' && s[i + 1] == '.' && (i == 0 || s[i - 1] == '/') && (i + 2 == n || s[i
            + 2] == '/') {
            assert(parent_component_at(s@, i as int));
            return Err(ImageSrcError::NotNormalizedRelative);
        }
        i = i + 1;
    }
    Ok(())
}

/// Index just after the last `/` of the path, where its file name starts.
pub open spec fn name_start(s: Seq<char>) -> int
    decreases s.len(),
{
    if s.len() == 0 {
        0
    } else if s.last() == '/' {
        s.len() as int
    } else {
        name_start(s.drop_last())
    }
}

/// Index of the last `.` of the path at or after `from`, if any.
pub open spec fn last_dot_from(s: Seq<char>, from: int) -> Option<int>
    decreases s.len(),
{
    if s.len() <= from || s.len() == 0 {
        None
    } else if s.last() == '.' {
        Some(s.len() - 1)
    } else {
        last_dot_from(s.drop_last(), from)
    }
}

/// Index of the dot that starts the extension of the file name: the last dot of
/// the name, unless the name starts with it.
pub open spec fn extension_dot(s: Seq<char>) -> Option<int> {
    match last_dot_from(s, name_start(s)) {
        Some(d) => if d > name_start(s) {
            Some(d)
        } else {
            None
        },
        None => None,
    }
}

/// The extension of the file name of a path.
pub open spec fn extension_of(s: Seq<char>) -> Option<Seq<char>> {
    match extension_dot(s) {
        Some(d) => Some(s.subrange(d + 1, s.len() as int)),
        None => None,
    }
}

/// The path with its extension replaced by the extension of converted images.
pub open spec fn output_path_of(s: Seq<char>) -> Seq<char> {
    let stem_end = match extension_dot(s) {
        Some(d) => d,
        None => s.len() as int,
    };
    s.subrange(0, stem_end) + seq!['.'] + OUTPUT_IMAGE_EXTENSION@
}

/// Finds where the extension of the file name of `s` starts.
fn find_extension_dot(s: &Vec<char>) -> (r: Option<usize>)
    ensures
        r matches Some(x) ==> extension_dot(s@) == Some(x as int) && x < s@.len(),
        r is None ==> extension_dot(s@) is None,
{
    let mut start: usize = s.len();
    assert(s@.subrange(0, start as int) =~= s@);
    while start > 0 && s[start - 1] != '/'
        invariant
            start <= s@.len(),
            name_start(s@) == name_start(s@.subrange(0, start as int)),
        decreases start,
    {
        assert(s@.subrange(0, start as int).drop_last() =~= s@.subrange(0, start - 1));
        start = start - 1;
    }
    assert(name_start(s@.subrange(0, start as int)) == start as int) by {
        if start > 0 {
            assert(s@.subrange(0, start as int).last() == '/');
        }
    }
    let mut d: usize = s.len();
    assert(s@.subrange(0, d as int) =~= s@);
    while d > start && s[d - 1] != '.'
        invariant
            start <= d <= s@.len(),
            name_start(s@) == start,
            last_dot_from(s@, start as int) == last_dot_from(s@.subrange(0, d as int), start as int),
        decreases d,
    {
        assert(s@.subrange(0, d as int).drop_last() =~= s@.subrange(0, d - 1));
        d = d - 1;
    }
    if d > start {
        assert(s@.subrange(0, d as int).last() == '.');
        if d - 1 > start {
            Some(d - 1)
        } else {
            None
        }
    } else {
        None
    }
}

/// The extension of the file name of `src`, if it has one.
pub fn image_extension(src: &str) -> (r: Option<String>)
    ensures
        match extension_of(src@) {
            Some(e) => r matches Some(x) && x@ == e,
            None => r is None,
        },
{
    let s = chars_of(src);
    let n = s.len();
    match find_extension_dot(&s) {
        Some(d) => {
            assert(d < s@.len());
            let mut out = String::new();
            let mut k: usize = d + 1;
            while k < s.len()
                invariant
                    d + 1 <= k <= s@.len(),
                    out@ == s@.subrange(d + 1, k as int),
                decreases s@.len() - k,
            {
                push_char(&mut out, s[k]);
                assert(s@.subrange(d + 1, k + 1) =~= s@.subrange(d + 1, k as int).push(s@[k as int]));
                k = k + 1;
            }
            Some(out)
        },
        None => None,
    }
}

/// Where a converted image is written, relative to the article: `src` with the
/// extension of converted images in place of its own.
pub fn output_image_path(src: &str) -> (r: String)
    ensures
        r@ == output_path_of(src@),
{
    let s = chars_of(src);
    let end = match find_extension_dot(&s) {
        Some(d) => d,
        None => s.len(),
    };
    let mut out = String::new();
    let mut k: usize = 0;
    while k < end
        invariant
            end <= s@.len(),
            k <= end,
            out@ == s@.subrange(0, k as int),
        decreases end - k,
    {
        push_char(&mut out, s[k]);
        assert(s@.subrange(0, k + 1) =~= s@.subrange(0, k as int).push(s@[k as int]));
        k = k + 1;
    }
    push_char(&mut out, '.');
    out.append(OUTPUT_IMAGE_EXTENSION);
    out
}

/// An image that is served as it stands rather than converted: one already in the
/// output format, or a vector image.
pub open spec fn is_passthrough(src: Seq<char>) -> bool {
    extension_of(src) == Some(OUTPUT_IMAGE_EXTENSION@) || extension_of(src) == Some("svg"@)
}

/// Whether the image at `src` is served as it stands.
pub fn is_passthrough_image(src: &str) -> (r: bool)
    ensures
        r == is_passthrough(src@),
{
    match image_extension(src) {
        Some(e) => crate::text::text_eq(e.as_str(), OUTPUT_IMAGE_EXTENSION) || crate::text::text_eq(
            e.as_str(),
            "svg",
        ),
        None => false,
    }
}

/// The capture of an image across parser events: its attributes, how deeply image
/// starts are nested, and the span of source text that its alt text covers.
#[derive(Debug)]
pub struct ActiveImageState {
    pub nesting_level: usize,
    pub url: String,
    pub dimensions: Option<Dimensions>,
    pub title: String,
    pub id: String,
    pub alt_text_range: Option<(usize, usize)>,
}

/// The attributes of the `<img>` element of a capture, given its alt text: source,
/// alt text, asynchronous decoding, lazy loading, then the size when known and the
/// title and id when not empty.
pub open spec fn img_attrs(
    url: Seq<char>,
    alt: Seq<char>,
    dimensions: Option<Dimensions>,
    title: Seq<char>,
    id: Seq<char>,
) -> Seq<(Seq<char>, Seq<char>)> {
    let a0 = seq![("src"@, url), ("alt"@, alt), ("decoding"@, "async"@), ("loading"@, "lazy"@)];
    let a1 = match dimensions {
        Some(d) => a0 + seq![
            ("width"@, decimal_text(d.width as nat)),
            ("height"@, decimal_text(d.height as nat)),
        ],
        None => a0,
    };
    let a2 = if title.len() > 0 {
        a1.push(("title"@, title))
    } else {
        a1
    };
    if id.len() > 0 {
        a2.push(("id"@, id))
    } else {
        a2
    }
}

/// A span widened to take in `start..end`.
pub open spec fn widened(range: Option<(usize, usize)>, start: usize, end: usize) -> Option<
    (usize, usize),
> {
    Some(
        match range {
            Some((s, e)) => (
                if start < s {
                    start
                } else {
                    s
                },
                if end > e {
                    end
                } else {
                    e
                },
            ),
            None => (start, end),
        },
    )
}

impl ActiveImageState {
    /// The alt text of the capture within `source`: the covered span, or nothing
    /// when no event was seen inside the image.
    pub open spec fn alt_text(&self, source: Seq<char>) -> Seq<char> {
        match self.alt_text_range {
            Some((s, e)) => source.subrange(s as int, e as int),
            None => Seq::empty(),
        }
    }

    /// The covered span lies within `source`.
    pub open spec fn fits(&self, source: Seq<char>) -> bool {
        self.alt_text_range matches Some((s, e)) ==> s <= e <= source.len()
    }

    /// Opens a capture at nesting level one with no alt text yet.
    pub fn new(url: String, dimensions: Option<Dimensions>, title: String, id: String) -> (r:
        ActiveImageState)
        ensures
            r.nesting_level == 1,
            r.url == url,
            r.dimensions == dimensions,
            r.title == title,
            r.id == id,
            r.alt_text_range is None,
    {
        ActiveImageState { nesting_level: 1, url, dimensions, title, id, alt_text_range: None }
    }

    /// An image starts inside the capture.
    pub fn nest(&mut self)
        requires
            old(self).nesting_level < usize::MAX,
        ensures
            final(self).nesting_level == old(self).nesting_level + 1,
            final(self).alt_text_range == old(self).alt_text_range,
            final(self).url == old(self).url,
            final(self).dimensions == old(self).dimensions,
            final(self).title == old(self).title,
            final(self).id == old(self).id,
    {
        self.nesting_level = self.nesting_level + 1;
    }

    /// An image ends inside the capture, or the captured image itself ends.
    pub fn unnest(&mut self)
        requires
            old(self).nesting_level > 0,
        ensures
            final(self).nesting_level == old(self).nesting_level - 1,
            final(self).alt_text_range == old(self).alt_text_range,
            final(self).url == old(self).url,
            final(self).dimensions == old(self).dimensions,
            final(self).title == old(self).title,
            final(self).id == old(self).id,
    {
        self.nesting_level = self.nesting_level - 1;
    }

    /// Whether the captured image has not ended yet.
    pub fn is_active(&self) -> (r: bool)
        ensures
            r == (self.nesting_level >= 1),
    {
        self.nesting_level >= 1
    }

    /// Widens the covered span to take in the span `start..end` of an event.
    pub fn update_alt_text_range(&mut self, start: usize, end: usize)
        requires
            start <= end,
        ensures
            final(self).alt_text_range == widened(old(self).alt_text_range, start, end),
            final(self).nesting_level == old(self).nesting_level,
            final(self).url == old(self).url,
            final(self).dimensions == old(self).dimensions,
            final(self).title == old(self).title,
            final(self).id == old(self).id,
    {
        self.alt_text_range = Some(
            match self.alt_text_range {
                Some((s, e)) => (
                    if start < s {
                        start
                    } else {
                        s
                    },
                    if end > e {
                        end
                    } else {
                        e
                    },
                ),
                None => (start, end),
            },
        );
    }

    /// Ends the capture with the `<img>` element it stands for; the alt text is the
    /// covered span of `markdown_source`.
    pub fn into_html(self, markdown_source: &str) -> (r: String)
        requires
            self.fits(markdown_source@),
        ensures
            r@ == "<img"@ + attrs_html(
                img_attrs(
                    self.url@,
                    self.alt_text(markdown_source@),
                    self.dimensions,
                    self.title@,
                    self.id@,
                ),
            ) + ">"@,
    {
        let ghost expected = img_attrs(
            self.url@,
            self.alt_text(markdown_source@),
            self.dimensions,
            self.title@,
            self.id@,
        );
        let alt = match self.alt_text_range {
            Some((s, e)) => markdown_source.substring_char(s, e),
            None => {
                proof {
                    reveal_strlit("");
                }
                ""
            },
        };
        let mut attrs: Vec<(String, String)> = Vec::new();
        attrs.push(("src".to_owned(), self.url));
        attrs.push(("alt".to_owned(), alt.to_owned()));
        attrs.push(("decoding".to_owned(), "async".to_owned()));
        attrs.push(("loading".to_owned(), "lazy".to_owned()));
        let ghost alt_v = self.alt_text(markdown_source@);
        assert(alt@ == alt_v);
        assert(crate::html::attrs_view(attrs@) =~= seq![("src"@, self.url@), ("alt"@, alt_v), ("decoding"@, "async"@), ("loading"@, "lazy"@)]);
        if let Some(d) = self.dimensions {
            attrs.push(("width".to_owned(), u32_text(d.width)));
            attrs.push(("height".to_owned(), u32_text(d.height)));
        }
        if self.title.unicode_len() > 0 {
            attrs.push(("title".to_owned(), self.title));
        }
        if self.id.unicode_len() > 0 {
            attrs.push(("id".to_owned(), self.id));
        }
        assert(crate::html::attrs_view(attrs@) =~= expected);
        let tree = HtmlTree::new(NodeKind::html_element("img", attrs));
        proof {
            reveal_strlit("img");
            reveal_strlit("<img");
            reveal_strlit("<");
            assert("<"@ + "img"@ =~= "<img"@);
        }
        tree.to_html()
    }
}

/// A file's identity on its device, which two paths to one file share.
#[derive(Clone, Copy, Debug, PartialEq, Eq, Structural)]
pub struct FileId {
    pub device: u64,
    pub index: u64,
}

/// What was recorded last for `id`, if anything: the size of a converted image,
/// or `None` for an image copied as it stands.
pub open spec fn cached_dimensions(entries: Seq<(FileId, Option<Dimensions>)>, id: FileId) -> Option<
    Option<Dimensions>,
>
    decreases entries.len(),
{
    if entries.len() == 0 {
        None
    } else if entries.last().0 == id {
        Some(entries.last().1)
    } else {
        cached_dimensions(entries.drop_last(), id)
    }
}

/// The images a build has processed, by file identity, with the size of each
/// converted one.
#[derive(Debug)]
pub struct ImageCache {
    pub entries: Vec<(FileId, Option<Dimensions>)>,
}

impl ImageCache {
    /// A cache with no image.
    pub fn new() -> (r: ImageCache)
        ensures
            r.entries@.len() == 0,
    {
        ImageCache { entries: Vec::new() }
    }

    /// What was recorded for the image with identity `id`, when it was processed already.
    pub fn lookup(&self, id: FileId) -> (r: Option<Option<Dimensions>>)
        ensures
            r == cached_dimensions(self.entries@, id),
    {
        let mut i: usize = self.entries.len();
        assert(self.entries@.subrange(0, i as int) =~= self.entries@);
        while i > 0
            invariant
                i <= self.entries@.len(),
                cached_dimensions(self.entries@, id) == cached_dimensions(
                    self.entries@.subrange(0, i as int),
                    id,
                ),
            decreases i,
        {
            assert(self.entries@.subrange(0, i as int).drop_last() =~= self.entries@.subrange(
                0,
                i - 1,
            ));
            if self.entries[i - 1].0 == id {
                return Some(self.entries[i - 1].1);
            }
            i = i - 1;
        }
        None
    }

    /// Records a processed image: its size when converted, `None` when copied.
    pub fn record(&mut self, id: FileId, dimensions: Option<Dimensions>)
        ensures
            final(self).entries@ == old(self).entries@.push((id, dimensions)),
    {
        self.entries.push((id, dimensions));
    }
}

/// An image is processed at most once: once it is recorded, every later lookup of
/// the same file finds what was recorded, whatever other images come after it.
pub proof fn lemma_recorded_image_is_reused(
    entries: Seq<(FileId, Option<Dimensions>)>,
    id: FileId,
    dimensions: Option<Dimensions>,
    later: Seq<(FileId, Option<Dimensions>)>,
)
    requires
        forall|k: int| 0 <= k < later.len() ==> (#[trigger] later[k]).0 != id,
    ensures
        cached_dimensions(entries.push((id, dimensions)) + later, id) == Some(dimensions),
    decreases later.len(),
{
    if later.len() == 0 {
        assert(entries.push((id, dimensions)) + later =~= entries.push((id, dimensions)));
    } else {
        let shorter = later.drop_last();
        lemma_recorded_image_is_reused(entries, id, dimensions, shorter);
        assert((entries.push((id, dimensions)) + later).drop_last() =~= entries.push(
            (id, dimensions),
        ) + shorter);
        assert(later.last() == later[later.len() - 1]);
    }
}

} // verus!
