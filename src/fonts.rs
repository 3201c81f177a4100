//! The fonts a stylesheet declares: for each `src` descriptor of its `@font-face`
//! rules, the first alternative, when it is a URL, becomes a font that pages preload.

use vstd::prelude::*;
use crate::page::{Font, FontView};
use crate::text::text_eq;

verus! {

/// One alternative of a `src` descriptor.
#[derive(Debug)]
pub enum FontSource {
    /// `url(...)`, with the name of its `format(...)` hint if any (`woff2`,
    /// `woff`, `truetype`, `opentype`, `svg`, ...).
    Url { url: String, format: Option<String> },
    /// `local(...)`.
    Local,
}

/// The MIME type of a font format, for the formats that have one.
pub open spec fn format_mime(format: Seq<char>) -> Option<Seq<char>> {
    if format == "woff2"@ {
        Some("font/woff2"@)
    } else if format == "woff"@ {
        Some("font/woff"@)
    } else if format == "truetype"@ {
        Some("font/ttf"@)
    } else if format == "opentype"@ {
        Some("font/otf"@)
    } else if format == "svg"@ {
        Some("image/svg+xml"@)
    } else {
        None
    }
}

/// The font that a `src` descriptor's alternatives give, if any.
pub open spec fn top_font_of(alternatives: Seq<FontSource>) -> Option<FontView> {
    if alternatives.len() == 0 {
        None
    } else {
        match alternatives[0] {
            FontSource::Url { url, format } => Some(
                FontView {
                    path: url@,
                    mime: match format {
                        Some(f) => format_mime(f@),
                        None => None,
                    },
                },
            ),
            FontSource::Local => None,
        }
    }
}

/// The fonts of a list of `src` descriptors, in order.
pub open spec fn top_fonts_of(descriptors: Seq<Vec<FontSource>>) -> Seq<FontView>
    decreases descriptors.len(),
{
    if descriptors.len() == 0 {
        Seq::empty()
    } else {
        let prev = top_fonts_of(descriptors.drop_last());
        match top_font_of(descriptors.last()@) {
            Some(f) => prev.push(f),
            None => prev,
        }
    }
}

/// The MIME type of a font format.
pub fn mime_for_format(format: &str) -> (r: Option<String>)
    ensures
        match format_mime(format@) {
            Some(m) => r matches Some(x) && x@ == m,
            None => r is None,
        },
{
    if text_eq(format, "woff2") {
        Some("font/woff2".to_owned())
    } else if text_eq(format, "woff") {
        Some("font/woff".to_owned())
    } else if text_eq(format, "truetype") {
        Some("font/ttf".to_owned())
    } else if text_eq(format, "opentype") {
        Some("font/otf".to_owned())
    } else if text_eq(format, "svg") {
        Some("image/svg+xml".to_owned())
    } else {
        None
    }
}

/// The fonts to preload: the first alternative of each `src` descriptor, when it
/// is a URL, with the MIME type of its format hint.
pub fn top_fonts(descriptors: &Vec<Vec<FontSource>>) -> (r: Vec<Font>)
    ensures
        Seq::new(r@.len(), |i: int| r@[i]@) == top_fonts_of(descriptors@),
{
    let mut fonts: Vec<Font> = Vec::new();
    let mut i: usize = 0;
    while i < descriptors.len()
        invariant
            i <= descriptors@.len(),
            Seq::new(fonts@.len(), |k: int| fonts@[k]@) == top_fonts_of(descriptors@.subrange(0, i as int)),
        decreases descriptors@.len() - i,
    {
        let ghost before = Seq::new(fonts@.len(), |k: int| fonts@[k]@);
        assert(descriptors@.subrange(0, i + 1).drop_last() =~= descriptors@.subrange(0, i as int));
        let alternatives = &descriptors[i];
        if alternatives.len() > 0 {
            if let FontSource::Url { url, format } = &alternatives[0] {
                let mime = match format {
                    Some(f) => mime_for_format(f.as_str()),
                    None => None,
                };
                let font = Font { path: url.clone(), mime };
                let ghost fv = font@;
                fonts.push(font);
                assert(Seq::new(fonts@.len(), |k: int| fonts@[k]@) =~= before.push(fv));
            }
        }
        i = i + 1;
    }
    assert(descriptors@.subrange(0, i as int) =~= descriptors@);
    fonts
}

} // verus!
