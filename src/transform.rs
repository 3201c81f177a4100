//! The Markdown transformer: a single left-to-right pass over the parser's events
//! that decides, event by event, what goes into the article body.
//!
//! The caller feeds each event with its span of source text (in characters) and
//! carries out the returned action: keep the event, drop it, replace it with HTML,
//! have code highlighted or math rendered, or look up an image's file identity.
//! With that identity, [`Transformer::locate_image`] reuses what the build
//! recorded for the file or asks for it to be copied or converted once; the caller
//! then reports the result through [`Transformer::open_image`].

use vstd::prelude::*;
use crate::footnotes::{FootnoteError, FootnoteTracker, has_id};
use crate::html::attrs_html;
use crate::image::{
    ActiveImageState, Dimensions, FileId, ImageCache, cached_dimensions, ImageSrcError, image_src_check, img_attrs, is_passthrough,
    is_passthrough_image, output_image_path, output_path_of, validate_image_src, widened,
};

verus! {

/// How math is laid out: within the text, or as a block of its own.
#[derive(Clone, Copy, Debug, PartialEq, Eq, Structural)]
pub enum RenderMode {
    Inline,
    Display,
}

/// A parser event, reduced to what the transformer reads.
#[derive(Debug)]
pub enum MdEvent {
    ImageStart { url: String, title: String, id: String },
    ImageEnd,
    /// A code block starts; `language` is the fenced block's token, `None` when indented.
    CodeBlockStart { language: Option<String> },
    CodeBlockEnd,
    Text(String),
    Code(String),
    FootnoteReference(String),
    FootnoteDefinitionStart(String),
    InlineMath(String),
    DisplayMath(String),
    /// Any other event.
    Other,
}

/// What the caller does with an event.
#[derive(Debug, PartialEq, Eq)]
pub enum Action {
    /// The event goes to the output unchanged.
    Keep,
    /// The event is part of an image's alt text and is dropped.
    Skip,
    /// The event is replaced by this inline HTML.
    Html(String),
    /// The text of a code block, to be highlighted in the given language (plain
    /// text when `None`).
    HighlightBlock { text: String, language: Option<String> },
    /// An inline code span, to be highlighted as plain text.
    HighlightSegment { text: String },
    /// Math, to be rendered in the given mode.
    RenderMath { latex: String, mode: RenderMode },
    /// An image whose file identity the caller looks up; then `locate_image`.
    LocateImage { src: String },
}

/// The file work an image needs before its capture opens.
#[derive(Debug, PartialEq, Eq)]
pub enum ImageWork {
    /// Copy the image as it stands; then `open_image(cache, None)`.
    Copy { src: String },
    /// Convert the image; then `open_image(cache, Some(dimensions))`.
    Convert { src: String },
}

/// Why an article cannot be transformed.
#[derive(Clone, Debug, PartialEq, Eq)]
pub enum TransformError {
    InvalidImageSource(ImageSrcError),
    Footnote(FootnoteError),
}

/// An image whose start was met, waiting for the caller to resolve it.
#[derive(Debug)]
pub struct PendingImage {
    pub url: String,
    pub title: String,
    pub id: String,
    /// The image is served as it stands rather than converted.
    pub passthrough: bool,
    /// The file identity, once the caller has given it.
    pub file: Option<FileId>,
}

/// The source under which a pending image is linked: as it stands when it is
/// served as it stands, else with the output extension.
pub open spec fn linked_url(p: PendingImage) -> Seq<char> {
    if p.passthrough {
        p.url@
    } else {
        output_path_of(p.url@)
    }
}

/// `img` is the fresh capture of the pending image `p` with the given size.
pub open spec fn opened_from(img: ActiveImageState, p: PendingImage, dimensions: Option<Dimensions>) -> bool {
    &&& img.nesting_level == 1
    &&& img.alt_text_range is None
    &&& img.dimensions == dimensions
    &&& img.url@ == linked_url(p)
    &&& img.title@ == p.title@
    &&& img.id@ == p.id@
}

/// The state of the pass over one article.
#[derive(Debug)]
pub struct Transformer {
    /// The article's source text.
    pub source: String,
    /// The image whose alt text is being captured, if any.
    pub image: Option<ActiveImageState>,
    /// The image waiting for `open_image`, if any.
    pub pending: Option<PendingImage>,
    /// Inside a code block: its language, if it has one.
    pub code_block: Option<Option<String>>,
    pub footnotes: FootnoteTracker,
    pub contains_math: bool,
}

/// A code block's language token, with an empty token read as none.
pub open spec fn language_of(language: Option<String>) -> Option<Seq<char>> {
    match language {
        Some(l) => if l@.len() > 0 {
            Some(l@)
        } else {
            None
        },
        None => None,
    }
}

/// The language a code-block state records, as characters.
pub open spec fn recorded_language(code_block: Option<Option<String>>) -> Option<Seq<char>> {
    match code_block {
        Some(Some(l)) => Some(l@),
        _ => None,
    }
}

/// The nesting level of a capture after `event`.
pub open spec fn level_after(level: usize, event: MdEvent) -> int {
    match event {
        MdEvent::ImageStart { .. } => if level < usize::MAX {
            level + 1
        } else {
            level as int
        },
        MdEvent::ImageEnd => level - 1,
        _ => level as int,
    }
}

/// A step taken while the alt text of `img` is captured: the event is dropped and
/// its span joins the alt text, unless it ends the image, which is then replaced
/// by its `<img>` element. Nothing else changes.
pub open spec fn captured_step(
    img: ActiveImageState,
    o: Transformer,
    f: Transformer,
    event: MdEvent,
    start: usize,
    end: usize,
    r: Result<Action, TransformError>,
) -> bool {
    let level = level_after(img.nesting_level, event);
    &&& f.code_block == o.code_block
    &&& f.footnotes == o.footnotes
    &&& f.contains_math == o.contains_math
    &&& f.pending is None
    &&& level >= 1 ==> {
        &&& r == Ok::<Action, TransformError>(Action::Skip)
        &&& f.image matches Some(next)
        &&& next.nesting_level == level
        &&& next.alt_text_range == widened(img.alt_text_range, start, end)
        &&& next.url == img.url
        &&& next.dimensions == img.dimensions
        &&& next.title == img.title
        &&& next.id == img.id
    }
    &&& level < 1 ==> {
        &&& f.image is None
        &&& r matches Ok(Action::Html(h))
        &&& h@ == "<img"@ + attrs_html(
            img_attrs(img.url@, img.alt_text(o.source@), img.dimensions, img.title@, img.id@),
        ) + ">"@
    }
}

/// The footnotes are unchanged but for one more reference to `x`.
pub open spec fn referenced(o: FootnoteTracker, f: FootnoteTracker, x: Seq<char>) -> bool {
    &&& f.definitions@ == o.definitions@
    &&& f.references@.len() == o.references@.len() + 1
    &&& f.references@.drop_last() == o.references@
    &&& f.references@.last()@ == x
}

/// The footnotes are unchanged but for one more definition of `x`.
pub open spec fn defined(o: FootnoteTracker, f: FootnoteTracker, x: Seq<char>) -> bool {
    &&& f.references@ == o.references@
    &&& f.definitions@.len() == o.definitions@.len() + 1
    &&& f.definitions@.drop_last() == o.definitions@
    &&& f.definitions@.last()@ == x
}

/// A step taken outside any image capture.
pub open spec fn plain_step(
    o: Transformer,
    f: Transformer,
    event: MdEvent,
    r: Result<Action, TransformError>,
) -> bool {
    match event {
        MdEvent::ImageStart { url, title, id } => {
            &&& f.code_block == o.code_block
            &&& f.footnotes == o.footnotes
            &&& f.contains_math == o.contains_math
            &&& match image_src_check(url@) {
                Err(e) => r == Err::<Action, TransformError>(TransformError::InvalidImageSource(e))
                    && f.pending is None,
                Ok(_) => {
                    &&& f.pending matches Some(p)
                    &&& p.url@ == url@
                    &&& p.title@ == title@
                    &&& p.id@ == id@
                    &&& p.passthrough == is_passthrough(url@)
                    &&& p.file is None
                    &&& r matches Ok(Action::LocateImage { src })
                    &&& src@ == url@
                },
            }
        },
        MdEvent::FootnoteDefinitionStart(id) => {
            &&& f.code_block == o.code_block
            &&& f.contains_math == o.contains_math
            &&& f.pending is None
            &&& if has_id(o.footnotes.definitions@, id@) {
                &&& f.footnotes.references@ == o.footnotes.references@
                &&& f.footnotes.definitions@ == o.footnotes.definitions@
                &&& r matches Err(TransformError::Footnote(FootnoteError::DuplicateDefinition(x)))
                &&& x@ == id@
            } else {
                r == Ok::<Action, TransformError>(Action::Keep) && defined(
                    o.footnotes,
                    f.footnotes,
                    id@,
                )
            }
        },
        MdEvent::FootnoteReference(id) => {
            &&& f.code_block == o.code_block
            &&& f.contains_math == o.contains_math
            &&& f.pending is None
            &&& r == Ok::<Action, TransformError>(Action::Keep)
            &&& referenced(o.footnotes, f.footnotes, id@)
        },
        MdEvent::CodeBlockStart { language } => {
            &&& f.footnotes == o.footnotes
            &&& f.contains_math == o.contains_math
            &&& f.pending is None
            &&& r == Ok::<Action, TransformError>(Action::Keep)
            &&& f.code_block is Some
            &&& recorded_language(f.code_block) == language_of(language)
        },
        MdEvent::CodeBlockEnd => {
            &&& f.footnotes == o.footnotes
            &&& f.contains_math == o.contains_math
            &&& f.pending is None
            &&& r == Ok::<Action, TransformError>(Action::Keep)
            &&& f.code_block is None
        },
        MdEvent::Text(t) => {
            &&& f.footnotes == o.footnotes
            &&& f.contains_math == o.contains_math
            &&& f.pending is None
            &&& f.code_block == o.code_block
            &&& if o.code_block is Some {
                &&& r matches Ok(Action::HighlightBlock { text, language })
                &&& text@ == t@
                &&& (match language {
                    Some(l) => Some(l@),
                    None => None,
                }) == recorded_language(o.code_block)
            } else {
                r == Ok::<Action, TransformError>(Action::Keep)
            }
        },
        MdEvent::Code(t) => {
            &&& f.footnotes == o.footnotes
            &&& f.contains_math == o.contains_math
            &&& f.pending is None
            &&& f.code_block == o.code_block
            &&& r matches Ok(Action::HighlightSegment { text })
            &&& text@ == t@
        },
        MdEvent::InlineMath(t) => {
            &&& f.footnotes == o.footnotes
            &&& f.contains_math
            &&& f.pending is None
            &&& f.code_block == o.code_block
            &&& r matches Ok(Action::RenderMath { latex, mode })
            &&& latex@ == t@
            &&& mode == RenderMode::Inline
        },
        MdEvent::DisplayMath(t) => {
            &&& f.footnotes == o.footnotes
            &&& f.contains_math
            &&& f.pending is None
            &&& f.code_block == o.code_block
            &&& r matches Ok(Action::RenderMath { latex, mode })
            &&& latex@ == t@
            &&& mode == RenderMode::Display
        },
        _ => {
            &&& f.footnotes == o.footnotes
            &&& f.contains_math == o.contains_math
            &&& f.pending is None
            &&& f.code_block == o.code_block
            &&& r == Ok::<Action, TransformError>(Action::Keep)
        },
    }
}

/// An image whose source is refused never leads to file work: whether or not the
/// alt text of another image is being captured, the step neither asks for the
/// image's file nor leaves it pending.
pub proof fn lemma_invalid_source_does_no_file_work(
    o: Transformer,
    f: Transformer,
    event: MdEvent,
    start: usize,
    end: usize,
    r: Result<Action, TransformError>,
)
    requires
        o.wf(),
        o.pending is None,
        event matches MdEvent::ImageStart { url, .. } && image_src_check(url@) is Err,
        o.image matches Some(img) ==> captured_step(img, o, f, event, start, end, r),
        o.image is None ==> plain_step(o, f, event, r),
    ensures
        !(r matches Ok(Action::LocateImage { .. })),
        f.pending is None,
{
}

impl Transformer {
    /// The captured image's span lies within the source and it has not ended.
    pub open spec fn wf(&self) -> bool {
        &&& self.image matches Some(img) ==> img.fits(self.source@) && img.nesting_level >= 1
        &&& self.code_block matches Some(Some(l)) ==> l@.len() > 0
        &&& !(self.image is Some && self.pending is Some)
    }

    /// The state at the start of an article.
    pub fn new(source: &str) -> (r: Transformer)
        ensures
            r.wf(),
            r.source@ == source@,
            r.image is None,
            r.pending is None,
            r.code_block is None,
            r.footnotes.references@.len() == 0,
            r.footnotes.definitions@.len() == 0,
            !r.contains_math,
    {
        Transformer {
            source: source.to_owned(),
            image: None,
            pending: None,
            code_block: None,
            footnotes: FootnoteTracker::new(),
            contains_math: false,
        }
    }

    /// Takes the next event, which covers `start..end` of the source.
    pub fn step(&mut self, event: &MdEvent, start: usize, end: usize) -> (r: Result<
        Action,
        TransformError,
    >)
        requires
            old(self).wf(),
            old(self).pending is None,
            start <= end <= old(self).source@.len(),
        ensures
            final(self).wf(),
            final(self).source == old(self).source,
            old(self).image matches Some(img) ==> captured_step(
                img,
                *old(self),
                *final(self),
                *event,
                start,
                end,
                r,
            ),
            old(self).image is None ==> final(self).image is None,
            old(self).image is None ==> plain_step(*old(self), *final(self), *event, r),
    {
        if self.image.is_some() {
            let mut img = self.image.take().unwrap();
            match event {
                MdEvent::ImageStart { .. } => {
                    if img.nesting_level < usize::MAX {
                        img.nest();
                    }
                },
                MdEvent::ImageEnd => img.unnest(),
                _ => {},
            }
            if img.is_active() {
                img.update_alt_text_range(start, end);
                self.image = Some(img);
                return Ok(Action::Skip);
            } else {
                return Ok(Action::Html(img.into_html(self.source.as_str())));
            }
        }
        let res = match event {
            MdEvent::ImageStart { url, title, id } => {
                match validate_image_src(url.as_str()) {
                    Err(e) => Err(TransformError::InvalidImageSource(e)),
                    Ok(()) => {
                        self.pending = Some(
                            PendingImage {
                                url: url.clone(),
                                title: title.clone(),
                                id: id.clone(),
                                passthrough: is_passthrough_image(url.as_str()),
                                file: None,
                            },
                        );
                        Ok(Action::LocateImage { src: url.clone() })
                    },
                }
            },
            MdEvent::CodeBlockStart { language } => {
                self.code_block = Some(
                    match language {
                        Some(l) => if l.unicode_len() > 0 {
                            Some(l.clone())
                        } else {
                            None
                        },
                        None => None,
                    },
                );
                Ok(Action::Keep)
            },
            MdEvent::CodeBlockEnd => {
                self.code_block = None;
                Ok(Action::Keep)
            },
            MdEvent::Text(t) => match &self.code_block {
                Some(language) => Ok(
                    Action::HighlightBlock {
                        text: t.clone(),
                        language: match language {
                            Some(l) => Some(l.clone()),
                            None => None,
                        },
                    },
                ),
                None => Ok(Action::Keep),
            },
            MdEvent::Code(t) => Ok(Action::HighlightSegment { text: t.clone() }),
            MdEvent::FootnoteReference(id) => {
                self.footnotes.add_reference(id.as_str());
                Ok(Action::Keep)
            },
            MdEvent::FootnoteDefinitionStart(id) => match self.footnotes.add_definition(id.as_str()) {
                Ok(()) => Ok(Action::Keep),
                Err(e) => Err(TransformError::Footnote(e)),
            },
            MdEvent::InlineMath(t) => {
                self.contains_math = true;
                Ok(Action::RenderMath { latex: t.clone(), mode: RenderMode::Inline })
            },
            MdEvent::DisplayMath(t) => {
                self.contains_math = true;
                Ok(Action::RenderMath { latex: t.clone(), mode: RenderMode::Display })
            },
            MdEvent::ImageEnd | MdEvent::Other => Ok(Action::Keep),
        };
        res
    }

    /// Takes the file identity of the pending image. When the build has processed
    /// that file before, the capture opens at once with what was recorded and no
    /// file work is asked for; otherwise the image is to be copied or converted.
    pub fn locate_image(&mut self, cache: &ImageCache, file: FileId) -> (r: Option<ImageWork>)
        requires
            old(self).wf(),
            old(self).pending matches Some(p) && p.file is None,
        ensures
            final(self).wf(),
            final(self).source == old(self).source,
            final(self).code_block == old(self).code_block,
            final(self).footnotes == old(self).footnotes,
            final(self).contains_math == old(self).contains_math,
            match cached_dimensions(cache.entries@, file) {
                Some(d) => {
                    &&& r is None
                    &&& final(self).pending is None
                    &&& final(self).image matches Some(img)
                    &&& opened_from(img, old(self).pending->Some_0, d)
                },
                None => {
                    let p = old(self).pending->Some_0;
                    &&& final(self).image is None
                    &&& final(self).pending matches Some(q)
                    &&& q.url == p.url && q.title == p.title && q.id == p.id
                    &&& q.passthrough == p.passthrough
                    &&& q.file == Some(file)
                    &&& if p.passthrough {
                        r matches Some(ImageWork::Copy { src }) && src@ == p.url@
                    } else {
                        r matches Some(ImageWork::Convert { src }) && src@ == p.url@
                    }
                },
            },
    {
        let p = self.pending.take().unwrap();
        match cache.lookup(file) {
            Some(d) => {
                self.open_pending(p, d);
                None
            },
            None => {
                let src = p.url.clone();
                let copy = p.passthrough;
                self.pending = Some(
                    PendingImage {
                        url: p.url,
                        title: p.title,
                        id: p.id,
                        passthrough: p.passthrough,
                        file: Some(file),
                    },
                );
                if copy {
                    Some(ImageWork::Copy { src })
                } else {
                    Some(ImageWork::Convert { src })
                }
            },
        }
    }

    /// Opens the capture of `p` with the given size.
    fn open_pending(&mut self, p: PendingImage, dimensions: Option<Dimensions>)
        requires
            old(self).wf(),
            old(self).pending is None,
        ensures
            final(self).wf(),
            final(self).pending is None,
            final(self).source == old(self).source,
            final(self).code_block == old(self).code_block,
            final(self).footnotes == old(self).footnotes,
            final(self).contains_math == old(self).contains_math,
            final(self).image matches Some(img) && opened_from(img, p, dimensions),
    {
        let url = if p.passthrough {
            p.url
        } else {
            output_image_path(p.url.as_str())
        };
        self.image = Some(ActiveImageState::new(url, dimensions, p.title, p.id));
    }

    /// Records the file work done for the pending image in `cache` (its size when
    /// converted, `None` when copied) and opens its capture.
    pub fn open_image(&mut self, cache: &mut ImageCache, dimensions: Option<Dimensions>)
        requires
            old(self).wf(),
            old(self).pending matches Some(p) && p.file is Some,
        ensures
            final(self).wf(),
            final(self).pending is None,
            final(self).source == old(self).source,
            final(self).code_block == old(self).code_block,
            final(self).footnotes == old(self).footnotes,
            final(self).contains_math == old(self).contains_math,
            final(cache).entries@ == old(cache).entries@.push(
                (old(self).pending->Some_0.file->Some_0, dimensions),
            ),
            final(self).image matches Some(img) && opened_from(
                img,
                old(self).pending->Some_0,
                dimensions,
            ),
    {
        let p = self.pending.take().unwrap();
        let file = p.file.unwrap();
        cache.record(file, dimensions);
        self.open_pending(p, dimensions);
    }

    /// Ends the pass: checks that footnote references and definitions name the same
    /// identifiers, and tells whether the article holds math.
    pub fn finish(&self) -> (r: Result<bool, TransformError>)
        ensures
            r is Ok <==> crate::footnotes::id_set(self.footnotes.references@)
                == crate::footnotes::id_set(self.footnotes.definitions@),
            r matches Ok(m) ==> m == self.contains_math,
            r matches Err(e) ==> (e matches TransformError::Footnote(f) && self.footnotes.mismatch_reported(f)),
    {
        match self.footnotes.finish() {
            Ok(()) => Ok(self.contains_math),
            Err(e) => Err(TransformError::Footnote(e)),
        }
    }
}

} // verus!
