use ssg::footnotes::FootnoteError;
use ssg::image::{Dimensions, FileId, ImageCache, ImageSrcError};
use ssg::transform::{Action, ImageWork, MdEvent, RenderMode, TransformError, Transformer};

fn s(x: &str) -> String {
    x.to_string()
}

#[test]
fn nested_alt_text_is_the_covered_span() {
    let src = "![alt *em* text](a.png)";
    let mut t = Transformer::new(src);
    let start = MdEvent::ImageStart { url: s("a.png"), title: String::new(), id: String::new() };
    let mut cache = ImageCache::new();
    let file = FileId { device: 0, index: 1 };
    assert_eq!(t.step(&start, 0, 23), Ok(Action::LocateImage { src: s("a.png") }));
    assert_eq!(t.locate_image(&cache, file), Some(ImageWork::Convert { src: s("a.png") }));
    t.open_image(&mut cache, Some(Dimensions { width: 1, height: 2 }));
    assert_eq!(t.step(&MdEvent::Text(s("alt ")), 2, 6), Ok(Action::Skip));
    assert_eq!(t.step(&MdEvent::Other, 6, 10), Ok(Action::Skip));
    assert_eq!(t.step(&MdEvent::Text(s("em")), 7, 9), Ok(Action::Skip));
    assert_eq!(t.step(&MdEvent::Other, 6, 10), Ok(Action::Skip));
    assert_eq!(t.step(&MdEvent::Text(s(" text")), 10, 15), Ok(Action::Skip));
    assert_eq!(
        t.step(&MdEvent::ImageEnd, 0, 23),
        Ok(Action::Html(s(
            "<img src=\"a.avif\" alt=\"alt *em* text\" decoding=\"async\" loading=\"lazy\" width=\"1\" height=\"2\">"
        )))
    );
    assert_eq!(t.finish(), Ok(false));
}

#[test]
fn parent_image_source_is_refused() {
    let mut t = Transformer::new("![x](../x.png)");
    let start = MdEvent::ImageStart { url: s("../x.png"), title: String::new(), id: String::new() };
    assert_eq!(
        t.step(&start, 0, 14),
        Err(TransformError::InvalidImageSource(ImageSrcError::NotNormalizedRelative))
    );
}

#[test]
fn vector_image_is_copied() {
    let mut t = Transformer::new("![](a.svg)");
    let start = MdEvent::ImageStart { url: s("a.svg"), title: String::new(), id: String::new() };
    let mut cache = ImageCache::new();
    assert_eq!(t.step(&start, 0, 10), Ok(Action::LocateImage { src: s("a.svg") }));
    assert_eq!(
        t.locate_image(&cache, FileId { device: 0, index: 9 }),
        Some(ImageWork::Copy { src: s("a.svg") })
    );
    t.open_image(&mut cache, None);
    assert_eq!(cache.lookup(FileId { device: 0, index: 9 }), Some(None));
    assert_eq!(
        t.step(&MdEvent::ImageEnd, 0, 10),
        Ok(Action::Html(s("<img src=\"a.svg\" alt=\"\" decoding=\"async\" loading=\"lazy\">")))
    );
}

#[test]
fn code_blocks_and_math() {
    let mut t = Transformer::new("x");
    assert_eq!(t.step(&MdEvent::Text(s("plain")), 0, 1), Ok(Action::Keep));
    assert_eq!(
        t.step(&MdEvent::CodeBlockStart { language: Some(s("rust")) }, 0, 1),
        Ok(Action::Keep)
    );
    assert_eq!(
        t.step(&MdEvent::Text(s("let x;")), 0, 1),
        Ok(Action::HighlightBlock { text: s("let x;"), language: Some(s("rust")) })
    );
    assert_eq!(t.step(&MdEvent::CodeBlockEnd, 0, 1), Ok(Action::Keep));
    assert_eq!(
        t.step(&MdEvent::CodeBlockStart { language: Some(String::new()) }, 0, 1),
        Ok(Action::Keep)
    );
    assert_eq!(
        t.step(&MdEvent::Text(s("a")), 0, 1),
        Ok(Action::HighlightBlock { text: s("a"), language: None })
    );
    assert_eq!(t.step(&MdEvent::CodeBlockEnd, 0, 1), Ok(Action::Keep));
    assert_eq!(
        t.step(&MdEvent::Code(s("c")), 0, 1),
        Ok(Action::HighlightSegment { text: s("c") })
    );
    assert_eq!(t.finish(), Ok(false));
    assert_eq!(
        t.step(&MdEvent::DisplayMath(s("x^2")), 0, 1),
        Ok(Action::RenderMath { latex: s("x^2"), mode: RenderMode::Display })
    );
    assert_eq!(t.finish(), Ok(true));
}

#[test]
fn footnotes_must_match() {
    let mut t = Transformer::new("x");
    t.step(&MdEvent::FootnoteReference(s("a")), 0, 1).unwrap();
    t.step(&MdEvent::FootnoteReference(s("a")), 0, 1).unwrap();
    t.step(&MdEvent::FootnoteDefinitionStart(s("a")), 0, 1).unwrap();
    assert_eq!(t.finish(), Ok(false));
    assert_eq!(
        t.step(&MdEvent::FootnoteDefinitionStart(s("a")), 0, 1),
        Err(TransformError::Footnote(FootnoteError::DuplicateDefinition(s("a"))))
    );
    t.step(&MdEvent::FootnoteReference(s("b")), 0, 1).unwrap();
    assert_eq!(
        t.finish(),
        Err(TransformError::Footnote(FootnoteError::ReferenceWithoutDefinition(s("b"))))
    );
    let mut u = Transformer::new("x");
    u.step(&MdEvent::FootnoteDefinitionStart(s("c")), 0, 1).unwrap();
    assert_eq!(
        u.finish(),
        Err(TransformError::Footnote(FootnoteError::DefinitionWithoutReference(s("c"))))
    );
}

#[test]
fn duplicate_slugs_are_refused() {
    let mut r = ssg::names::NameRegistry::new();
    assert!(r.claim("post").is_ok());
    assert!(r.claim("other").is_ok());
    assert_eq!(r.claim("post"), Err(ssg::names::DuplicateName(s("post"))));
}

#[test]
fn same_image_twice_is_converted_once() {
    let src = "![a](x.png) ![b](./x.png)";
    let mut t = Transformer::new(src);
    let mut cache = ImageCache::new();
    let file = FileId { device: 0, index: 4 };
    let d = Dimensions { width: 30, height: 20 };
    let first = MdEvent::ImageStart { url: s("x.png"), title: String::new(), id: String::new() };
    assert_eq!(t.step(&first, 0, 11), Ok(Action::LocateImage { src: s("x.png") }));
    assert_eq!(t.locate_image(&cache, file), Some(ImageWork::Convert { src: s("x.png") }));
    t.open_image(&mut cache, Some(d));
    t.step(&MdEvent::Text(s("a")), 2, 3).unwrap();
    let Ok(Action::Html(one)) = t.step(&MdEvent::ImageEnd, 0, 11) else { panic!("image expected") };
    let second = MdEvent::ImageStart { url: s("./x.png"), title: String::new(), id: String::new() };
    assert_eq!(t.step(&second, 12, 25), Ok(Action::LocateImage { src: s("./x.png") }));
    assert_eq!(t.locate_image(&cache, file), None);
    t.step(&MdEvent::Text(s("b")), 14, 15).unwrap();
    let Ok(Action::Html(two)) = t.step(&MdEvent::ImageEnd, 12, 25) else { panic!("image expected") };
    assert!(one.contains("width=\"30\" height=\"20\""));
    assert!(two.contains("width=\"30\" height=\"20\""));
    assert_eq!(cache.entries.len(), 1);
}
