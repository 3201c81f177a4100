use ssg::fonts::{mime_for_format, top_fonts, FontSource};
use ssg::image::{
    is_passthrough_image, output_image_path, validate_image_src, ActiveImageState, Dimensions,
    FileId, ImageCache, ImageSrcError,
};

#[test]
fn image_sources() {
    assert_eq!(validate_image_src(""), Err(ImageSrcError::Empty));
    assert_eq!(validate_image_src("../x.png"), Err(ImageSrcError::NotNormalizedRelative));
    assert_eq!(validate_image_src("a/../x.png"), Err(ImageSrcError::NotNormalizedRelative));
    assert_eq!(validate_image_src("a/.."), Err(ImageSrcError::NotNormalizedRelative));
    assert_eq!(validate_image_src("/x.png"), Err(ImageSrcError::NotNormalizedRelative));
    assert_eq!(validate_image_src("x.png"), Ok(()));
    assert_eq!(validate_image_src("a/..b/x.png"), Ok(()));
    assert_eq!(validate_image_src("./x.png"), Ok(()));
}

#[test]
fn output_paths() {
    assert_eq!(output_image_path("a/b.png"), "a/b.avif");
    assert_eq!(output_image_path("a.b/c"), "a.b/c.avif");
    assert_eq!(output_image_path(".hidden"), ".hidden.avif");
    assert_eq!(output_image_path("x.tar.gz"), "x.tar.avif");
    assert!(is_passthrough_image("a/b.svg"));
    assert!(is_passthrough_image("b.avif"));
    assert!(!is_passthrough_image("b.png"));
    assert!(!is_passthrough_image("svg"));
}

#[test]
fn image_capture_html() {
    let source = "![alt text](a.png \"T\")";
    let mut s = ActiveImageState::new(
        "a.avif".into(),
        Some(Dimensions { width: 640, height: 480 }),
        "T".into(),
        String::new(),
    );
    assert!(s.is_active());
    s.update_alt_text_range(2, 5);
    s.update_alt_text_range(5, 10);
    s.unnest();
    assert!(!s.is_active());
    assert_eq!(
        s.into_html(source),
        "<img src=\"a.avif\" alt=\"alt text\" decoding=\"async\" loading=\"lazy\" \
width=\"640\" height=\"480\" title=\"T\">"
    );
}

#[test]
fn image_without_alt_text() {
    let mut s = ActiveImageState::new("x.svg".into(), None, String::new(), "i".into());
    s.unnest();
    assert_eq!(
        s.into_html("![](x.svg)"),
        "<img src=\"x.svg\" alt=\"\" decoding=\"async\" loading=\"lazy\" id=\"i\">"
    );
}

#[test]
fn cache_converts_once() {
    let mut c = ImageCache::new();
    let id = FileId { device: 1, index: 7 };
    assert_eq!(c.lookup(id), None);
    c.record(id, Some(Dimensions { width: 3, height: 4 }));
    c.record(FileId { device: 1, index: 8 }, None);
    assert_eq!(c.lookup(id), Some(Some(Dimensions { width: 3, height: 4 })));
    assert_eq!(c.lookup(FileId { device: 1, index: 8 }), Some(None));
    assert_eq!(c.lookup(id), c.lookup(id));
}

#[test]
fn fragment_output_paths() {
    assert_eq!(ssg::config::fragment_output_path("index"), "index.html");
    assert_eq!(ssg::config::fragment_output_path("about"), "about/index.html");
}

#[test]
fn extract_selected_elements() {
    let mut v = vec![1, 2, 3, 4, 5, 6];
    let even = ssg::vec_util::extract_if(&mut v, |x: &i32| x % 2 == 0);
    assert_eq!(even, vec![2, 4, 6]);
    assert_eq!(v, vec![1, 3, 5]);
    let mut empty: Vec<i32> = Vec::new();
    assert!(ssg::vec_util::extract_if(&mut empty, |_: &i32| true).is_empty());
}

#[test]
fn fonts_to_preload() {
    let url = |u: &str, f: Option<&str>| FontSource::Url { url: u.into(), format: f.map(Into::into) };
    let descriptors = vec![
        vec![url("foo.bin", Some("woff2"))],
        vec![FontSource::Local, url("skipped.woff", Some("woff"))],
        vec![url("bar.bin", None), url("other.bin", Some("woff"))],
        vec![],
        vec![url("baz.bin", Some("embedded-opentype"))],
    ];
    let fonts = top_fonts(&descriptors);
    let got: Vec<(&str, Option<&str>)> =
        fonts.iter().map(|f| (f.path.as_str(), f.mime.as_deref())).collect();
    assert_eq!(
        got,
        vec![("foo.bin", Some("font/woff2")), ("bar.bin", None), ("baz.bin", None)]
    );
    assert_eq!(mime_for_format("truetype").as_deref(), Some("font/ttf"));
    assert_eq!(mime_for_format("svg").as_deref(), Some("image/svg+xml"));
}
