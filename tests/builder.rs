use ssg::date::Date;
use ssg::html::{HtmlTree, NodeKind};
use ssg::page::{contains_math, Font, PageBuilder, PageError, PageKind};

fn parse_html(html: &str) -> HtmlTree {
    HtmlTree::parse_fragment(html).unwrap()
}

fn html_contains_math(html: &str, kind: PageKind, expected: bool) {
    assert_eq!(contains_math(&parse_html(html), kind), expected);
}

fn default_date() -> Date {
    Date { year: 1970, month: 1, day: 1 }
}

#[test]
fn contains_math_markup() {
    html_contains_math(r#"<div class="katex"></div>"#, PageKind::Fragment, false);
    html_contains_math(r#"<span class="k"></span>"#, PageKind::Fragment, false);
    html_contains_math(r#"<span class="katex"></span>"#, PageKind::Fragment, true);
    html_contains_math("<math></math>", PageKind::Fragment, true);
    html_contains_math(
        "<math></math>",
        PageKind::Article { contains_math: false, created: default_date(), updated: None },
        false,
    );
    html_contains_math(
        "<div></div>",
        PageKind::Article { contains_math: true, created: default_date(), updated: None },
        true,
    );
}

fn serialized(name: &str, attrs: &[(&str, &str)]) -> String {
    let attrs = attrs.iter().map(|(k, v)| (k.to_string(), v.to_string())).collect();
    HtmlTree::new(NodeKind::html_element(name, attrs)).to_html()
}

#[test]
fn create_element() {
    assert_eq!(serialized("p", &[]), "<p></p>");
    assert_eq!(serialized("img", &[]), "<img>");
}

#[test]
fn create_element_with_attrs() {
    assert_eq!(serialized("p", &[("id", "abc")]), "<p id=\"abc\"></p>");
    assert_eq!(
        serialized("p", &[("id", "abc"), ("class", "def")]),
        "<p id=\"abc\" class=\"def\"></p>"
    );
    assert_eq!(serialized("img", &[("id", "abc")]), "<img id=\"abc\">");
    assert_eq!(
        serialized("img", &[("id", "abc"), ("class", "def")]),
        "<img id=\"abc\" class=\"def\">"
    );
}

#[test]
fn create_element_with_empty_attrs() {
    assert_eq!(serialized("p", &[("", "")]), "<p =\"\"></p>");
    assert_eq!(serialized("p", &[("", "abc")]), "<p =\"abc\"></p>");
    assert_eq!(serialized("p", &[("id", "")]), "<p id=\"\"></p>");
}

#[test]
fn escaping_in_text_and_attributes() {
    let mut t = HtmlTree::new(NodeKind::html_element("p", vec![("title".into(), "a\"b&c".into())]));
    t.append(0, NodeKind::text("1 < 2 & 3 > 2"));
    assert_eq!(t.to_html(), "<p title=\"a&quot;b&amp;c\">1 &lt; 2 &amp; 3 &gt; 2</p>");
    let mut s = HtmlTree::new(NodeKind::html_element("script", vec![]));
    s.append(0, NodeKind::text("a < b"));
    assert_eq!(s.to_html(), "<script>a < b</script>");
}

#[test]
fn template_without_slot_is_refused() {
    let r = PageBuilder::new("me", &vec![], "<header></header><footer></footer>");
    assert!(matches!(r, Err(PageError::MissingSlot)));
}

#[test]
fn template_that_does_not_parse_is_refused() {
    let r = PageBuilder::new("me", &vec![], "<main></div>");
    assert!(matches!(r, Err(PageError::InvalidHtml(_))));
}

#[test]
fn last_slot_marker_wins() {
    let b = PageBuilder::new("me", &vec![], "<main id=\"first\"></main><main id=\"second\"></main>")
        .unwrap();
    let page = b.build_page("T", "<p>hello</p>", PageKind::Fragment).unwrap();
    assert!(page.contains("<main id=\"first\"></main><main id=\"second\"><p>hello</p></main>"));
}

#[test]
fn page_skeleton_and_fonts() {
    let fonts = vec![
        Font { path: "/fonts/a.woff2".into(), mime: Some("font/woff2".into()) },
        Font { path: "/fonts/b.bin".into(), mime: None },
    ];
    let b = PageBuilder::new("Ann", &fonts, "<main></main>").unwrap();
    let page = b.build_page("Home", "<p>x</p>", PageKind::Fragment).unwrap();
    assert_eq!(
        page,
        "<!DOCTYPE html><html lang=\"en\"><head><meta charset=\"utf-8\">\
<meta name=\"viewport\" content=\"width=device-width, initial-scale=1\">\
<meta name=\"author\" content=\"Ann\"><link rel=\"stylesheet\" href=\"/stylesheets/site.css\">\
<link rel=\"preload\" href=\"/fonts/a.woff2\" as=\"font\" crossorigin=\"anonymous\" type=\"font/woff2\">\
<link rel=\"preload\" href=\"/fonts/b.bin\" as=\"font\" crossorigin=\"anonymous\">\
<title>Home</title></head><body><main><p>x</p></main></body></html>"
    );
}

#[test]
fn article_page_has_heading_and_math_stylesheet() {
    let b = PageBuilder::new("Ann", &vec![], "<main></main>").unwrap();
    let kind = PageKind::Article {
        contains_math: true,
        created: Date { year: 2000, month: 1, day: 1 },
        updated: Some(Date { year: 2001, month: 2, day: 3 }),
    };
    let page = b.build_page("Post", "<p>body</p>", kind).unwrap();
    assert!(page.contains("<link rel=\"stylesheet\" href=\"/stylesheets/katex.css\"><title>Post</title>"));
    assert!(page.contains(
        "<main><article><hgroup class=\"__article-heading\"><h1>Post</h1><p>\
<time datetime=\"2000-01-01\">2000-01-01</time> (last updated \
<time datetime=\"2001-02-03\">2001-02-03</time>)</p></hgroup><p>body</p></article></main>"
    ));
}

#[test]
fn body_that_does_not_parse_is_refused() {
    let b = PageBuilder::new("Ann", &vec![], "<main></main>").unwrap();
    assert!(matches!(
        b.build_page("T", "<p></div>", PageKind::Fragment),
        Err(PageError::InvalidHtml(_))
    ));
}

#[test]
fn template_indices_survive_page_builds() {
    let b = PageBuilder::new("Ann", &vec![], "<main></main>").unwrap();
    let before = b.html.len();
    let mut copy = b.html.duplicate();
    copy.append(b.slot_id, NodeKind::text("changed"));
    assert_eq!(b.html.len(), before);
    assert!(matches!(&b.html.nodes[b.slot_id].kind, NodeKind::Element { name, .. } if name == "main"));
    assert!(matches!(&b.html.nodes[b.head_id].kind, NodeKind::Element { name, .. } if name == "head"));
    let first = b.build_page("A", "<p>1</p>", PageKind::Fragment).unwrap();
    let second = b.build_page("A", "<p>1</p>", PageKind::Fragment).unwrap();
    assert_eq!(first, second);
}

#[test]
fn serializer_agrees_with_scraper() {
    let samples = [
        "<p class=\"a b\" title='x\"y'>x &amp; y<br>z\u{a0}</p>",
        "<!--note--><div><span class=\"katex\">1 &lt; 2</span></div>",
        "<script>if (a < b) { c(); }</script><style>p > a { }</style>",
        "<ul><li>one<li>two</ul><img src=\"a.png\" alt=\"\">",
        "<math><mi>x</mi></math><svg><circle r=\"1\"/></svg>",
        "<svg xmlns:xlink=\"http://www.w3.org/1999/xlink\"><use xlink:href=\"#a\"></use></svg>",
        "<svg xml:lang=\"en\"><text>x</text></svg>",
        "plain text",
        "",
    ];
    for s in samples {
        let ours = HtmlTree::parse_fragment(s).map(|t| t.to_html());
        let theirs = scraper::Html::parse_fragment(s);
        if theirs.errors.is_empty() {
            assert_eq!(ours.unwrap(), theirs.html(), "input: {s:?}");
        } else {
            assert!(ours.is_err(), "input: {s:?}");
        }
    }
}

#[test]
fn namespaced_attributes_keep_their_prefix() {
    let t = parse_html("<svg xmlns:xlink=\"http://www.w3.org/1999/xlink\"><use xlink:href=\"#a\"></use></svg>");
    let html = t.to_html();
    assert!(html.contains("xmlns:xlink=\"http://www.w3.org/1999/xlink\""), "{html}");
    assert!(html.contains("<use xlink:href=\"#a\">"), "{html}");
}
