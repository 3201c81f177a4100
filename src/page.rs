//! The document composer: one template tree per site build, and a page built
//! from a copy of it for each article or fragment.

use vstd::prelude::*;
use crate::classes::{has_class_token, has_token};
use crate::date::{Date, iso_date_text};
use crate::html::{
    HtmlTree, HTML_NAMESPACE, KindView, MATHML_NAMESPACE, NodeKind, NodeView, appended, attrs_view,
    detached, fragment_parses, fragment_walk, grafted, is_element_named, kinds_of, reparented,
    shifted, first_child_from, tree_html, walk_tree,
};
use crate::text::text_eq;

verus! {

/// Where the site's stylesheet is served.
pub const SITE_CSS_PATH: &'static str = "/stylesheets/site.css";

/// Where the stylesheet for rendered math is served.
pub const MATH_CSS_PATH: &'static str = "/stylesheets/katex.css";

/// A font that every page preloads: where it is served and its MIME type, if known.
#[derive(Clone, Debug)]
pub struct Font {
    pub path: String,
    pub mime: Option<String>,
}

/// A font as mathematical values.
pub struct FontView {
    pub path: Seq<char>,
    pub mime: Option<Seq<char>>,
}

impl View for Font {
    type V = FontView;

    open spec fn view(&self) -> FontView {
        FontView {
            path: self.path@,
            mime: match &self.mime {
                Some(m) => Some(m@),
                None => None,
            },
        }
    }
}

/// What a page is: a plain fragment, or an article with its dates.
#[derive(Clone, Copy, Debug)]
pub enum PageKind {
    Fragment,
    Article { contains_math: bool, created: Date, updated: Option<Date> },
}

impl PageKind {
    /// The dates of an article are real dates.
    pub open spec fn valid(self) -> bool {
        match self {
            PageKind::Fragment => true,
            PageKind::Article { created, updated, .. } => created.valid() && (updated matches Some(
                u,
            ) ==> u.valid()),
        }
    }
}

/// Why a page or the composer could not be built.
#[derive(Clone, Debug, PartialEq, Eq)]
pub enum PageError {
    /// The HTML did not parse without errors; the parser's first message.
    InvalidHtml(String),
    /// The template has no `<main>` element to hold page content.
    MissingSlot,
    /// The document would have more nodes than an index can address.
    TooLarge,
}

/// An element of the HTML namespace.
pub open spec fn html_el(name: Seq<char>, attrs: Seq<(Seq<char>, Seq<char>)>) -> KindView {
    KindView::Element { name, namespace: HTML_NAMESPACE@, attrs }
}

/// The attributes of the preload link of a font.
pub open spec fn font_link_attrs(f: FontView) -> Seq<(Seq<char>, Seq<char>)> {
    let base = seq![
        ("rel"@, "preload"@),
        ("href"@, f.path),
        ("as"@, "font"@),
        ("crossorigin"@, "anonymous"@),
    ];
    match f.mime {
        Some(m) => base.push(("type"@, m)),
        None => base,
    }
}

/// Index of the `<html>` element of the document skeleton.
pub open spec fn html_index() -> int {
    2
}

/// Index of the `<head>` element of the document skeleton.
pub open spec fn head_index() -> int {
    3
}

/// The document skeleton up to the font links: doctype, `<html lang="en">`, and a
/// `<head>` with charset, viewport and author metadata and the site stylesheet.
pub open spec fn head_skeleton(author: Seq<char>) -> Seq<NodeView> {
    let t0 = seq![NodeView { parent: None, kind: KindView::Document }];
    let t1 = appended(t0, 0, KindView::Doctype { name: "html"@ });
    let t2 = appended(t1, 0, html_el("html"@, seq![("lang"@, "en"@)]));
    let t3 = appended(t2, html_index(), html_el("head"@, seq![]));
    let t4 = appended(t3, head_index(), html_el("meta"@, seq![("charset"@, "utf-8"@)]));
    let t5 = appended(
        t4,
        head_index(),
        html_el(
            "meta"@,
            seq![("name"@, "viewport"@), ("content"@, "width=device-width, initial-scale=1"@)],
        ),
    );
    let t6 = appended(
        t5,
        head_index(),
        html_el("meta"@, seq![("name"@, "author"@), ("content"@, author)]),
    );
    appended(
        t6,
        head_index(),
        html_el("link"@, seq![("rel"@, "stylesheet"@), ("href"@, SITE_CSS_PATH@)]),
    )
}

/// The preload links of the fonts, under `<head>`.
pub open spec fn font_links(fonts: Seq<FontView>) -> Seq<NodeView> {
    Seq::new(
        fonts.len(),
        |i: int|
            NodeView {
                parent: Some(head_index()),
                kind: html_el("link"@, font_link_attrs(fonts[i])),
            },
    )
}

/// The whole skeleton, with an empty `<body>` as its last node.
pub open spec fn skeleton(author: Seq<char>, fonts: Seq<FontView>) -> Seq<NodeView> {
    appended(head_skeleton(author) + font_links(fonts), html_index(), html_el("body"@, seq![]))
}

/// Some node of the sequence is an element named `name`.
pub open spec fn has_element_named(kinds: Seq<KindView>, name: Seq<char>) -> bool {
    exists|k: int| 0 <= k < kinds.len() && #[trigger] kind_is_named(kinds[k], name)
}

/// The kind is an element named `name`.
pub open spec fn kind_is_named(kind: KindView, name: Seq<char>) -> bool {
    kind matches KindView::Element { name: n, .. } && n == name
}

/// Node `k` is the last element named `name`.
pub open spec fn is_last_element_named(t: Seq<NodeView>, k: int, name: Seq<char>) -> bool {
    &&& is_element_named(t, k, name)
    &&& forall|j: int| k < j < t.len() ==> !is_element_named(t, j, name)
}

/// Whether a parsed body holds rendered math: a `<span>` of class `katex`, or a
/// MathML element; for an article, what the transformer recorded.
pub open spec fn page_has_math(body: Seq<NodeView>, kind: PageKind) -> bool {
    match kind {
        PageKind::Fragment => exists|k: int|
            0 <= k < body.len() && #[trigger] is_math_node(body[k].kind),
        PageKind::Article { contains_math, .. } => contains_math,
    }
}

/// An element that is a `<span class="katex">` or belongs to MathML.
pub open spec fn is_math_node(kind: KindView) -> bool {
    match kind {
        KindView::Element { name, namespace, attrs } => (name == "span"@ && exists|i: int|
            0 <= i < attrs.len() && #[trigger] attr_has_class(attrs[i], "katex"@)) || namespace
            == MATHML_NAMESPACE@,
        _ => false,
    }
}

/// The attribute is a class list that holds `class`.
pub open spec fn attr_has_class(a: (Seq<char>, Seq<char>), class: Seq<char>) -> bool {
    a.0 == "class"@ && has_token(a.1, class)
}

/// The heading of an article: an `<hgroup>` under node `a` with the title in `<h1>`
/// and the dates in `<time>` elements within a `<p>`.
pub open spec fn with_heading(
    t: Seq<NodeView>,
    a: int,
    title: Seq<char>,
    created: Date,
    updated: Option<Date>,
) -> Seq<NodeView> {
    let g = t.len() as int;
    let cd = iso_date_text(created.year as int, created.month as int, created.day as int);
    let t1 = appended(t, a, html_el("hgroup"@, seq![("class"@, "__article-heading"@)]));
    let t2 = appended(t1, g, html_el("h1"@, seq![]));
    let t3 = appended(t2, g + 1, KindView::Text { text: title });
    let t4 = appended(t3, g, html_el("p"@, seq![]));
    let t5 = appended(t4, g + 3, html_el("time"@, seq![("datetime"@, cd)]));
    let t6 = appended(t5, g + 4, KindView::Text { text: cd });
    match updated {
        None => t6,
        Some(u) => {
            let ud = iso_date_text(u.year as int, u.month as int, u.day as int);
            let t7 = appended(t6, g + 3, KindView::Text { text: " (last updated "@ });
            let t8 = appended(t7, g + 3, html_el("time"@, seq![("datetime"@, ud)]));
            let t9 = appended(t8, g + 7, KindView::Text { text: ud });
            appended(t9, g + 3, KindView::Text { text: ")"@ })
        },
    }
}

/// The tree of a page: the template with, in `<head>`, the math stylesheet when the
/// body holds math and the `<title>`; in the slot, for an article, an `<article>`
/// with the heading and then the body, and for a fragment the body alone.
pub open spec fn page_tree(
    t: Seq<NodeView>,
    head: int,
    slot: int,
    title: Seq<char>,
    body: Seq<NodeView>,
    kind: PageKind,
) -> Seq<NodeView> {
    let t1 = if page_has_math(body, kind) {
        appended(t, head, html_el("link"@, seq![("rel"@, "stylesheet"@), ("href"@, MATH_CSS_PATH@)]))
    } else {
        t
    };
    let t2 = appended(t1, head, html_el("title"@, seq![]));
    let t3 = appended(t2, t1.len() as int, KindView::Text { text: title });
    match kind {
        PageKind::Fragment => grafted(t3, slot, body),
        PageKind::Article { created, updated, .. } => {
            let a = t3.len() as int;
            let t4 = appended(t3, slot, html_el("article"@, seq![]));
            grafted(with_heading(t4, a, title, created, updated), a, body)
        },
    }
}

/// A list of one attribute.
pub(crate) fn attrs1(k: &str, v: &str) -> (r: Vec<(String, String)>)
    ensures
        attrs_view(r@) == seq![(k@, v@)],
{
    let mut a: Vec<(String, String)> = Vec::new();
    a.push(attr(k, v));
    assert(attrs_view(a@) =~= seq![(k@, v@)]);
    a
}

/// A list of two attributes.
pub(crate) fn attrs2(k1: &str, v1: &str, k2: &str, v2: &str) -> (r: Vec<(String, String)>)
    ensures
        attrs_view(r@) == seq![(k1@, v1@), (k2@, v2@)],
{
    let mut a: Vec<(String, String)> = Vec::new();
    a.push(attr(k1, v1));
    a.push(attr(k2, v2));
    assert(attrs_view(a@) =~= seq![(k1@, v1@), (k2@, v2@)]);
    a
}

/// A list of three attributes.
pub(crate) fn attrs3(k1: &str, v1: &str, k2: &str, v2: &str, k3: &str, v3: &str) -> (r: Vec<
    (String, String),
>)
    ensures
        attrs_view(r@) == seq![(k1@, v1@), (k2@, v2@), (k3@, v3@)],
{
    let mut a: Vec<(String, String)> = Vec::new();
    a.push(attr(k1, v1));
    a.push(attr(k2, v2));
    a.push(attr(k3, v3));
    assert(attrs_view(a@) =~= seq![(k1@, v1@), (k2@, v2@), (k3@, v3@)]);
    a
}

/// No attributes.
pub(crate) fn no_attrs() -> (r: Vec<(String, String)>)
    ensures
        attrs_view(r@) == Seq::<(Seq<char>, Seq<char>)>::empty(),
{
    let a: Vec<(String, String)> = Vec::new();
    assert(attrs_view(a@) =~= Seq::<(Seq<char>, Seq<char>)>::empty());
    a
}

/// An attribute of the given name and value.
fn attr(name: &str, value: &str) -> (r: (String, String))
    ensures
        r.0@ == name@,
        r.1@ == value@,
{
    (name.to_owned(), value.to_owned())
}

/// Whether a parsed body holds rendered math, as [`page_has_math`] states it.
pub fn contains_math(body: &HtmlTree, kind: PageKind) -> (r: bool)
    ensures
        r == page_has_math(body@, kind),
{
    match kind {
        PageKind::Article { contains_math, .. } => contains_math,
        PageKind::Fragment => {
            let mut k: usize = 0;
            while k < body.nodes.len()
                invariant
                    kind == PageKind::Fragment,
                    k <= body@.len(),
                    forall|j: int| 0 <= j < k ==> !is_math_node(#[trigger] body@[j].kind),
                decreases body@.len() - k,
            {
                assert(body@[k as int] == body.nodes@[k as int]@);
                if let NodeKind::Element { name, namespace, attrs } = &body.nodes[k].kind {
                    if text_eq(namespace.as_str(), MATHML_NAMESPACE) {
                        assert(is_math_node(body@[k as int].kind));
                        return true;
                    }
                    if text_eq(name.as_str(), "span") {
                        let mut i: usize = 0;
                        while i < attrs.len()
                            invariant
                                kind == PageKind::Fragment,
                                k < body@.len(),
                                name@ == "span"@,
                                body@[k as int].kind == (KindView::Element {
                                    name: name@,
                                    namespace: namespace@,
                                    attrs: attrs_view(attrs@),
                                }),
                                i <= attrs@.len(),
                                forall|m: int| 0 <= m < i ==> !#[trigger] attr_has_class(attrs_view(attrs@)[m], "katex"@),
                            decreases attrs@.len() - i,
                        {
                            if text_eq(attrs[i].0.as_str(), "class") && has_class_token(
                                attrs[i].1.as_str(),
                                "katex",
                            ) {
                                let ghost av = attrs_view(attrs@);
                                assert(attr_has_class(av[i as int], "katex"@));
                                let ghost kv = body@[k as int].kind;
                                assert(kv->Element_name == "span"@);
                                assert(kv->Element_attrs == av);
                                assert(is_math_node(kv));
                                return true;
                            }
                            i = i + 1;
                        }
                    }
                }
                k = k + 1;
            }
            false
        },
    }
}

/// Grafting changes where nodes hang, never what they are: the kinds of the result are
/// those of the tree followed by those of the fragment.
pub proof fn lemma_grafted_kinds(t: Seq<NodeView>, target: int, o: Seq<NodeView>)
    ensures
        kinds_of(grafted(t, target, o)) == kinds_of(t) + kinds_of(o),
{
    let r = t.len() as int;
    let t1 = t + shifted(o, target, r);
    assert(kinds_of(t1) =~= kinds_of(t) + kinds_of(o));
    let t2 = match first_child_from(t1, r, r + 1) {
        Some(h) => reparented(t1, h, target),
        None => t1,
    };
    assert(kinds_of(t2) =~= kinds_of(t1));
    assert(kinds_of(detached(t2, r)) =~= kinds_of(t2));
}

/// No element of the skeleton is named `main`.
proof fn lemma_skeleton_has_no_main(author: Seq<char>, fonts: Seq<FontView>)
    ensures
        !has_element_named(kinds_of(skeleton(author, fonts)), "main"@),
{
    reveal_strlit("main");
    reveal_strlit("html");
    reveal_strlit("head");
    reveal_strlit("meta");
    reveal_strlit("link");
    reveal_strlit("body");
    assert("main"@[0] != "html"@[0]);
    assert("main"@[0] != "head"@[0]);
    assert("main"@[1] != "meta"@[1]);
    assert("main"@[0] != "link"@[0]);
    assert("main"@[0] != "body"@[0]);
    let k = kinds_of(skeleton(author, fonts));
    assert forall|j: int| 0 <= j < k.len() implies !#[trigger] kind_is_named(k[j], "main"@) by {
        if j >= head_skeleton(author).len() && j < head_skeleton(author).len() + fonts.len() {
            assert(k[j] == html_el("link"@, font_link_attrs(fonts[j - head_skeleton(author).len()])));
        }
    }
}

/// The composer: the template placed in a full document skeleton, with the indices
/// of `<head>` and of the content slot.
#[derive(Debug)]
pub struct PageBuilder {
    pub html: HtmlTree,
    pub head_id: usize,
    pub slot_id: usize,
}

/// The fonts as mathematical values.
pub open spec fn fonts_view(fonts: Seq<Font>) -> Seq<FontView> {
    Seq::new(fonts.len(), |i: int| fonts[i]@)
}

impl PageBuilder {
    /// The recorded indices address nodes of the template tree.
    pub open spec fn wf(&self) -> bool {
        &&& self.html.wf()
        &&& self.head_id < self.html@.len()
        &&& self.slot_id < self.html@.len()
    }

    /// Places the template in a document skeleton: a doctype, `<html lang="en">`,
    /// a `<head>` with charset, viewport and author metadata, the site stylesheet
    /// and a preload link per font, then a `<body>` holding the template. The last
    /// `<main>` element of the document becomes the content slot.
    pub fn new(author: &str, site_fonts: &Vec<Font>, template: &str) -> (r: Result<
        PageBuilder,
        PageError,
    >)
        ensures
            match r {
                Err(PageError::InvalidHtml(_)) => !fragment_parses(template@),
                Err(PageError::TooLarge) => fragment_parses(template@) && skeleton(
                    author@,
                    fonts_view(site_fonts@),
                ).len() + walk_tree(fragment_walk(template@)).len() > usize::MAX,
                Err(PageError::MissingSlot) => fragment_parses(template@) && !has_element_named(
                    kinds_of(walk_tree(fragment_walk(template@))),
                    "main"@,
                ),
                Ok(b) => {
                    &&& fragment_parses(template@)
                    &&& b.wf()
                    &&& b.head_id == head_index()
                    &&& b.html@ == grafted(
                        skeleton(author@, fonts_view(site_fonts@)),
                        skeleton(author@, fonts_view(site_fonts@)).len() - 1,
                        walk_tree(fragment_walk(template@)),
                    )
                    &&& is_last_element_named(b.html@, b.slot_id as int, "main"@)
                },
            },
            fragment_parses(template@) && has_element_named(
                kinds_of(walk_tree(fragment_walk(template@))),
                "main"@,
            ) && skeleton(author@, fonts_view(site_fonts@)).len() + walk_tree(
                fragment_walk(template@),
            ).len() <= usize::MAX ==> r is Ok,
    {
        let tmpl = match HtmlTree::parse_fragment(template) {
            Ok(t) => t,
            Err(e) => return Err(PageError::InvalidHtml(e)),
        };
        let mut t = HtmlTree::new(NodeKind::Document);
        t.append(0, NodeKind::Doctype { name: "html".to_owned() });
        let html = t.append(0, NodeKind::html_element("html", attrs1("lang", "en")));
        let head = t.append(html, NodeKind::html_element("head", no_attrs()));
        t.append(head, NodeKind::html_element("meta", attrs1("charset", "utf-8")));
        t.append(
            head,
            NodeKind::html_element(
                "meta",
                attrs2("name", "viewport", "content", "width=device-width, initial-scale=1"),
            ),
        );
        t.append(head, NodeKind::html_element("meta", attrs2("name", "author", "content", author)));
        t.append(
            head,
            NodeKind::html_element("link", attrs2("rel", "stylesheet", "href", SITE_CSS_PATH)),
        );
        assert(t@ =~= head_skeleton(author@));
        let ghost fv = fonts_view(site_fonts@);
        let mut i: usize = 0;
        while i < site_fonts.len()
            invariant
                fv == fonts_view(site_fonts@),
                head == head_index(),
                html == html_index(),
                i <= site_fonts@.len(),
                t.wf(),
                t@ =~= head_skeleton(author@) + font_links(fv.subrange(0, i as int)),
            decreases site_fonts@.len() - i,
        {
            let font = &site_fonts[i];
            let mut a: Vec<(String, String)> = Vec::new();
            a.push(attr("rel", "preload"));
            a.push(attr("href", font.path.as_str()));
            a.push(attr("as", "font"));
            a.push(attr("crossorigin", "anonymous"));
            if let Some(m) = &font.mime {
                a.push(attr("type", m.as_str()));
            }
            assert(attrs_view(a@) =~= font_link_attrs(fv[i as int]));
            t.append(head, NodeKind::html_element("link", a));
            assert(font_links(fv.subrange(0, i + 1)) =~= font_links(fv.subrange(0, i as int)).push(
                font_links(fv)[i as int],
            ));
            i = i + 1;
        }
        assert(fv.subrange(0, i as int) =~= fv);
        let body = t.append(html, NodeKind::html_element("body", no_attrs()));
        assert(t@ =~= skeleton(author@, fv));
        if tmpl.len() > usize::MAX - t.len() {
            return Err(PageError::TooLarge);
        }
        let ghost before = t@;
        t.graft(body, &tmpl);
        proof {
            lemma_grafted_kinds(before, body as int, tmpl@);
        }
        match t.last_element_named("main") {
            Some(slot) => Ok(PageBuilder { html: t, head_id: head, slot_id: slot }),
            None => {
                proof {
                    lemma_skeleton_has_no_main(author@, fv);
                    let tk = kinds_of(walk_tree(fragment_walk(template@)));
                    let n = before.len() as int;
                    assert forall|m: int| 0 <= m < tk.len() implies !#[trigger] kind_is_named(
                        tk[m],
                        "main"@,
                    ) by {
                        assert(kinds_of(t@)[n + m] == tk[m]);
                        assert(!is_element_named(t@, n + m, "main"@));
                    }
                }
                Err(PageError::MissingSlot)
            },
        }
    }

    /// The page for a parsed body: a copy of the template with, in `<head>`, the math
    /// stylesheet when the body holds math and the `<title>`; in the slot, for an
    /// article, an `<article>` with the heading and the body, else the body alone.
    pub fn build_page_tree(&self, title: &str, body: &HtmlTree, kind: PageKind) -> (r: String)
        requires
            self.wf(),
            body.wf(),
            kind.valid(),
            self.html@.len() + body@.len() + 16 <= usize::MAX,
        ensures
            r@ == tree_html(
                page_tree(self.html@, self.head_id as int, self.slot_id as int, title@, body@, kind),
            ),
    {
        let mut t = self.html.duplicate();
        if contains_math(body, kind) {
            t.append(
                self.head_id,
                NodeKind::html_element("link", attrs2("rel", "stylesheet", "href", MATH_CSS_PATH)),
            );
        }
        let te = t.append(self.head_id, NodeKind::html_element("title", no_attrs()));
        t.append(te, NodeKind::text(title));
        match kind {
            PageKind::Fragment => {
                t.graft(self.slot_id, body);
            },
            PageKind::Article { created, updated, .. } => {
                let a = t.append(self.slot_id, NodeKind::html_element("article", no_attrs()));
                let ghost t4 = t@;
                let g = t.append(
                    a,
                    NodeKind::html_element("hgroup", attrs1("class", "__article-heading")),
                );
                let h1 = t.append(g, NodeKind::html_element("h1", no_attrs()));
                t.append(h1, NodeKind::text(title));
                let p = t.append(g, NodeKind::html_element("p", no_attrs()));
                let cd = created.to_iso_string();
                let tm = t.append(p, NodeKind::html_element("time", attrs1("datetime", cd.as_str())));
                t.append(tm, NodeKind::text(cd.as_str()));
                if let Some(u) = updated {
                    let ud = u.to_iso_string();
                    t.append(p, NodeKind::text(" (last updated "));
                    let tu = t.append(
                        p,
                        NodeKind::html_element("time", attrs1("datetime", ud.as_str())),
                    );
                    t.append(tu, NodeKind::text(ud.as_str()));
                    t.append(p, NodeKind::text(")"));
                }
                assert(t@ == with_heading(t4, a as int, title@, created, updated));
                t.graft(a, body);
            },
        }
        t.to_html()
    }

    /// Builds a complete page from a title, an HTML body and the kind of page.
    /// Fails when the body does not parse as HTML without errors.
    pub fn build_page(&self, title: &str, body: &str, kind: PageKind) -> (r: Result<
        String,
        PageError,
    >)
        requires
            self.wf(),
            kind.valid(),
        ensures
            r matches Err(PageError::InvalidHtml(_)) <==> !fragment_parses(body@),
            r matches Err(e) ==> e is InvalidHtml || (e is TooLarge && self.html@.len()
                + walk_tree(fragment_walk(body@)).len() + 16 > usize::MAX),
            fragment_parses(body@) && self.html@.len() + walk_tree(fragment_walk(body@)).len() + 16
                <= usize::MAX ==> r is Ok,
            r matches Ok(s) ==> s@ == tree_html(
                page_tree(
                    self.html@,
                    self.head_id as int,
                    self.slot_id as int,
                    title@,
                    walk_tree(fragment_walk(body@)),
                    kind,
                ),
            ),
    {
        let tree = match HtmlTree::parse_fragment(body) {
            Ok(t) => t,
            Err(e) => return Err(PageError::InvalidHtml(e)),
        };
        if self.html.len() > usize::MAX - 16 || tree.len() > usize::MAX - 16 - self.html.len() {
            return Err(PageError::TooLarge);
        }
        Ok(self.build_page_tree(title, &tree, kind))
    }
}

} // verus!
