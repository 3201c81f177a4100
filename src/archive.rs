//! The archive page: every article, newest first.

use vstd::prelude::*;
use vstd::multiset::Multiset;
use crate::date::{Date, iso_date_text};
use crate::html::{HtmlTree, KindView, NodeKind, NodeView, appended, tree_html};
use crate::page::{PageBuilder, PageKind, attrs1, attrs3, html_el, no_attrs, page_tree};
use crate::text::chars_of;

verus! {

broadcast use vstd::seq_lib::group_to_multiset_ensures, vstd::multiset::group_multiset_axioms;

/// The title of the archive page.
pub const ARCHIVE_TITLE: &'static str = "Writing";

/// The line under the archive's heading.
pub const ARCHIVE_DESCRIPTION: &'static str = "Posts are in reverse chronological order.";

/// What the archive keeps of an article.
#[derive(Debug)]
pub struct ArticlePreview {
    pub title: String,
    pub slug: String,
    pub created: Date,
}

/// An article preview as mathematical values.
pub struct PreviewView {
    pub title: Seq<char>,
    pub slug: Seq<char>,
    pub created: Date,
}

impl View for ArticlePreview {
    type V = PreviewView;

    open spec fn view(&self) -> PreviewView {
        PreviewView { title: self.title@, slug: self.slug@, created: self.created }
    }
}

/// The previews of a list as mathematical values.
pub open spec fn previews_view(v: Seq<ArticlePreview>) -> Seq<PreviewView> {
    Seq::new(v.len(), |i: int| v[i]@)
}

/// `a` comes before `b` in lexicographic order of code points.
pub open spec fn text_less(a: Seq<char>, b: Seq<char>) -> bool {
    exists|k: int| #[trigger] differs_first_at(a, b, k)
}

/// `a` and `b` agree before index `k`, and at `k` `a` is smaller or has ended.
pub open spec fn differs_first_at(a: Seq<char>, b: Seq<char>, k: int) -> bool {
    &&& 0 <= k <= a.len()
    &&& k < b.len()
    &&& a.subrange(0, k) == b.subrange(0, k)
    &&& (k == a.len() || (a[k] as u32) < (b[k] as u32))
}

/// `x` is listed before `y`: it is newer, or as new with a later title.
pub open spec fn precedes(x: PreviewView, y: PreviewView) -> bool {
    y.created.spec_before(x.created) || (x.created == y.created && text_less(y.title, x.title))
}

/// No preview is listed after one that should follow it.
pub open spec fn archive_sorted(s: Seq<PreviewView>) -> bool {
    forall|i: int, j: int| 0 <= i < j < s.len() ==> !precedes(#[trigger] s[j], #[trigger] s[i])
}

proof fn lemma_text_less_transitive(a: Seq<char>, b: Seq<char>, c: Seq<char>)
    requires
        text_less(a, b),
        text_less(b, c),
    ensures
        text_less(a, c),
{
    let k1 = choose|k: int| #[trigger] differs_first_at(a, b, k);
    let k2 = choose|k: int| #[trigger] differs_first_at(b, c, k);
    if k1 < k2 {
        assert(a.subrange(0, k1) =~= c.subrange(0, k1)) by {
            assert forall|m: int| 0 <= m < k1 implies a.subrange(0, k1)[m] == c.subrange(0, k1)[m] by {
                assert(a.subrange(0, k1)[m] == b.subrange(0, k1)[m]);
                assert(b.subrange(0, k2)[m] == c.subrange(0, k2)[m]);
            }
        }
        if k1 < a.len() {
            assert(b.subrange(0, k2)[k1] == c.subrange(0, k2)[k1]);
        }
        assert(differs_first_at(a, c, k1));
    } else if k2 < k1 {
        assert(a.subrange(0, k2) =~= c.subrange(0, k2)) by {
            assert forall|m: int| 0 <= m < k2 implies a.subrange(0, k2)[m] == c.subrange(0, k2)[m] by {
                assert(a.subrange(0, k1)[m] == b.subrange(0, k1)[m]);
                assert(b.subrange(0, k2)[m] == c.subrange(0, k2)[m]);
            }
        }
        assert(a.subrange(0, k1)[k2] == b.subrange(0, k1)[k2]);
        assert(differs_first_at(a, c, k2));
    } else {
        assert(a.subrange(0, k1) =~= c.subrange(0, k1));
        assert(differs_first_at(a, c, k1));
    }
}

proof fn lemma_before_transitive(a: Date, b: Date, c: Date)
    requires
        a.spec_before(b),
        b.spec_before(c),
    ensures
        a.spec_before(c),
{
}

proof fn lemma_precedes_transitive(x: PreviewView, y: PreviewView, z: PreviewView)
    requires
        precedes(x, y),
        precedes(y, z),
    ensures
        precedes(x, z),
{
    if x.created == y.created && y.created == z.created {
        lemma_text_less_transitive(z.title, y.title, x.title);
    }
}

/// Whether `a` comes before `b` in lexicographic order of code points.
fn text_is_less(a: &str, b: &str) -> (r: bool)
    ensures
        r == text_less(a@, b@),
{
    let x = chars_of(a);
    let y = chars_of(b);
    let mut k: usize = 0;
    while k < x.len() && k < y.len() && x[k] == y[k]
        invariant
            x@ == a@,
            y@ == b@,
            k <= x@.len(),
            k <= y@.len(),
            x@.subrange(0, k as int) == y@.subrange(0, k as int),
        decreases x@.len() - k,
    {
        assert(x@.subrange(0, k + 1) =~= x@.subrange(0, k as int).push(x@[k as int]));
        assert(y@.subrange(0, k + 1) =~= y@.subrange(0, k as int).push(y@[k as int]));
        k = k + 1;
    }
    let r = k < y.len() && (k == x.len() || (x[k] as u32) < (y[k] as u32));
    if r {
        assert(differs_first_at(a@, b@, k as int));
    } else {
        assert forall|j: int| !#[trigger] differs_first_at(a@, b@, j) by {
            if differs_first_at(a@, b@, j) {
                if j < k {
                    assert(a@.subrange(0, k as int)[j] == b@.subrange(0, k as int)[j]);
                } else if j > k {
                    assert(a@.subrange(0, j)[k as int] == b@.subrange(0, j)[k as int]);
                }
            }
        }
    }
    r
}

/// Whether `x` is listed before `y`.
fn preview_precedes(x: &ArticlePreview, y: &ArticlePreview) -> (r: bool)
    ensures
        r == precedes(x@, y@),
{
    y.created.is_before(&x.created) || (x.created == y.created && text_is_less(
        y.title.as_str(),
        x.title.as_str(),
    ))
}

/// The heading of the archive body: a fragment root, the wrapper that grafting
/// removes, an `<h1>` with the title, a `<p>` with the description, and the list.
pub open spec fn archive_base() -> Seq<NodeView> {
    let t0 = seq![NodeView { parent: None, kind: KindView::Fragment }];
    let t1 = appended(t0, 0, KindView::Fragment);
    let t2 = appended(t1, 1, html_el("h1"@, seq![]));
    let t3 = appended(t2, 2, KindView::Text { text: ARCHIVE_TITLE@ });
    let t4 = appended(t3, 1, html_el("p"@, seq![]));
    let t5 = appended(t4, 4, KindView::Text { text: ARCHIVE_DESCRIPTION@ });
    appended(
        t5,
        1,
        html_el(
            "ol"@,
            seq![("reversed"@, ""@), ("class"@, "__article-list"@), ("role"@, "list"@)],
        ),
    )
}

/// Index of the list in the archive body.
pub open spec fn archive_list_index() -> int {
    6
}

/// One list item: the date in a `<time>`, and the title in a link to the slug.
pub open spec fn with_entry(t: Seq<NodeView>, a: PreviewView) -> Seq<NodeView> {
    let l = t.len() as int;
    let d = iso_date_text(a.created.year as int, a.created.month as int, a.created.day as int);
    let t1 = appended(t, archive_list_index(), html_el("li"@, seq![]));
    let t2 = appended(t1, l, html_el("p"@, seq![("class"@, "__article-date"@)]));
    let t3 = appended(t2, l + 1, html_el("time"@, seq![("datetime"@, d)]));
    let t4 = appended(t3, l + 2, KindView::Text { text: d });
    let t5 = appended(t4, l, html_el("a"@, seq![("href"@, a.slug)]));
    let t6 = appended(t5, l + 4, html_el("p"@, seq![]));
    appended(t6, l + 5, KindView::Text { text: a.title })
}

/// The archive body listing the previews in the given order.
pub open spec fn archive_tree(s: Seq<PreviewView>) -> Seq<NodeView>
    decreases s.len(),
{
    if s.len() == 0 {
        archive_base()
    } else {
        with_entry(archive_tree(s.drop_last()), s.last())
    }
}

/// Articles with different creation dates are listed newest first.
pub proof fn lemma_archive_newest_first(s: Seq<PreviewView>, i: int, j: int)
    requires
        archive_sorted(s),
        0 <= i < j < s.len(),
        s[i].created != s[j].created,
    ensures
        s[j].created.spec_before(s[i].created),
{
    assert(!precedes(s[j], s[i]));
}

/// The body of the archive page listing `previews` in the given order.
pub fn archive_body(previews: &Vec<ArticlePreview>) -> (r: HtmlTree)
    requires
        7 * previews@.len() + 7 <= usize::MAX,
        forall|i: int| 0 <= i < previews@.len() ==> (#[trigger] previews@[i]).created.valid(),
    ensures
        r@ == archive_tree(previews_view(previews@)),
        r@.len() == 7 + 7 * previews@.len(),
        r.wf(),
{
    let mut t = HtmlTree::new(NodeKind::Fragment);
    let w = t.append(0, NodeKind::Fragment);
    let h1 = t.append(w, NodeKind::html_element("h1", no_attrs()));
    t.append(h1, NodeKind::text(ARCHIVE_TITLE));
    let p = t.append(w, NodeKind::html_element("p", no_attrs()));
    t.append(p, NodeKind::text(ARCHIVE_DESCRIPTION));
    let ol = t.append(
        w,
        NodeKind::html_element(
            "ol",
            attrs3("reversed", "", "class", "__article-list", "role", "list"),
        ),
    );
    assert(t@ =~= archive_base());
    let ghost pv = previews_view(previews@);
    let mut i: usize = 0;
    while i < previews.len()
        invariant
            pv == previews_view(previews@),
            7 * previews@.len() + 7 <= usize::MAX,
            forall|k: int| 0 <= k < previews@.len() ==> (#[trigger] previews@[k]).created.valid(),
            ol == archive_list_index(),
            i <= previews@.len(),
            t.wf(),
            t@.len() == 7 + 7 * i,
            t@ == archive_tree(pv.subrange(0, i as int)),
        decreases previews@.len() - i,
    {
        let a = &previews[i];
        let d = a.created.to_iso_string();
        let li = t.append(ol, NodeKind::html_element("li", no_attrs()));
        let dp = t.append(li, NodeKind::html_element("p", attrs1("class", "__article-date")));
        let tm = t.append(dp, NodeKind::html_element("time", attrs1("datetime", d.as_str())));
        t.append(tm, NodeKind::text(d.as_str()));
        let link = t.append(li, NodeKind::html_element("a", attrs1("href", a.slug.as_str())));
        let tp = t.append(link, NodeKind::html_element("p", no_attrs()));
        t.append(tp, NodeKind::text(a.title.as_str()));
        assert(pv.subrange(0, i + 1).drop_last() =~= pv.subrange(0, i as int));
        assert(t@ =~= with_entry(archive_tree(pv.subrange(0, i as int)), pv[i as int]));
        i = i + 1;
    }
    assert(pv.subrange(0, i as int) =~= pv);
    t
}

/// Three articles created on three different days are listed newest first, in
/// whatever order they were added.
pub proof fn lemma_archive_three_dates(
    s: Seq<PreviewView>,
    a1: PreviewView,
    a2: PreviewView,
    a3: PreviewView,
)
    requires
        a2.created.spec_before(a1.created),
        a3.created.spec_before(a2.created),
        archive_sorted(s),
        s.to_multiset() == seq![a1, a2, a3].to_multiset(),
    ensures
        s == seq![a1, a2, a3],
{
    let t = seq![a1, a2, a3];
    assert(s.len() == 3) by {
        assert(s.len() == s.to_multiset().len());
        assert(t.len() == t.to_multiset().len());
    }
    assert(precedes(a1, a2) && precedes(a1, a3) && precedes(a2, a3)) by {
        lemma_before_transitive(a3.created, a2.created, a1.created);
    }
    assert(a1 != a2 && a1 != a3 && a2 != a3) by {
        assert(!a1.created.spec_before(a1.created));
        assert(!a2.created.spec_before(a2.created));
        assert(a3.created.spec_before(a1.created)) by {
            lemma_before_transitive(a3.created, a2.created, a1.created);
        }
    }
    assert forall|x: PreviewView| s.contains(x) <==> t.contains(x) by {
        assert(s.contains(x) <==> s.to_multiset().count(x) > 0);
        assert(t.contains(x) <==> t.to_multiset().count(x) > 0);
    }
    assert(t.contains(a1) && t.contains(a2) && t.contains(a3)) by {
        assert(t[0] == a1 && t[1] == a2 && t[2] == a3);
    }
    assert forall|i: int| 0 <= i < 3 implies s[i] == a1 || s[i] == a2 || s[i] == a3 by {
        assert(s.contains(s[i]));
        assert(t.contains(s[i]));
    }
    assert(!precedes(s[1], s[0]) && !precedes(s[2], s[0]) && !precedes(s[2], s[1]));
    assert(s =~= t);
}

/// Collects the articles of a build for the archive page.
#[derive(Debug)]
pub struct ArchiveBuilder(pub Vec<ArticlePreview>);

impl ArchiveBuilder {
    /// Every recorded date is a real date.
    pub open spec fn wf(&self) -> bool {
        forall|i: int| 0 <= i < self.0@.len() ==> (#[trigger] self.0@[i]).created.valid()
    }

    /// An archive with no article.
    pub fn new() -> (r: ArchiveBuilder)
        ensures
            r.0@.len() == 0,
            r.wf(),
    {
        ArchiveBuilder(Vec::new())
    }

    /// Records an article's title, slug and creation date.
    pub fn add_article(&mut self, title: String, slug: String, created: Date)
        requires
            old(self).wf(),
            created.valid(),
        ensures
            previews_view(final(self).0@) == previews_view(old(self).0@).push(
                PreviewView { title: title@, slug: slug@, created },
            ),
            final(self).wf(),
    {
        let ghost t = title@;
        let ghost s = slug@;
        self.0.push(ArticlePreview { title, slug, created });
        assert(previews_view(self.0@) =~= previews_view(old(self).0@).push(
            PreviewView { title: t, slug: s, created },
        ));
    }

    /// The recorded articles in archive order: newest first, and among articles of
    /// the same day the later title first.
    pub fn into_sorted(self) -> (r: Vec<ArticlePreview>)
        requires
            self.wf(),
        ensures
            archive_sorted(previews_view(r@)),
            previews_view(r@).to_multiset() == previews_view(self.0@).to_multiset(),
            forall|i: int| 0 <= i < r@.len() ==> (#[trigger] r@[i]).created.valid(),
    {
        let ghost input = previews_view(self.0@);
        let mut rest = self.0;
        let mut out: Vec<ArticlePreview> = Vec::new();
        assert(previews_view(out@) =~= Seq::<PreviewView>::empty());
        assert(previews_view(out@).to_multiset() =~= Multiset::<PreviewView>::empty());
        assert(previews_view(out@).to_multiset().add(previews_view(rest@).to_multiset())
            =~= input.to_multiset());
        while rest.len() > 0
            invariant
                previews_view(out@).to_multiset().add(previews_view(rest@).to_multiset())
                    == input.to_multiset(),
                archive_sorted(previews_view(out@)),
                forall|i: int, j: int|
                    0 <= i < out@.len() && 0 <= j < rest@.len() ==> !precedes(
                        #[trigger] rest@[j]@,
                        #[trigger] out@[i]@,
                    ),
                forall|i: int| 0 <= i < rest@.len() ==> (#[trigger] rest@[i]).created.valid(),
                forall|i: int| 0 <= i < out@.len() ==> (#[trigger] out@[i]).created.valid(),
            decreases rest@.len(),
        {
            let mut best: usize = 0;
            let mut k: usize = 1;
            while k < rest.len()
                invariant
                    best < k <= rest@.len(),
                    forall|j: int| 0 <= j < k ==> !precedes(#[trigger] rest@[j]@, rest@[best as int]@),
                decreases rest@.len() - k,
            {
                if preview_precedes(&rest[k], &rest[best]) {
                    proof {
                        assert forall|j: int| 0 <= j < k implies !precedes(
                            #[trigger] rest@[j]@,
                            rest@[k as int]@,
                        ) by {
                            if precedes(rest@[j]@, rest@[k as int]@) {
                                lemma_precedes_transitive(
                                    rest@[j]@,
                                    rest@[k as int]@,
                                    rest@[best as int]@,
                                );
                            }
                        }
                    }
                    best = k;
                }
                k = k + 1;
            }
            let ghost rv = previews_view(rest@);
            let ghost ov = previews_view(out@);
            let ghost chosen = rest@[best as int]@;
            let ghost before = rest@;
            let x = rest.remove(best);
            out.push(x);
            assert(previews_view(rest@) =~= rv.remove(best as int));
            assert(previews_view(out@) =~= ov.push(chosen));
            assert(rv[best as int] == chosen);
            assert(rv.contains(chosen));
            assert(rv.to_multiset().count(chosen) > 0);
            assert(previews_view(out@).to_multiset().add(previews_view(rest@).to_multiset())
                =~= input.to_multiset());
            assert forall|i: int, j: int|
                0 <= i < out@.len() && 0 <= j < rest@.len() implies !precedes(
                #[trigger] rest@[j]@,
                #[trigger] out@[i]@,
            ) by {
                if j < best {
                    assert(rest@[j] == before[j]);
                } else {
                    assert(rest@[j] == before[j + 1]);
                }
            }
        }
        assert(previews_view(rest@) =~= Seq::<PreviewView>::empty());
        assert(previews_view(rest@).to_multiset() =~= Multiset::<PreviewView>::empty());
        assert(previews_view(out@).to_multiset() =~= input.to_multiset());
        out
    }

    /// The archive page: the articles newest first under a heading, composed by
    /// `builder` as a plain fragment page.
    pub fn into_html(self, builder: &PageBuilder) -> (r: String)
        requires
            self.wf(),
            builder.wf(),
            builder.html@.len() + 7 * self.0@.len() + 32 <= usize::MAX,
        ensures
            exists|s: Seq<PreviewView>|
                #![trigger archive_tree(s)]
                archive_sorted(s) && s.to_multiset() == previews_view(self.0@).to_multiset() && r@
                    == tree_html(
                    page_tree(
                        builder.html@,
                        builder.head_id as int,
                        builder.slot_id as int,
                        ARCHIVE_TITLE@,
                        archive_tree(s),
                        PageKind::Fragment,
                    ),
                ),
    {
        let ghost n = self.0@.len();
        let sorted = self.into_sorted();
        proof {
            assert(previews_view(sorted@).len() == previews_view(sorted@).to_multiset().len());
        }
        let body = archive_body(&sorted);
        builder.build_page_tree(ARCHIVE_TITLE, &body, PageKind::Fragment)
    }
}

} // verus!