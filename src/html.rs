//! HTML documents as an arena of nodes addressed by stable indices.
//!
//! A node refers to its parent by index, and a parent always has a smaller index
//! than its children; the children of a node are the nodes that name it as parent,
//! in index order. Nodes are only ever added at the end, so an index, once handed
//! out, names the same node for the life of the tree and of every copy of it.

use vstd::prelude::*;
use crate::text::{chars_of, push_char, text_eq};
use scraper::Node as N;

verus! {

/// The namespace of HTML elements.
pub const HTML_NAMESPACE: &'static str = "http://www.w3.org/1999/xhtml";

/// The namespace of MathML elements.
pub const MATHML_NAMESPACE: &'static str = "http://www.w3.org/1998/Math/MathML";

/// What a node is.
#[derive(Debug)]
pub enum NodeKind {
    Document,
    Fragment,
    Doctype { name: String },
    Comment { text: String },
    Text { text: String },
    Element { name: String, namespace: String, attrs: Vec<(String, String)> },
    ProcessingInstruction { target: String, data: String },
}

/// A node kind as mathematical values.
pub enum KindView {
    Document,
    Fragment,
    Doctype { name: Seq<char> },
    Comment { text: Seq<char> },
    Text { text: Seq<char> },
    Element { name: Seq<char>, namespace: Seq<char>, attrs: Seq<(Seq<char>, Seq<char>)> },
    ProcessingInstruction { target: Seq<char>, data: Seq<char> },
}

/// The attributes of an element as pairs of character sequences.
pub open spec fn attrs_view(attrs: Seq<(String, String)>) -> Seq<(Seq<char>, Seq<char>)> {
    Seq::new(attrs.len(), |i: int| (attrs[i].0@, attrs[i].1@))
}

impl View for NodeKind {
    type V = KindView;

    open spec fn view(&self) -> KindView {
        match self {
            NodeKind::Document => KindView::Document,
            NodeKind::Fragment => KindView::Fragment,
            NodeKind::Doctype { name } => KindView::Doctype { name: name@ },
            NodeKind::Comment { text } => KindView::Comment { text: text@ },
            NodeKind::Text { text } => KindView::Text { text: text@ },
            NodeKind::Element { name, namespace, attrs } => KindView::Element {
                name: name@,
                namespace: namespace@,
                attrs: attrs_view(attrs@),
            },
            NodeKind::ProcessingInstruction { target, data } => KindView::ProcessingInstruction {
                target: target@,
                data: data@,
            },
        }
    }
}

/// One node of a tree: its parent, if it has one, and what it is.
#[derive(Debug)]
pub struct HtmlNode {
    pub parent: Option<usize>,
    pub kind: NodeKind,
}

/// A node as mathematical values.
pub struct NodeView {
    pub parent: Option<int>,
    pub kind: KindView,
}

impl View for HtmlNode {
    type V = NodeView;

    open spec fn view(&self) -> NodeView {
        NodeView {
            parent: match self.parent {
                Some(p) => Some(p as int),
                None => None,
            },
            kind: self.kind@,
        }
    }
}

/// A tree of nodes; node 0 is the root.
#[derive(Debug)]
pub struct HtmlTree {
    pub nodes: Vec<HtmlNode>,
}

impl View for HtmlTree {
    type V = Seq<NodeView>;

    open spec fn view(&self) -> Seq<NodeView> {
        Seq::new(self.nodes@.len(), |i: int| self.nodes@[i]@)
    }
}

/// A tree has a root and every parent comes before its children.
pub open spec fn tree_wf(t: Seq<NodeView>) -> bool {
    &&& t.len() >= 1
    &&& forall|k: int|
        0 <= k < t.len() ==> (#[trigger] t[k].parent matches Some(p) ==> 0 <= p < k)
}

/// Node `k` is an element named `name`.
pub open spec fn is_element_named(t: Seq<NodeView>, k: int, name: Seq<char>) -> bool {
    &&& 0 <= k < t.len()
    &&& t[k].kind matches KindView::Element { name: n, .. }
    &&& n == name
}

/// Elements that have no end tag and whose children are not written.
pub open spec fn is_void_name(n: Seq<char>) -> bool {
    n == "area"@ || n == "base"@ || n == "basefont"@ || n == "bgsound"@ || n == "br"@ || n
        == "col"@ || n == "embed"@ || n == "frame"@ || n == "hr"@ || n == "img"@ || n
        == "input"@ || n == "keygen"@ || n == "link"@ || n == "meta"@ || n == "param"@ || n
        == "source"@ || n == "track"@ || n == "wbr"@
}

/// Elements whose text is written as it stands.
pub open spec fn is_raw_text_name(n: Seq<char>) -> bool {
    n == "style"@ || n == "script"@ || n == "xmp"@ || n == "iframe"@ || n == "noembed"@ || n
        == "noframes"@ || n == "plaintext"@
}

/// What a character becomes in written HTML; `attr` for an attribute value.
pub open spec fn escape_char(c: char, attr: bool) -> Seq<char> {
    if c == '&' {
        "&amp;"@
    } else if c == '\u{a0}' {
        "&nbsp;"@
    } else if attr && c == '"' {
        "&quot;"@
    } else if c == '<' {
        "&lt;"@
    } else if c == '>' {
        "&gt;"@
    } else {
        seq![c]
    }
}

/// A text with each character escaped.
pub open spec fn escape(s: Seq<char>, attr: bool) -> Seq<char>
    decreases s.len(),
{
    if s.len() == 0 {
        Seq::empty()
    } else {
        escape(s.drop_last(), attr) + escape_char(s.last(), attr)
    }
}

/// The attributes of a start tag, each as ` name="value"`.
pub open spec fn attrs_html(attrs: Seq<(Seq<char>, Seq<char>)>) -> Seq<char>
    decreases attrs.len(),
{
    if attrs.len() == 0 {
        Seq::empty()
    } else {
        attrs_html(attrs.drop_last()) + " "@ + attrs.last().0 + "=\""@ + escape(attrs.last().1, true)
            + "\""@
    }
}

/// Whether the text at node `k` stands in an element whose text is not escaped.
pub open spec fn in_raw_text(t: Seq<NodeView>, k: int) -> bool {
    &&& t[k].parent matches Some(p)
    &&& 0 <= p < t.len()
    &&& t[p].kind matches KindView::Element { name: n, namespace: ns, .. }
    &&& ns == HTML_NAMESPACE@
    &&& is_raw_text_name(n)
}

/// The HTML text of node `i` and everything under it.
pub open spec fn node_html(t: Seq<NodeView>, i: int) -> Seq<char>
    decreases t.len() - i, t.len() - i + 1,
{
    if i < 0 || i >= t.len() {
        Seq::empty()
    } else {
        match t[i].kind {
            KindView::Document => children_html(t, i, t.len() as int),
            KindView::Fragment => children_html(t, i, t.len() as int),
            KindView::Doctype { name } => "<!DOCTYPE "@ + name + ">"@,
            KindView::Comment { text } => "<!--"@ + text + "-->"@,
            KindView::Text { text } => if in_raw_text(t, i) {
                text
            } else {
                escape(text, false)
            },
            KindView::Element { name, namespace, attrs } => {
                let start = "<"@ + name + attrs_html(attrs) + ">"@;
                if namespace == HTML_NAMESPACE@ && is_void_name(name) {
                    start
                } else {
                    start + children_html(t, i, t.len() as int) + "</"@ + name + ">"@
                }
            },
            KindView::ProcessingInstruction { target, data } => "<?"@ + target + " "@ + data
                + ">"@,
        }
    }
}

/// The HTML text of the children of node `i` among the nodes before index `j`.
pub open spec fn children_html(t: Seq<NodeView>, i: int, j: int) -> Seq<char>
    decreases t.len() - i, j - i,
{
    if i < 0 || j <= i + 1 || j > t.len() {
        Seq::empty()
    } else {
        children_html(t, i, j - 1) + if t[j - 1].parent == Some(i) {
            node_html(t, j - 1)
        } else {
            Seq::empty()
        }
    }
}

/// The HTML text of a whole tree.
pub open spec fn tree_html(t: Seq<NodeView>) -> Seq<char> {
    node_html(t, 0)
}

/// Writes `s` at the end of `out`, escaped.
pub fn push_escaped(out: &mut String, s: &str, attr: bool)
    ensures
        final(out)@ == old(out)@ + escape(s@, attr),
{
    let cs = chars_of(s);
    let ghost start = out@;
    let mut i: usize = 0;
    while i < cs.len()
        invariant
            cs@ == s@,
            i <= cs.len(),
            out@ == start + escape(s@.subrange(0, i as int), attr),
        decreases cs.len() - i,
    {
        let c = cs[i];
        if c == '&' {
            out.append("&amp;");
        } else if c == '\u{a0}' {
            out.append("&nbsp;");
        } else if attr && c == '"' {
            out.append("&quot;");
        } else if c == '<' {
            out.append("&lt;");
        } else if c == '>' {
            out.append("&gt;");
        } else {
            push_char(out, c);
        }
        assert(s@.subrange(0, i + 1).drop_last() =~= s@.subrange(0, i as int));
        i = i + 1;
    }
    assert(s@.subrange(0, i as int) =~= s@);
}

/// Whether `name` is one of the elements without an end tag.
fn is_void(name: &str) -> (r: bool)
    ensures
        r == is_void_name(name@),
{
    text_eq(name, "area") || text_eq(name, "base") || text_eq(name, "basefont") || text_eq(
        name,
        "bgsound",
    ) || text_eq(name, "br") || text_eq(name, "col") || text_eq(name, "embed") || text_eq(
        name,
        "frame",
    ) || text_eq(name, "hr") || text_eq(name, "img") || text_eq(name, "input") || text_eq(
        name,
        "keygen",
    ) || text_eq(name, "link") || text_eq(name, "meta") || text_eq(name, "param") || text_eq(
        name,
        "source",
    ) || text_eq(name, "track") || text_eq(name, "wbr")
}

/// Whether `name` is one of the elements whose text is not escaped.
fn is_raw_text(name: &str) -> (r: bool)
    ensures
        r == is_raw_text_name(name@),
{
    text_eq(name, "style") || text_eq(name, "script") || text_eq(name, "xmp") || text_eq(
        name,
        "iframe",
    ) || text_eq(name, "noembed") || text_eq(name, "noframes") || text_eq(name, "plaintext")
}

/// Writes the attributes of a start tag.
fn push_attrs(out: &mut String, attrs: &Vec<(String, String)>)
    ensures
        final(out)@ == old(out)@ + attrs_html(attrs_view(attrs@)),
{
    let ghost start = out@;
    let mut i: usize = 0;
    while i < attrs.len()
        invariant
            i <= attrs.len(),
            out@ == start + attrs_html(attrs_view(attrs@).subrange(0, i as int)),
        decreases attrs.len() - i,
    {
        out.append(" ");
        out.append(attrs[i].0.as_str());
        out.append("=\"");
        push_escaped(out, attrs[i].1.as_str(), true);
        out.append("\"");
        assert(attrs_view(attrs@).subrange(0, i + 1).drop_last() =~= attrs_view(attrs@).subrange(
            0,
            i as int,
        ));
        i = i + 1;
    }
    assert(attrs_view(attrs@).subrange(0, i as int) =~= attrs_view(attrs@));
}

/// Copies a text.
fn copy_text(s: &String) -> (r: String)
    ensures
        r@ == s@,
{
    s.clone()
}

/// Copies a list of attributes.
fn copy_attrs(attrs: &Vec<(String, String)>) -> (r: Vec<(String, String)>)
    ensures
        attrs_view(r@) == attrs_view(attrs@),
{
    let mut r: Vec<(String, String)> = Vec::new();
    let mut i: usize = 0;
    while i < attrs.len()
        invariant
            i <= attrs.len(),
            r@.len() == i,
            forall|k: int| 0 <= k < i ==> r@[k].0@ == attrs@[k].0@ && r@[k].1@ == attrs@[k].1@,
        decreases attrs.len() - i,
    {
        r.push((copy_text(&attrs[i].0), copy_text(&attrs[i].1)));
        i = i + 1;
    }
    assert(attrs_view(r@) =~= attrs_view(attrs@));
    r
}

impl NodeKind {
    /// A copy of the kind.
    pub fn duplicate(&self) -> (r: NodeKind)
        ensures
            r@ == self@,
    {
        match self {
            NodeKind::Document => NodeKind::Document,
            NodeKind::Fragment => NodeKind::Fragment,
            NodeKind::Doctype { name } => NodeKind::Doctype { name: copy_text(name) },
            NodeKind::Comment { text } => NodeKind::Comment { text: copy_text(text) },
            NodeKind::Text { text } => NodeKind::Text { text: copy_text(text) },
            NodeKind::Element { name, namespace, attrs } => NodeKind::Element {
                name: copy_text(name),
                namespace: copy_text(namespace),
                attrs: copy_attrs(attrs),
            },
            NodeKind::ProcessingInstruction { target, data } => NodeKind::ProcessingInstruction {
                target: copy_text(target),
                data: copy_text(data),
            },
        }
    }

    /// An element of the HTML namespace with the given attributes.
    pub fn html_element(name: &str, attrs: Vec<(String, String)>) -> (r: NodeKind)
        ensures
            r@ == (KindView::Element {
                name: name@,
                namespace: HTML_NAMESPACE@,
                attrs: attrs_view(attrs@),
            }),
    {
        NodeKind::Element { name: name.to_owned(), namespace: HTML_NAMESPACE.to_owned(), attrs }
    }

    /// A text node.
    pub fn text(text: &str) -> (r: NodeKind)
        ensures
            r@ == (KindView::Text { text: text@ }),
    {
        NodeKind::Text { text: text.to_owned() }
    }
}

/// `t` with a node of the given kind added under `parent`.
pub open spec fn appended(t: Seq<NodeView>, parent: int, kind: KindView) -> Seq<NodeView> {
    t.push(NodeView { parent: Some(parent), kind })
}

/// The nodes of `o` as they stand once copied at index `base` with their root under `parent`.
pub open spec fn shifted(o: Seq<NodeView>, parent: int, base: int) -> Seq<NodeView> {
    Seq::new(
        o.len(),
        |k: int|
            NodeView {
                parent: if k == 0 {
                    Some(parent)
                } else {
                    match o[k].parent {
                        Some(q) => Some(q + base),
                        None => None,
                    }
                },
                kind: o[k].kind,
            },
    )
}

/// The first child of `r` at index `j` or later.
pub open spec fn first_child_from(t: Seq<NodeView>, r: int, j: int) -> Option<int>
    decreases t.len() - j,
{
    if j < 0 || j >= t.len() {
        None
    } else if t[j].parent == Some(r) {
        Some(j)
    } else {
        first_child_from(t, r, j + 1)
    }
}

/// `t` with the children of `from` moved under `to`.
pub open spec fn reparented(t: Seq<NodeView>, from: int, to: int) -> Seq<NodeView> {
    Seq::new(
        t.len(),
        |k: int|
            if t[k].parent == Some(from) {
                NodeView { parent: Some(to), kind: t[k].kind }
            } else {
                t[k]
            },
    )
}

/// `t` with node `r` cut from its parent.
pub open spec fn detached(t: Seq<NodeView>, r: int) -> Seq<NodeView> {
    if 0 <= r < t.len() {
        t.update(r, NodeView { parent: None, kind: t[r].kind })
    } else {
        t
    }
}

/// `t` once the fragment `o` is grafted under `target`: `o` is copied under `target`,
/// the children of the wrapper element under the copied root become children of
/// `target`, and the copied root, with the now empty wrapper, is cut off.
pub open spec fn grafted(t: Seq<NodeView>, target: int, o: Seq<NodeView>) -> Seq<NodeView> {
    let r = t.len() as int;
    let t1 = t + shifted(o, target, r);
    let t2 = match first_child_from(t1, r, r + 1) {
        Some(h) => reparented(t1, h, target),
        None => t1,
    };
    detached(t2, r)
}

/// In the tree of a walk, every parent comes before its children.
proof fn lemma_walk_parents(tokens: Seq<TokenView>, k: int)
    ensures
        0 <= k < walk_state(tokens).0.len() ==> (walk_state(tokens).0[k].parent matches Some(p)
            ==> 0 <= p < k),
        forall|j: int|
            0 <= j < walk_state(tokens).1.len() ==> 0 <= #[trigger] walk_state(tokens).1[j]
                < walk_state(tokens).0.len(),
    decreases tokens.len(),
{
    if tokens.len() > 0 {
        lemma_walk_parents(tokens.drop_last(), k);
        let (nodes, open) = walk_state(tokens.drop_last());
        if open.len() > 0 {
            assert(open.last() == open[open.len() - 1]);
        }
    }
}

impl HtmlTree {
    /// Every parent comes before its children, and there is a root.
    pub open spec fn wf(&self) -> bool {
        tree_wf(self@)
    }

    /// A tree of one node.
    pub fn new(root: NodeKind) -> (r: HtmlTree)
        ensures
            r@ == seq![NodeView { parent: None, kind: root@ }],
            r.wf(),
    {
        let mut nodes: Vec<HtmlNode> = Vec::new();
        nodes.push(HtmlNode { parent: None, kind: root });
        let r = HtmlTree { nodes };
        assert(r@ =~= seq![NodeView { parent: None, kind: root@ }]);
        r
    }

    /// The number of nodes, detached ones included.
    pub fn len(&self) -> (r: usize)
        ensures
            r == self@.len(),
    {
        self.nodes.len()
    }

    /// Adds a node of the given kind as the last child of `parent`; returns its index.
    pub fn append(&mut self, parent: usize, kind: NodeKind) -> (r: usize)
        requires
            old(self).wf(),
            parent < old(self)@.len(),
        ensures
            final(self)@ == appended(old(self)@, parent as int, kind@),
            r == old(self)@.len(),
            final(self).wf(),
    {
        let r = self.nodes.len();
        let ghost k = kind@;
        self.nodes.push(HtmlNode { parent: Some(parent), kind });
        assert(self@ =~= appended(old(self)@, parent as int, k));
        r
    }

    /// Copies all of `other` into the tree, its root as the last child of `parent`;
    /// returns the index of the copied root.
    pub fn append_tree(&mut self, parent: usize, other: &HtmlTree) -> (r: usize)
        requires
            old(self).wf(),
            other.wf(),
            parent < old(self)@.len(),
            old(self)@.len() + other@.len() <= usize::MAX,
        ensures
            final(self)@ == old(self)@ + shifted(other@, parent as int, old(self)@.len() as int),
            r == old(self)@.len(),
            final(self).wf(),
    {
        let base = self.nodes.len();
        let ghost t0 = self@;
        let ghost sh = shifted(other@, parent as int, base as int);
        let mut k: usize = 0;
        while k < other.nodes.len()
            invariant
                t0 == old(self)@,
                base == t0.len(),
                tree_wf(t0),
                other.wf(),
                parent < base,
                base + other@.len() <= usize::MAX,
                k <= other@.len(),
                sh == shifted(other@, parent as int, base as int),
                self@ =~= t0 + sh.subrange(0, k as int),
            decreases other@.len() - k,
        {
            assert(other@[k as int].parent matches Some(q) ==> 0 <= q < k);
            assert(other@[k as int] == other.nodes@[k as int]@);
            let p = if k == 0 {
                Some(parent)
            } else {
                match other.nodes[k].parent {
                    Some(q) => Some(q + base),
                    None => None,
                }
            };
            let kind = other.nodes[k].kind.duplicate();
            let node = HtmlNode { parent: p, kind };
            assert(node@ == sh[k as int]);
            let ghost prev = self@;
            let ghost nv = node@;
            self.nodes.push(node);
            assert(self@ =~= prev.push(nv));
            assert(self@ =~= t0 + sh.subrange(0, k + 1));
            k = k + 1;
        }
        assert(sh.subrange(0, k as int) =~= sh);
        assert forall|j: int| 0 <= j < self@.len() implies (#[trigger] self@[j].parent matches Some(
            p,
        ) ==> 0 <= p < j) by {
            if j >= base {
                assert(other@[j - base].parent matches Some(q) ==> 0 <= q < j - base);
            }
        }
        base
    }

    /// The index of the first child of `r` at index `j` or later.
    fn first_child(&self, r: usize, j: usize) -> (c: Option<usize>)
        ensures
            match first_child_from(self@, r as int, j as int) {
                Some(h) => c == Some(h as usize) && j <= h < self@.len(),
                None => c is None,
            },
        decreases self@.len() - j,
    {
        if j >= self.nodes.len() {
            None
        } else if self.nodes[j].parent == Some(r) {
            Some(j)
        } else {
            self.first_child(r, j + 1)
        }
    }

    /// Copies the fragment `fragment` under `target`, moves the children of its
    /// wrapper element to `target`, and cuts the copied root off.
    pub fn graft(&mut self, target: usize, fragment: &HtmlTree)
        requires
            old(self).wf(),
            fragment.wf(),
            target < old(self)@.len(),
            old(self)@.len() + fragment@.len() <= usize::MAX,
        ensures
            final(self)@ == grafted(old(self)@, target as int, fragment@),
            final(self).wf(),
    {
        let r = self.append_tree(target, fragment);
        let ghost t1 = self@;
        if let Some(h) = self.first_child(r, r + 1) {
            let mut k: usize = 0;
            while k < self.nodes.len()
                invariant
                    t1.len() == self@.len(),
                    tree_wf(t1),
                    target < r < h < t1.len(),
                    k <= self@.len(),
                    forall|j: int| 0 <= j < k ==> #[trigger] self@[j] == reparented(t1, h as int, target as int)[j],
                    forall|j: int| k <= j < self@.len() ==> #[trigger] self@[j] == t1[j],
                decreases self@.len() - k,
            {
                let ghost before = self@;
                assert(self@[k as int] == self.nodes@[k as int]@);
                if self.nodes[k].parent == Some(h) {
                    self.nodes[k].parent = Some(target);
                }
                assert(self@ =~= before.update(k as int, reparented(t1, h as int, target as int)[k as int]));
                k = k + 1;
            }
            assert(self@ =~= reparented(t1, h as int, target as int));
        }
        assert(t1 == old(self)@ + shifted(fragment@, target as int, r as int));
        assert(self@ == match first_child_from(t1, r as int, r as int + 1) {
            Some(h) => reparented(t1, h, target as int),
            None => t1,
        });
        let ghost t2 = self@;
        assert(tree_wf(t2)) by {
            assert forall|j: int| 0 <= j < t2.len() implies (#[trigger] t2[j].parent matches Some(
                p,
            ) ==> 0 <= p < j) by {
                assert(t1[j].parent matches Some(p) ==> 0 <= p < j);
            }
        }
        assert(self@[r as int] == self.nodes@[r as int]@);
        self.nodes[r].parent = None;
        assert(self@ =~= detached(t2, r as int));
        assert(tree_wf(self@)) by {
            assert forall|j: int| 0 <= j < self@.len() implies (#[trigger] self@[j].parent matches Some(
                p,
            ) ==> 0 <= p < j) by {
                assert(t2[j].parent matches Some(p) ==> 0 <= p < j);
            }
        }
    }

    /// The index of the last element named `name`, in index order.
    pub fn last_element_named(&self, name: &str) -> (r: Option<usize>)
        ensures
            match r {
                Some(k) => is_element_named(self@, k as int, name@) && forall|j: int|
                    k < j < self@.len() ==> !is_element_named(self@, j, name@),
                None => forall|j: int| 0 <= j < self@.len() ==> !is_element_named(self@, j, name@),
            },
    {
        let mut i: usize = self.nodes.len();
        while i > 0
            invariant
                i <= self@.len(),
                forall|j: int| i <= j < self@.len() ==> !is_element_named(self@, j, name@),
            decreases i,
        {
            i = i - 1;
            if let NodeKind::Element { name: n, .. } = &self.nodes[i].kind {
                if text_eq(n.as_str(), name) {
                    return Some(i);
                }
            }
        }
        None
    }

    /// A copy of the tree; an index names the same node in both trees.
    pub fn duplicate(&self) -> (r: HtmlTree)
        ensures
            r@ == self@,
    {
        let mut nodes: Vec<HtmlNode> = Vec::new();
        let mut k: usize = 0;
        while k < self.nodes.len()
            invariant
                k <= self@.len(),
                nodes@.len() == k,
                forall|j: int| 0 <= j < k ==> #[trigger] nodes@[j]@ == self@[j],
            decreases self@.len() - k,
        {
            nodes.push(HtmlNode { parent: self.nodes[k].parent, kind: self.nodes[k].kind.duplicate() });
            k = k + 1;
        }
        let r = HtmlTree { nodes };
        assert(r@ =~= self@);
        r
    }

    /// Whether the text at node `i` stands in an element whose text is not escaped.
    fn text_is_raw(&self, i: usize) -> (r: bool)
        requires
            self.wf(),
            i < self@.len(),
        ensures
            r == in_raw_text(self@, i as int),
    {
        assert(self@[i as int].parent matches Some(q) ==> 0 <= q < i);
        assert(self@[i as int] == self.nodes@[i as int]@);
        match self.nodes[i].parent {
            Some(p) => match &self.nodes[p].kind {
                NodeKind::Element { name, namespace, .. } => text_eq(
                    namespace.as_str(),
                    HTML_NAMESPACE,
                ) && is_raw_text(name.as_str()),
                _ => false,
            },
            None => false,
        }
    }

    /// Writes the children of node `i`.
    fn write_children(&self, i: usize, out: &mut String)
        requires
            self.wf(),
            i < self@.len(),
        ensures
            final(out)@ == old(out)@ + children_html(self@, i as int, self@.len() as int),
        decreases self@.len() - i, 0nat,
    {
        let ghost start = out@;
        let n = self.nodes.len();
        let mut j: usize = i + 1;
        while j < self.nodes.len()
            invariant
                self.wf(),
                i < j <= self@.len(),
                out@ == start + children_html(self@, i as int, j as int),
            decreases self@.len() - j,
        {
            if self.nodes[j].parent == Some(i) {
                self.write_node(j, out);
            }
            j = j + 1;
        }
    }

    /// Writes node `i` and everything under it.
    fn write_node(&self, i: usize, out: &mut String)
        requires
            self.wf(),
            i < self@.len(),
        ensures
            final(out)@ == old(out)@ + node_html(self@, i as int),
        decreases self@.len() - i, 1nat,
    {
        match &self.nodes[i].kind {
            NodeKind::Document | NodeKind::Fragment => self.write_children(i, out),
            NodeKind::Doctype { name } => {
                out.append("<!DOCTYPE ");
                out.append(name.as_str());
                out.append(">");
            },
            NodeKind::Comment { text } => {
                out.append("<!--");
                out.append(text.as_str());
                out.append("-->");
            },
            NodeKind::Text { text } => {
                if self.text_is_raw(i) {
                    out.append(text.as_str());
                } else {
                    push_escaped(out, text.as_str(), false);
                }
            },
            NodeKind::Element { name, namespace, attrs } => {
                out.append("<");
                out.append(name.as_str());
                push_attrs(out, attrs);
                out.append(">");
                if !(text_eq(namespace.as_str(), HTML_NAMESPACE) && is_void(name.as_str())) {
                    self.write_children(i, out);
                    out.append("</");
                    out.append(name.as_str());
                    out.append(">");
                }
            },
            NodeKind::ProcessingInstruction { target, data } => {
                out.append("<?");
                out.append(target.as_str());
                out.append(" ");
                out.append(data.as_str());
                out.append(">");
            },
        }
    }

    /// The HTML text of the whole tree.
    pub fn to_html(&self) -> (r: String)
        requires
            self.wf(),
        ensures
            r@ == tree_html(self@),
    {
        let mut out = String::new();
        self.write_node(0, &mut out);
        out
    }
}

/// One step of a walk over a parsed tree: a node opens before its children and
/// closes after them.
/// An opening step carries the node and, for an element, the namespace of each of
/// its attributes (empty for none), in the order of the attributes.
#[derive(Debug)]
pub enum HtmlToken {
    Open(NodeKind, Vec<String>),
    Close,
}

/// A walk step as mathematical values.
pub enum TokenView {
    Open(KindView, Seq<Seq<char>>),
    Close,
}

/// The namespace of the `xml:` attributes.
pub const XML_NAMESPACE: &'static str = "http://www.w3.org/XML/1998/namespace";

/// The namespace of the `xmlns` attributes.
pub const XMLNS_NAMESPACE: &'static str = "http://www.w3.org/2000/xmlns/";

/// The namespace of the `xlink:` attributes.
pub const XLINK_NAMESPACE: &'static str = "http://www.w3.org/1999/xlink";

/// The prefix written before an attribute's local name for its namespace.
pub open spec fn attr_prefix(ns: Seq<char>, local: Seq<char>) -> Seq<char> {
    if ns.len() == 0 {
        Seq::empty()
    } else if ns == XML_NAMESPACE@ {
        "xml:"@
    } else if ns == XMLNS_NAMESPACE@ {
        if local == "xmlns"@ {
            Seq::empty()
        } else {
            "xmlns:"@
        }
    } else if ns == XLINK_NAMESPACE@ {
        "xlink:"@
    } else {
        "unknown_namespace:"@
    }
}

/// An element's attributes with their names written with their namespace prefix.
pub open spec fn prefixed_kind(k: KindView, nss: Seq<Seq<char>>) -> KindView {
    match k {
        KindView::Element { name, namespace, attrs } => KindView::Element {
            name,
            namespace,
            attrs: Seq::new(
                attrs.len(),
                |i: int|
                    (
                        if i < nss.len() {
                            attr_prefix(nss[i], attrs[i].0)
                        } else {
                            Seq::empty()
                        } + attrs[i].0,
                        attrs[i].1,
                    ),
            ),
        },
        _ => k,
    }
}

/// The prefix written before an attribute's local name for its namespace.
fn attr_prefix_text(ns: &str, local: &str) -> (r: String)
    ensures
        r@ == attr_prefix(ns@, local@),
{
    if ns.unicode_len() == 0 {
        proof {
            reveal_strlit("");
        }
        "".to_owned()
    } else if text_eq(ns, XML_NAMESPACE) {
        "xml:".to_owned()
    } else if text_eq(ns, XMLNS_NAMESPACE) {
        if text_eq(local, "xmlns") {
            proof {
                reveal_strlit("");
            }
            "".to_owned()
        } else {
            "xmlns:".to_owned()
        }
    } else if text_eq(ns, XLINK_NAMESPACE) {
        "xlink:".to_owned()
    } else {
        "unknown_namespace:".to_owned()
    }
}

/// A copy of the kind with its attribute names written with their prefixes.
fn prefixed(kind: &NodeKind, nss: &Vec<String>) -> (r: NodeKind)
    ensures
        r@ == prefixed_kind(kind@, Seq::new(nss@.len(), |i: int| nss@[i]@)),
{
    match kind {
        NodeKind::Element { name, namespace, attrs } => {
            let ghost nv = Seq::new(nss@.len(), |i: int| nss@[i]@);
            let ghost target = prefixed_kind(kind@, nv)->Element_attrs;
            let mut out: Vec<(String, String)> = Vec::new();
            let mut i: usize = 0;
            while i < attrs.len()
                invariant
                    i <= attrs@.len(),
                    nv == Seq::new(nss@.len(), |i: int| nss@[i]@),
                    kind@ == (KindView::Element {
                        name: name@,
                        namespace: namespace@,
                        attrs: attrs_view(attrs@),
                    }),
                    target == prefixed_kind(kind@, nv)->Element_attrs,
                    attrs_view(out@) == target.subrange(0, i as int),
                decreases attrs@.len() - i,
            {
                let mut n = if i < nss.len() {
                    attr_prefix_text(nss[i].as_str(), attrs[i].0.as_str())
                } else {
                    String::new()
                };
                n.append(attrs[i].0.as_str());
                let v = copy_text(&attrs[i].1);
                let ghost before = attrs_view(out@);
                out.push((n, v));
                assert(attrs_view(out@) =~= before.push(target[i as int]));
                assert(target.subrange(0, i + 1) =~= target.subrange(0, i as int).push(
                    target[i as int],
                ));
                i = i + 1;
            }
            assert(target.subrange(0, i as int) =~= target);
            let r = NodeKind::Element {
                name: copy_text(name),
                namespace: copy_text(namespace),
                attrs: out,
            };
            r
        },
        _ => kind.duplicate(),
    }
}

impl View for HtmlToken {
    type V = TokenView;

    open spec fn view(&self) -> TokenView {
        match self {
            HtmlToken::Open(k, nss) => TokenView::Open(k@, Seq::new(nss@.len(), |i: int| nss@[i]@)),
            HtmlToken::Close => TokenView::Close,
        }
    }
}

/// The nodes built and the indices of the nodes still open, after the walk
/// `tokens`: an opened node becomes the last child of the innermost node still
/// open, or of the first node when none is.
pub open spec fn walk_state(tokens: Seq<TokenView>) -> (Seq<NodeView>, Seq<int>)
    decreases tokens.len(),
{
    if tokens.len() == 0 {
        (Seq::empty(), Seq::empty())
    } else {
        let (nodes, open) = walk_state(tokens.drop_last());
        match tokens.last() {
            TokenView::Open(k, nss) => {
                let parent = if nodes.len() == 0 {
                    None
                } else if open.len() == 0 {
                    Some(0int)
                } else {
                    Some(open.last())
                };
                (
                    nodes.push(NodeView { parent, kind: prefixed_kind(k, nss) }),
                    open.push(nodes.len() as int),
                )
            },
            TokenView::Close => (nodes, if open.len() > 0 {
                open.drop_last()
            } else {
                open
            }),
        }
    }
}

/// The tree that a walk describes; a lone fragment root when it opens nothing.
pub open spec fn walk_tree(tokens: Seq<TokenView>) -> Seq<NodeView> {
    let nodes = walk_state(tokens).0;
    if nodes.len() == 0 {
        seq![NodeView { parent: None, kind: KindView::Fragment }]
    } else {
        nodes
    }
}

/// The kinds of the nodes of a tree, in index order.
pub open spec fn kinds_of(t: Seq<NodeView>) -> Seq<KindView> {
    Seq::new(t.len(), |k: int| t[k].kind)
}

/// Whether the parser reads `input` as an HTML fragment without any error.
pub uninterp spec fn fragment_parses(input: Seq<char>) -> bool;

/// The walk over the tree that the parser builds from `input`.
pub uninterp spec fn fragment_walk(input: Seq<char>) -> Seq<TokenView>;

#[verifier::external_type_specification]
#[verifier::external_body]
pub struct ExScraperNode(scraper::Node);

/// Relies on the variants of scraper's `Node` and their accessors (`Doctype::name`,
/// `Element::name`, `Element::attrs`, the text of comments and text nodes): gives
/// the node as a [`NodeKind`], field by field.
#[verifier::external_body]
fn node_kind(node: &scraper::Node) -> NodeKind {
    match node {
        N::Document => NodeKind::Document,
        N::Fragment => NodeKind::Fragment,
        N::Doctype(d) => NodeKind::Doctype { name: d.name().into() },
        N::Comment(c) => NodeKind::Comment { text: c.to_string() },
        N::Text(t) => NodeKind::Text { text: t.to_string() },
        N::Element(e) => NodeKind::Element {
            name: e.name().into(),
            namespace: e.name.ns.to_string(),
            attrs: e.attrs().map(|(k, v)| (k.into(), v.into())).collect(),
        },
        N::ProcessingInstruction(p) => NodeKind::ProcessingInstruction { target: p.target.to_string(), data: p.data.to_string() },
    }
}

/// Relies on scraper's `Element::attrs` field, the attributes with their qualified
/// names in the order `Element::attrs()` walks them: gives each one's namespace.
#[verifier::external_body]
fn attr_namespaces(node: &scraper::Node) -> Vec<String> {
    match node {
        N::Element(e) => e.attrs.iter().map(|(q, _)| q.ns.to_string()).collect(),
        _ => Vec::new(),
    }
}

/// Relies on scraper's `Html::parse_fragment`, which records every parse error in
/// `errors` rather than falling back silently, and on ego_tree's `traverse`, which
/// walks the tree from its root in document order.
#[verifier::external_body]
fn parse_fragment_walk(input: &str) -> (r: Result<Vec<HtmlToken>, String>)
    ensures
        r is Ok == fragment_parses(input@),
        r matches Ok(v) ==> Seq::new(v@.len(), |i: int| v@[i]@) == fragment_walk(input@),
{
    let html = scraper::Html::parse_fragment(input);
    if let Some(e) = html.errors.first() {
        return Err(e.to_string());
    }
    Ok(html.tree.root().traverse().map(|edge| match edge {
        ego_tree::iter::Edge::Open(n) => HtmlToken::Open(node_kind(n.value()), attr_namespaces(n.value())),
        ego_tree::iter::Edge::Close(_) => HtmlToken::Close,
    }).collect())
}

impl HtmlTree {
    /// Rebuilds a tree from a walk over it: each opened node becomes a child of the
    /// innermost node still open (of the first node when none is), in order. A walk
    /// that opens nothing gives a lone fragment root.
    pub fn from_walk(tokens: &Vec<HtmlToken>) -> (r: HtmlTree)
        ensures
            r.wf(),
            r@ == walk_tree(Seq::new(tokens@.len(), |i: int| tokens@[i]@)),
    {
        let ghost tv = Seq::new(tokens@.len(), |i: int| tokens@[i]@);
        let mut nodes: Vec<HtmlNode> = Vec::new();
        let mut open: Vec<usize> = Vec::new();
        let mut i: usize = 0;
        while i < tokens.len()
            invariant
                tv == Seq::new(tokens@.len(), |i: int| tokens@[i]@),
                i <= tokens@.len(),
                nodes@.len() <= i,
                forall|k: int| 0 <= k < open@.len() ==> #[trigger] open@[k] < nodes@.len(),
                Seq::new(nodes@.len(), |k: int| nodes@[k]@) == walk_state(tv.subrange(0, i as int)).0,
                open@.map_values(|x: usize| x as int) == walk_state(tv.subrange(0, i as int)).1,
            decreases tokens@.len() - i,
        {
            let ghost before = Seq::new(nodes@.len(), |k: int| nodes@[k]@);
            let ghost open_before = open@.map_values(|x: usize| x as int);
            assert(tv.subrange(0, i + 1).drop_last() =~= tv.subrange(0, i as int));
            match &tokens[i] {
                HtmlToken::Open(kind, nss) => {
                    let parent = if nodes.len() == 0 {
                        None
                    } else if open.len() == 0 {
                        Some(0)
                    } else {
                        Some(open[open.len() - 1])
                    };
                    let idx = nodes.len();
                    let k = prefixed(kind, nss);
                    let node = HtmlNode { parent, kind: k };
                    let ghost nv = node@;
                    nodes.push(node);
                    open.push(idx);
                    assert(Seq::new(nodes@.len(), |k: int| nodes@[k]@) =~= before.push(nv));
                    assert(open@.map_values(|x: usize| x as int) =~= open_before.push(idx as int));
                },
                HtmlToken::Close => {
                    if open.len() > 0 {
                        open.pop();
                        assert(open@.map_values(|x: usize| x as int) =~= open_before.drop_last());
                    }
                    assert(Seq::new(nodes@.len(), |k: int| nodes@[k]@) =~= before);
                },
            }
            i = i + 1;
        }
        assert(tv.subrange(0, i as int) =~= tv);
        if nodes.len() == 0 {
            nodes.push(HtmlNode { parent: None, kind: NodeKind::Fragment });
        }
        let r = HtmlTree { nodes };
        assert(r@ =~= walk_tree(tv));
        assert forall|k: int| 0 <= k < r@.len() implies (#[trigger] r@[k].parent matches Some(
            p,
        ) ==> 0 <= p < k) by {
            lemma_walk_parents(tv, k);
        }
        r
    }

    /// Parses an HTML fragment; fails on the first parse error that the parser reports.
    pub fn parse_fragment(input: &str) -> (r: Result<HtmlTree, String>)
        ensures
            r is Ok == fragment_parses(input@),
            r matches Ok(t) ==> t.wf() && t@ == walk_tree(fragment_walk(input@)),
    {
        match parse_fragment_walk(input) {
            Ok(tokens) => Ok(HtmlTree::from_walk(&tokens)),
            Err(e) => Err(e),
        }
    }
}

} // verus!
