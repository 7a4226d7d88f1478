//! XHTML content documents as DOM trees: the body's elements and non-blank
//! text become nodes with CFI anchors, read from the document's XML events.
use vstd::prelude::*;
use crate::epub_paths::{build_cfi, cfi_of, local_name, local_name_of, lowered, node_type_for, tag_to_node_type};
use crate::text::{chars_of, is_blank, trim, skip_ws_forward, vec_eq_str};
use crate::toc::{sat_inc};
use crate::types::{DomNode, NodeType};
use crate::xml::{attrs_view, event_view, events_view, XmlEvent, XmlEventView};

verus! {

/// A DOM node as plain values.
pub struct DomView {
    pub node_type: NodeType,
    pub cfi: Option<Seq<char>>,
    pub text: Option<Seq<char>>,
    pub attrs: Seq<(Seq<char>, Seq<char>)>,
    pub children: Seq<DomView>,
}

pub open spec fn opt_view(o: Option<String>) -> Option<Seq<char>> {
    match o {
        Some(s) => Some(s@),
        None => None,
    }
}

pub open spec fn dom_view(n: DomNode) -> DomView
    decreases n,
{
    DomView {
        node_type: n.node_type,
        cfi: opt_view(n.cfi_anchor),
        text: opt_view(n.text),
        attrs: attrs_view(n.attributes@),
        children: dom_views(n.children@),
    }
}

pub open spec fn dom_views(s: Seq<DomNode>) -> Seq<DomView>
    decreases s,
{
    if s.len() == 0 {
        Seq::empty()
    } else {
        dom_views(s.drop_last()).push(dom_view(s.last()))
    }
}

pub proof fn lemma_dom_views_push(v: Seq<DomNode>, e: DomNode)
    ensures
        dom_views(v.push(e)) == dom_views(v).push(dom_view(e)),
{
    assert(v.push(e).drop_last() == v);
}

/// The state of reading a content document: the finished top-level nodes,
/// the stack of open elements, the CFI counters (one per open level, the
/// root's first) and whether the body is open.
pub struct DomBuild {
    pub roots: Seq<DomView>,
    pub open: Seq<DomView>,
    pub counters: Seq<u32>,
    pub in_body: bool,
}

pub open spec fn dom_start() -> DomBuild {
    DomBuild { roots: Seq::empty(), open: Seq::empty(), counters: seq![0u32], in_body: false }
}

/// The counters with the innermost one advanced (none when there is none).
pub open spec fn bump(c: Seq<u32>) -> Seq<u32> {
    if c.len() > 0 { c.update(c.len() - 1, sat_inc(c.last())) } else { c }
}

/// The state after a finished node is attached: to the innermost open
/// element, or at the top level when none is open.
pub open spec fn attach(b: DomBuild, n: DomView) -> DomBuild {
    if b.open.len() > 0 {
        let p = b.open.last();
        DomBuild { open: b.open.update(b.open.len() - 1, DomView { children: p.children.push(n), ..p }), ..b }
    } else {
        DomBuild { roots: b.roots.push(n), ..b }
    }
}

/// One step of reading a content document. Elements inside the body open a
/// node typed by their tag; text that is not blank becomes a text node;
/// self-closing elements become childless nodes; every node gets the CFI of
/// the counters after the innermost one is advanced. A closing element
/// attaches its node to its parent.
pub open spec fn dom_step(b: DomBuild, e: XmlEventView) -> DomBuild {
    match e {
        XmlEventView::Start(name, attrs) => {
            let tag = local_name(name);
            if tag == "body"@ {
                DomBuild { in_body: true, ..b }
            } else if !b.in_body {
                b
            } else {
                let c = bump(b.counters);
                let n = DomView {
                    node_type: node_type_for(lowered(tag)),
                    cfi: Some(cfi_of(c)),
                    text: None,
                    attrs,
                    children: Seq::empty(),
                };
                DomBuild { open: b.open.push(n), counters: c.push(0u32), ..b }
            }
        },
        XmlEventView::Text(t) => if b.in_body && !is_blank(t, 0, t.len() as int) {
            let c = bump(b.counters);
            let n = DomView {
                node_type: NodeType::Text,
                cfi: Some(cfi_of(c)),
                text: Some(t),
                attrs: Seq::empty(),
                children: Seq::empty(),
            };
            attach(DomBuild { counters: c, ..b }, n)
        } else {
            b
        },
        XmlEventView::Empty(name, attrs) => if b.in_body {
            let tag = local_name(name);
            let c = bump(b.counters);
            let n = DomView {
                node_type: node_type_for(lowered(tag)),
                cfi: Some(cfi_of(c)),
                text: None,
                attrs,
                children: Seq::empty(),
            };
            attach(DomBuild { counters: c, ..b }, n)
        } else {
            b
        },
        XmlEventView::End(name) => {
            let tag = local_name(name);
            if tag == "body"@ {
                DomBuild { in_body: false, ..b }
            } else if !b.in_body {
                b
            } else {
                let c = if b.counters.len() > 0 { b.counters.drop_last() } else { b.counters };
                if b.open.len() > 0 {
                    attach(DomBuild { open: b.open.drop_last(), counters: c, ..b }, b.open.last())
                } else {
                    DomBuild { counters: c, ..b }
                }
            }
        },
        XmlEventView::Other => b,
    }
}

pub open spec fn dom_after(events: Seq<XmlEventView>) -> DomBuild
    decreases events.len(),
{
    if events.len() == 0 {
        dom_start()
    } else {
        dom_step(dom_after(events.drop_last()), events.last())
    }
}

fn is_str(a: &String, b: &str) -> (r: bool)
    ensures
        r == (a@ == b@),
{
    let v = chars_of(a.as_str());
    vec_eq_str(&v, b)
}

fn bump_exec(c: &mut Vec<u32>)
    ensures
        final(c)@ == bump(old(c)@),
{
    let n = c.len();
    if n > 0 {
        let v = c[n - 1];
        let w = if v == u32::MAX { v } else { v + 1 };
        c.set(n - 1, w);
    }
}

/// A copy of an attribute list.
pub fn clone_attrs(a: &Vec<(String, String)>) -> (r: Vec<(String, String)>)
    ensures
        attrs_view(r@) == attrs_view(a@),
{
    let mut out: Vec<(String, String)> = Vec::new();
    let mut k: usize = 0;
    while k < a.len()
        invariant
            k <= a.len(),
            attrs_view(out@) == attrs_view(a@.subrange(0, k as int)),
        decreases a.len() - k,
    {
        let ghost before = out@;
        out.push((a[k].0.clone(), a[k].1.clone()));
        assert(attrs_view(out@) == attrs_view(before).push((a@[k as int].0@, a@[k as int].1@)));
        assert(attrs_view(a@.subrange(0, k + 1)) == attrs_view(a@.subrange(0, k as int)).push(
            (a@[k as int].0@, a@[k as int].1@),
        ));
        k = k + 1;
    }
    assert(a@.subrange(0, a@.len() as int) == a@);
    out
}

struct Builder {
    roots: Vec<DomNode>,
    open: Vec<DomNode>,
    counters: Vec<u32>,
    in_body: bool,
}

impl Builder {
    spec fn view(&self) -> DomBuild {
        DomBuild {
            roots: dom_views(self.roots@),
            open: dom_views(self.open@),
            counters: self.counters@,
            in_body: self.in_body,
        }
    }

    fn attach(&mut self, n: DomNode)
        ensures
            final(self).view() == attach(old(self).view(), dom_view(n)),
    {
        match self.open.pop() {
            Some(mut parent) => {
                let ghost ov = dom_views(self.open@);
                let ghost pv = dom_view(parent);
                proof {
                    lemma_dom_views_push(self.open@, parent);
                }
                assert(self.open@.push(parent) == old(self).open@);
                assert(dom_views(old(self).open@) == ov.push(pv));
                proof {
                    lemma_dom_views_push(parent.children@, n);
                }
                parent.children.push(n);
                assert(dom_view(parent) == (DomView { children: pv.children.push(dom_view(n)), ..pv }));
                proof {
                    lemma_dom_views_push(self.open@, parent);
                }
                self.open.push(parent);
                assert(dom_views(self.open@) == ov.push(dom_view(parent)));
                assert(ov.push(pv).update(ov.len() as int, dom_view(parent)) == ov.push(dom_view(parent)));
            },
            None => {
                assert(old(self).open@.len() == 0);
                proof {
                    lemma_dom_views_push(self.roots@, n);
                }
                self.roots.push(n);
            },
        }
    }
}

/// Parse the XML events of an XHTML content document into DOM nodes: the
/// top-level nodes of its body (elements still open at the end are dropped).
pub fn dom_from_events(events: &Vec<XmlEvent>) -> (nodes: Vec<DomNode>)
    ensures
        dom_views(nodes@) == dom_after(events_view(events@)).roots,
{
    let mut counters: Vec<u32> = Vec::new();
    counters.push(0);
    let mut b = Builder { roots: Vec::new(), open: Vec::new(), counters, in_body: false };
    assert(dom_views(b.roots@) == Seq::<DomView>::empty());
    assert(dom_views(b.open@) == Seq::<DomView>::empty());
    assert(b.counters@ == seq![0u32]);
    let mut k: usize = 0;
    while k < events.len()
        invariant
            k <= events.len(),
            b.view() == dom_after(events_view(events@.subrange(0, k as int))),
        decreases events.len() - k,
    {
        let ghost pre = events_view(events@.subrange(0, k as int));
        let ghost post = events_view(events@.subrange(0, k + 1));
        assert(post.drop_last() == pre);
        assert(post.last() == event_view(events@[k as int]));
        let ghost before = b.view();
        match &events[k] {
            XmlEvent::Start((name, attrs)) => {
                let tag = local_name_of(name.as_str());
                if is_str(&tag, "body") {
                    b.in_body = true;
                } else if b.in_body {
                    bump_exec(&mut b.counters);
                    let node_type = tag_to_node_type(tag.as_str());
                    let cfi = build_cfi(b.counters.as_slice());
                    let n = DomNode {
                        node_type,
                        cfi_anchor: Some(cfi),
                        text: None,
                        attributes: clone_attrs(attrs),
                        children: Vec::new(),
                    };
                    assert(dom_views(n.children@) == Seq::<DomView>::empty());
                    proof {
                        lemma_dom_views_push(b.open@, n);
                    }
                    b.open.push(n);
                    b.counters.push(0);
                }
                assert(b.view() == dom_step(before, event_view(events@[k as int])));
            },
            XmlEvent::Text(t) => {
                if b.in_body {
                    let tc = chars_of(t.as_str());
                    let a = skip_ws_forward(&tc, 0, tc.len());
                    if a < tc.len() {
                        bump_exec(&mut b.counters);
                        let cfi = build_cfi(b.counters.as_slice());
                        let n = DomNode {
                            node_type: NodeType::Text,
                            cfi_anchor: Some(cfi),
                            text: Some(t.clone()),
                            attributes: Vec::new(),
                            children: Vec::new(),
                        };
                        assert(dom_views(n.children@) == Seq::<DomView>::empty());
                        assert(attrs_view(n.attributes@) == Seq::<(Seq<char>, Seq<char>)>::empty());
                        b.attach(n);
                    }
                }
                assert(b.view() == dom_step(before, event_view(events@[k as int])));
            },
            XmlEvent::Empty((name, attrs)) => {
                if b.in_body {
                    let tag = local_name_of(name.as_str());
                    bump_exec(&mut b.counters);
                    let node_type = tag_to_node_type(tag.as_str());
                    let cfi = build_cfi(b.counters.as_slice());
                    let n = DomNode {
                        node_type,
                        cfi_anchor: Some(cfi),
                        text: None,
                        attributes: clone_attrs(attrs),
                        children: Vec::new(),
                    };
                    assert(dom_views(n.children@) == Seq::<DomView>::empty());
                    b.attach(n);
                }
                assert(b.view() == dom_step(before, event_view(events@[k as int])));
            },
            XmlEvent::End(name) => {
                let tag = local_name_of(name.as_str());
                if is_str(&tag, "body") {
                    b.in_body = false;
                } else if b.in_body {
                    b.counters.pop();
                    let ghost open_before = b.open@;
                    match b.open.pop() {
                        Some(node) => {
                            proof {
                                lemma_dom_views_push(b.open@, node);
                                assert(b.open@.push(node) == open_before);
                                assert(before.open.drop_last() == dom_views(b.open@));
                                assert(before.open.last() == dom_view(node));
                                assert(before.open.len() > 0);
                            }
                            let ghost mid = b.view();
                            assert(mid == (DomBuild { open: before.open.drop_last(), counters: mid.counters, ..before }));
                            b.attach(node);
                            assert(b.view() == attach(mid, dom_view(node)));
                        },
                        None => {
                            assert(open_before.len() == 0);
                            assert(dom_views(open_before) == Seq::<DomView>::empty());
                        },
                    }
                }
                assert(b.view() == dom_step(before, event_view(events@[k as int])));
            },
            XmlEvent::Other => {},
        }
        assert(b.view() == dom_step(before, event_view(events@[k as int])));
        k = k + 1;
    }
    assert(events@.subrange(0, events@.len() as int) == events@);
    b.roots
}

} // verus!
