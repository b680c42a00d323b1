use vstd::prelude::*;

verus! {

/// One attribute of a markup element: a name and a raw (unresolved) value.
pub struct Attr {
    pub name: Vec<char>,
    pub value: Vec<char>,
}

/// Mathematical model of an attribute.
pub struct AttrV {
    pub name: Seq<char>,
    pub value: Seq<char>,
}

impl View for Attr {
    type V = AttrV;

    open spec fn view(&self) -> AttrV {
        AttrV { name: self.name@, value: self.value@ }
    }
}

pub open spec fn attr_seq_view(s: Seq<Attr>) -> Seq<AttrV> {
    s.map_values(|a: Attr| a@)
}

/// One node of a markup tree: an element with attributes and children, raw
/// character data, or an ignorable node (comment or processing instruction).
pub enum MarkupNode {
    Element { name: Vec<char>, attrs: Vec<Attr>, children: Vec<MarkupNode> },
    Text { text: Vec<char> },
    Other,
}

/// Mathematical model of a markup node.
pub enum NodeV {
    Element { name: Seq<char>, attrs: Seq<AttrV>, children: Seq<NodeV> },
    Text { text: Seq<char> },
    Other,
}

pub open spec fn node_view(n: MarkupNode) -> NodeV
    decreases n,
{
    match n {
        MarkupNode::Element { name, attrs, children } => NodeV::Element {
            name: name@,
            attrs: attr_seq_view(attrs@),
            children: nodes_view(children@),
        },
        MarkupNode::Text { text } => NodeV::Text { text: text@ },
        MarkupNode::Other => NodeV::Other,
    }
}

pub open spec fn nodes_view(s: Seq<MarkupNode>) -> Seq<NodeV>
    decreases s,
{
    if s.len() == 0 {
        Seq::empty()
    } else {
        seq![node_view(s[0])] + nodes_view(s.drop_first())
    }
}

pub proof fn lemma_nodes_view_len(s: Seq<MarkupNode>)
    ensures
        nodes_view(s).len() == s.len(),
    decreases s,
{
    if s.len() > 0 {
        lemma_nodes_view_len(s.drop_first());
    }
}

pub proof fn lemma_nodes_view_index(s: Seq<MarkupNode>, i: int)
    requires
        0 <= i < s.len(),
    ensures
        nodes_view(s).len() == s.len(),
        nodes_view(s)[i] == node_view(s[i]),
    decreases s,
{
    lemma_nodes_view_len(s);
    if i > 0 {
        lemma_nodes_view_index(s.drop_first(), i - 1);
    }
}

/// Node forests with pointwise-equal node views have equal views.
pub proof fn lemma_nodes_view_ext(a: Seq<MarkupNode>, b: Seq<MarkupNode>)
    requires
        a.len() == b.len(),
        forall|k: int| 0 <= k < a.len() ==> node_view(#[trigger] a[k]) == node_view(b[k]),
    ensures
        nodes_view(a) == nodes_view(b),
{
    lemma_nodes_view_len(a);
    lemma_nodes_view_len(b);
    assert forall|k: int| 0 <= k < nodes_view(a).len() implies nodes_view(a)[k] == nodes_view(
        b,
    )[k] by {
        lemma_nodes_view_index(a, k);
        lemma_nodes_view_index(b, k);
    }
    assert(nodes_view(a) =~= nodes_view(b));
}

/// Deep-copies one markup node; the copy has the same view.
pub fn clone_node(n: &MarkupNode) -> (r: MarkupNode)
    ensures
        node_view(r) == node_view(*n),
    decreases *n,
{
    match n {
        MarkupNode::Other => MarkupNode::Other,
        MarkupNode::Text { text } => MarkupNode::Text { text: crate::text::clone_chars(text) },
        MarkupNode::Element { name, attrs, children } => {
            let name2 = crate::text::clone_chars(name);
            let mut attrs2: Vec<Attr> = Vec::new();
            let mut k: usize = 0;
            while k < attrs.len()
                invariant
                    0 <= k <= attrs@.len(),
                    attrs2@.len() == k,
                    forall|idx: int| 0 <= idx < k ==> attrs2@[idx]@ == attrs@[idx]@,
                decreases attrs@.len() - k,
            {
                let a = &attrs[k];
                let an = crate::text::clone_chars(&a.name);
                let av = crate::text::clone_chars(&a.value);
                attrs2.push(Attr { name: an, value: av });
                k += 1;
            }
            proof {
                assert(attr_seq_view(attrs2@) =~= attr_seq_view(attrs@));
            }
            let children2 = clone_nodes(children);
            MarkupNode::Element { name: name2, attrs: attrs2, children: children2 }
        },
    }
}

/// Deep-copies a markup forest; the copy has the same view.
pub fn clone_nodes(v: &Vec<MarkupNode>) -> (r: Vec<MarkupNode>)
    ensures
        nodes_view(r@) == nodes_view(v@),
    decreases v@,
{
    let mut r: Vec<MarkupNode> = Vec::new();
    let mut k: usize = 0;
    while k < v.len()
        invariant
            0 <= k <= v@.len(),
            r@.len() == k,
            forall|idx: int| 0 <= idx < k ==> node_view(#[trigger] r@[idx]) == node_view(v@[idx]),
        decreases v@.len() - k,
    {
        let c = clone_node(&v[k]);
        r.push(c);
        k += 1;
    }
    proof {
        lemma_nodes_view_ext(r@, v@);
    }
    r
}

/// The root forest of a parsed markup document.
pub struct MarkupTree {
    pub roots: Vec<MarkupNode>,
}

impl View for MarkupTree {
    type V = Seq<NodeV>;

    open spec fn view(&self) -> Seq<NodeV> {
        nodes_view(self.roots@)
    }
}

/// The node forest that a markup source parses to, or nothing when the
/// source is not well-formed markup.
pub uninterp spec fn parse_of(s: Seq<char>) -> Option<Seq<NodeV>>;

/// Relies on roxmltree::Document::parse: well-formed XML parses to a node
/// tree whose result depends on the input text alone. The conversion below
/// copies that tree one node for one node, keeping child order; comments and
/// processing instructions become ignorable nodes.
#[verifier::external_body]
pub fn parse_markup(text: &str) -> (r: Option<MarkupTree>)
    ensures
        match r {
            Some(t) => parse_of(text@) == Some(t@),
            None => parse_of(text@) is None,
        },
{
    match roxmltree::Document::parse(text) {
        Ok(doc) => Some(MarkupTree { roots: convert_children(doc.root()) }),
        Err(_) => None,
    }
}

#[verifier::external_type_specification]
#[verifier::external_body]
pub struct ExRoxNode<'a, 'input: 'a>(roxmltree::Node<'a, 'input>);

/// Conversion used by `parse_markup`: each child of `n`, one arm per
/// roxmltree node kind, in document order.
#[verifier::external_body]
fn convert_children<'a, 'input>(n: roxmltree::Node<'a, 'input>) -> (r: Vec<MarkupNode>) {
    let mut out: Vec<MarkupNode> = Vec::new();
    for c in n.children() {
        match c.node_type() {
            roxmltree::NodeType::Element => out.push(convert_element(c)),
            roxmltree::NodeType::Text => out.push(MarkupNode::Text {
                text: c.text().unwrap_or("").chars().collect(),
            }),
            _ => out.push(MarkupNode::Other),
        }
    }
    out
}

/// Conversion used by `parse_markup`: one element node, its tag name,
/// attributes and children copied in order.
#[verifier::external_body]
fn convert_element<'a, 'input>(c: roxmltree::Node<'a, 'input>) -> (r: MarkupNode) {
    MarkupNode::Element {
        name: c.tag_name().name().chars().collect(),
        attrs: c.attributes().map(|a| Attr {
            name: a.name().chars().collect(),
            value: a.value().chars().collect(),
        }).collect(),
        children: convert_children(c),
    }
}

} // verus!
