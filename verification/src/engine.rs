use vstd::prelude::*;
use crate::markup::{MarkupNode, NodeV, Attr, AttrV, attr_seq_view, node_view, nodes_view, lemma_nodes_view_len, lemma_nodes_view_index};
use crate::templating::{Scope, BindingV};
use crate::text::{escape_text_from, escape_attr_from, trim_spec};
use crate::page_builder::CompV;

verus! {

/// The deepest chain of nested component invocations one page build will
/// follow before it gives up; self-referential components would otherwise
/// recurse without bound.
pub const MAX_DEPTH: u32 = 64;

/// What a tag name means to the engine, classified once per element.
#[derive(PartialEq, Eq, Structural)]
pub enum TagKind {
    /// A plain markup element, copied through with attributes resolved.
    Literal,
    /// A component invocation: an uppercase-initial name.
    Invocation,
    /// The content-forwarding marker.
    ControlInner,
    /// The style marker, ignored in markup output.
    ControlStyles,
    /// Any other name under the reserved control prefix.
    ControlUnknown,
}

/// The reserved control prefix.
pub open spec fn slot_prefix() -> Seq<char> {
    seq!['S', 'l', 'o', 't', '-']
}

/// The forwarding marker's name.
pub open spec fn slot_inner_name() -> Seq<char> {
    seq!['S', 'l', 'o', 't', '-', 'I', 'n', 'n', 'e', 'r']
}

/// The style marker's name.
pub open spec fn slot_styles_name() -> Seq<char> {
    seq!['S', 'l', 'o', 't', '-', 'S', 't', 'y', 'l', 'e', 's']
}

/// Classification of a tag name: reserved-prefix names are control markers,
/// uppercase-initial names are invocations, everything else is literal.
pub open spec fn classify_tag_spec(name: Seq<char>) -> TagKind {
    if name.len() >= 5 && name.subrange(0, 5) == slot_prefix() {
        if name == slot_inner_name() {
            TagKind::ControlInner
        } else if name == slot_styles_name() {
            TagKind::ControlStyles
        } else {
            TagKind::ControlUnknown
        }
    } else if name.len() > 0 && 'A' <= name[0] && name[0] <= 'Z' {
        TagKind::Invocation
    } else {
        TagKind::Literal
    }
}

/// One pending entry of caller content: the invocation's child nodes and
/// the scope that was in effect at the invocation site.
pub struct SlotEntry {
    pub nodes: Vec<MarkupNode>,
    pub scope: Scope,
}

/// Mathematical model of a slot entry.
#[verifier::ext_equal]
pub struct EntryV {
    pub nodes: Seq<NodeV>,
    pub scope: Seq<BindingV>,
}

impl View for SlotEntry {
    type V = EntryV;

    open spec fn view(&self) -> EntryV {
        EntryV { nodes: nodes_view(self.nodes@), scope: self.scope@ }
    }
}

/// A non-fatal condition met while expanding: the node contributes nothing
/// and the rest of the page goes on.
pub enum Warning {
    /// An invocation named a component with no registered markup.
    MissingComponent { name: Vec<char> },
    /// A forwarding marker found no pending caller content.
    EmptySlot,
    /// An unrecognized name under the reserved control prefix.
    UnknownControl { name: Vec<char> },
}

/// Mathematical model of a warning.
pub enum WarnV {
    MissingComponent { name: Seq<char> },
    EmptySlot,
    UnknownControl { name: Seq<char> },
}

impl View for Warning {
    type V = WarnV;

    open spec fn view(&self) -> WarnV {
        match self {
            Warning::MissingComponent { name } => WarnV::MissingComponent { name: name@ },
            Warning::EmptySlot => WarnV::EmptySlot,
            Warning::UnknownControl { name } => WarnV::UnknownControl { name: name@ },
        }
    }
}

/// Everything one page expansion accumulates: the markup buffer, the ids of
/// components used in first-use order without duplicates, the warnings, and
/// the slot stack of pending caller content.
pub struct EngineState {
    pub out: Vec<char>,
    pub used: Vec<i32>,
    pub warnings: Vec<Warning>,
    pub stack: Vec<SlotEntry>,
}

/// Mathematical model of the expansion state.
#[verifier::ext_equal]
pub struct StV {
    pub out: Seq<char>,
    pub used: Seq<int>,
    pub warnings: Seq<WarnV>,
    pub stack: Seq<EntryV>,
}

pub open spec fn used_view(s: Seq<i32>) -> Seq<int> {
    s.map_values(|x: i32| x as int)
}

pub open spec fn warns_view(s: Seq<Warning>) -> Seq<WarnV> {
    s.map_values(|w: Warning| w@)
}

pub open spec fn stack_view(s: Seq<SlotEntry>) -> Seq<EntryV> {
    s.map_values(|e: SlotEntry| e@)
}

impl View for EngineState {
    type V = StV;

    open spec fn view(&self) -> StV {
        StV {
            out: self.out@,
            used: used_view(self.used@),
            warnings: warns_view(self.warnings@),
            stack: stack_view(self.stack@),
        }
    }
}

/// A fatal condition: the whole page build is abandoned.
#[derive(Clone, Copy, PartialEq, Eq, Structural, Debug)]
pub enum BuildError {
    /// A malformed interpolation expression.
    Template,
    /// Component invocations nested beyond `MAX_DEPTH`.
    Depth,
}

/// The empty starting state of a page expansion.
pub open spec fn empty_state() -> StV {
    StV { out: Seq::empty(), used: Seq::empty(), warnings: Seq::empty(), stack: Seq::empty() }
}

/// A stack cut back to depth `n`: what remains of `stack` after everything
/// an invocation left above its pre-push depth is discarded.
pub open spec fn cap_stack(stack: Seq<EntryV>, n: int) -> Seq<EntryV> {
    if stack.len() <= n {
        stack
    } else if n < 0 {
        Seq::empty()
    } else {
        stack.take(n)
    }
}

/// The serialized attribute text of a literal element from attribute `i`
/// on: each value resolved against `env` and escaped, or nothing when a
/// value is malformed.
pub open spec fn render_attrs_from(attrs: Seq<AttrV>, i: int, env: Seq<BindingV>) -> Option<
    Seq<char>,
>
    decreases attrs.len() - i,
{
    if i < 0 || i >= attrs.len() {
        Some(Seq::empty())
    } else {
        match crate::templating::resolve_from(attrs[i].value, 0, env) {
            None => None,
            Some(v) => match render_attrs_from(attrs, i + 1, env) {
                None => None,
                Some(rest) => Some(
                    seq![' '] + attrs[i].name + seq!['=', '"'] + escape_attr_from(v, 0)
                        + seq!['"'] + rest,
                ),
            },
        }
    }
}

/// The expansion of one node under scope `env` and state `st`.
///
/// Text resolves and trims; literal elements serialize with resolved
/// attributes around their expanded children; an invocation derives a child
/// scope from its attributes, pushes its own children with the current
/// scope, expands the component's markup one level deeper, and cuts the
/// stack back to its pre-push depth; the forwarding marker consumes the top
/// pending entry and expands it under that entry's saved scope; markers with
/// nothing pending, unknown components and unknown control names warn and
/// contribute nothing; ignorable nodes vanish.
pub open spec fn exp_node(
    reg: Seq<CompV>,
    n: NodeV,
    env: Seq<BindingV>,
    st: StV,
    fuel: nat,
) -> Result<StV, BuildError>
    decreases fuel, st.stack.len(), n, 0int,
{
    match n {
        NodeV::Other => Ok(st),
        NodeV::Text { text } => match crate::templating::resolve_from(text, 0, env) {
            None => Err(BuildError::Template),
            Some(r) => Ok(StV { out: st.out + escape_text_from(trim_spec(r), 0), ..st }),
        },
        NodeV::Element { name, attrs, children } => match classify_tag_spec(name) {
            TagKind::ControlStyles => Ok(st),
            TagKind::ControlUnknown => Ok(
                StV { warnings: st.warnings.push(WarnV::UnknownControl { name }), ..st },
            ),
            TagKind::ControlInner => {
                if st.stack.len() == 0 {
                    Ok(StV { warnings: st.warnings.push(WarnV::EmptySlot), ..st })
                } else {
                    let e = st.stack.last();
                    let st1 = StV { stack: st.stack.drop_last(), ..st };
                    exp_nodes(reg, e.nodes, 0, e.scope, st1, fuel)
                }
            },
            TagKind::Literal => match render_attrs_from(attrs, 0, env) {
                None => Err(BuildError::Template),
                Some(attr_text) => {
                    if children.len() == 0 {
                        Ok(
                            StV {
                                out: st.out + seq!['<'] + name + attr_text + seq!['/', '>'],
                                ..st
                            },
                        )
                    } else {
                        let st1 = StV {
                            out: st.out + seq!['<'] + name + attr_text + seq!['>'],
                            ..st
                        };
                        match exp_nodes(reg, children, 0, env, st1, fuel) {
                            Err(e) => Err(e),
                            Ok(st2) => Ok(
                                StV { out: st2.out + seq!['<', '/'] + name + seq!['>'], ..st2 },
                            ),
                        }
                    }
                },
            },
            TagKind::Invocation => match crate::page_builder::index_of_name(reg, name, 0) {
                None => Ok(
                    StV { warnings: st.warnings.push(WarnV::MissingComponent { name }), ..st },
                ),
                Some(ci) => match reg[ci].markup {
                    None => Ok(
                        StV {
                            warnings: st.warnings.push(WarnV::MissingComponent { name }),
                            ..st
                        },
                    ),
                    Some(body) => {
                        if fuel == 0 {
                            Err(BuildError::Depth)
                        } else {
                            match crate::templating::derive_spec(env, attrs) {
                                None => Err(BuildError::Template),
                                Some(child_env) => {
                                    let used1 = if st.used.contains(reg[ci].id) {
                                        st.used
                                    } else {
                                        st.used.push(reg[ci].id)
                                    };
                                    let st1 = StV {
                                        used: used1,
                                        stack: st.stack.push(
                                            EntryV { nodes: children, scope: env },
                                        ),
                                        ..st
                                    };
                                    match exp_nodes(reg, body, 0, child_env, st1, (fuel - 1) as nat) {
                                        Err(e) => Err(e),
                                        Ok(st2) => Ok(
                                            StV {
                                                stack: cap_stack(st2.stack, st.stack.len() as int),
                                                ..st2
                                            },
                                        ),
                                    }
                                },
                            }
                        }
                    },
                },
            },
        },
    }
}

/// The expansion of the sibling nodes `ns[i..]`, left to right, threading
/// the state through; after each node the stack is cut back to its depth
/// before that node, which it never exceeds.
pub open spec fn exp_nodes(
    reg: Seq<CompV>,
    ns: Seq<NodeV>,
    i: int,
    env: Seq<BindingV>,
    st: StV,
    fuel: nat,
) -> Result<StV, BuildError>
    decreases fuel, st.stack.len(), ns, ns.len() - i + 1,
{
    if i < 0 || i >= ns.len() {
        Ok(st)
    } else {
        match exp_node(reg, ns[i], env, st, fuel) {
            Err(e) => Err(e),
            Ok(st1) => exp_nodes(
                reg,
                ns,
                i + 1,
                env,
                StV { stack: cap_stack(st1.stack, st.stack.len() as int), ..st1 },
                fuel,
            ),
        }
    }
}

/// Law (slot-stack balance): expansion never leaves the slot stack deeper
/// than it found it — across any invocation, pushes and pops balance back
/// to at most the depth before the invocation.
pub proof fn lemma_exp_node_stack(
    reg: Seq<CompV>,
    n: NodeV,
    env: Seq<BindingV>,
    st: StV,
    fuel: nat,
)
    ensures
        exp_node(reg, n, env, st, fuel) matches Ok(st2) ==> st2.stack.len() <= st.stack.len(),
    decreases fuel, st.stack.len(), n, 0int,
{
    match n {
        NodeV::Other => {},
        NodeV::Text { text } => {},
        NodeV::Element { name, attrs, children } => match classify_tag_spec(name) {
            TagKind::ControlStyles => {},
            TagKind::ControlUnknown => {},
            TagKind::ControlInner => {
                if st.stack.len() > 0 {
                    let e = st.stack.last();
                    let st1 = StV { stack: st.stack.drop_last(), ..st };
                    lemma_exp_nodes_stack(reg, e.nodes, 0, e.scope, st1, fuel);
                }
            },
            TagKind::Literal => {
                if render_attrs_from(attrs, 0, env) is Some && children.len() > 0 {
                    let attr_text = render_attrs_from(attrs, 0, env).unwrap();
                    let st1 = StV {
                        out: st.out + seq!['<'] + name + attr_text + seq!['>'],
                        ..st
                    };
                    lemma_exp_nodes_stack(reg, children, 0, env, st1, fuel);
                }
            },
            TagKind::Invocation => {},
        },
    }
}

/// Law (slot-stack balance), over a sibling list.
pub proof fn lemma_exp_nodes_stack(
    reg: Seq<CompV>,
    ns: Seq<NodeV>,
    i: int,
    env: Seq<BindingV>,
    st: StV,
    fuel: nat,
)
    ensures
        exp_nodes(reg, ns, i, env, st, fuel) matches Ok(st2) ==> st2.stack.len() <= st.stack.len(),
    decreases fuel, st.stack.len(), ns, ns.len() - i + 1,
{
    if 0 <= i < ns.len() {
        match exp_node(reg, ns[i], env, st, fuel) {
            Err(_) => {},
            Ok(st1) => {
                lemma_exp_nodes_stack(
                    reg,
                    ns,
                    i + 1,
                    env,
                    StV { stack: cap_stack(st1.stack, st.stack.len() as int), ..st1 },
                    fuel,
                );
            },
        }
    }
}

/// Serializes a literal element's attributes, as `render_attrs_from` does.
fn render_attrs_exec(attrs: &Vec<Attr>, i: usize, env: &Scope) -> (r: Option<Vec<char>>)
    ensures
        match r {
            Some(v) => render_attrs_from(attr_seq_view(attrs@), i as int, env@) == Some(v@),
            None => render_attrs_from(attr_seq_view(attrs@), i as int, env@) is None,
        },
    decreases attrs@.len() - i,
{
    if i >= attrs.len() {
        let out: Vec<char> = Vec::new();
        assert(out@ =~= Seq::<char>::empty());
        return Some(out);
    }
    let a = &attrs[i];
    assert(attr_seq_view(attrs@)[i as int] == a@);
    match crate::templating::resolve_chars(&a.value, 0, env) {
        None => None,
        Some(v) => {
            let ghost v_view = v@;
            match render_attrs_exec(attrs, i + 1, env) {
                None => None,
                Some(rest) => {
                    let ghost rest_view = rest@;
                    let mut out: Vec<char> = Vec::new();
                    out.push(' ');
                    crate::templating::copy_into(&mut out, &a.name);
                    out.push('=');
                    out.push('"');
                    let mut esc = crate::text::escape_attr_exec(&v, 0);
                    out.append(&mut esc);
                    out.push('"');
                    let mut rest = rest;
                    out.append(&mut rest);
                    proof {
                        assert(out@ =~= seq![' '] + a@.name + seq!['=', '"'] + escape_attr_from(
                            v_view,
                            0,
                        ) + seq!['"'] + rest_view);
                    }
                    Some(out)
                },
            }
        },
    }
}

/// Whether `id` is already recorded among the used component ids.
fn contains_id(used: &Vec<i32>, id: i32) -> (r: bool)
    ensures
        r == used_view(used@).contains(id as int),
{
    let mut k: usize = 0;
    while k < used.len()
        invariant
            0 <= k <= used@.len(),
            forall|j: int| 0 <= j < k ==> used@[j] != id,
        decreases used@.len() - k,
    {
        if used[k] == id {
            proof {
                assert(used_view(used@)[k as int] == id as int);
            }
            return true;
        }
        k += 1;
    }
    proof {
        if used_view(used@).contains(id as int) {
            let j = choose|j: int|
                0 <= j < used_view(used@).len() && used_view(used@)[j] == id as int;
            assert(used@[j] == id);
            assert(false);
        }
    }
    false
}

/// Expands one node, as `exp_node` specifies.
pub fn expand_node(
    store: &crate::page_builder::ComponentStore,
    n: &MarkupNode,
    env: &Scope,
    st: EngineState,
    fuel: u32,
) -> (r: Result<EngineState, BuildError>)
    ensures
        match r {
            Ok(st2) => exp_node(store@.comps, node_view(*n), env@, st@, fuel as nat) == Ok::<
                StV,
                BuildError,
            >(st2@),
            Err(e) => exp_node(store@.comps, node_view(*n), env@, st@, fuel as nat) == Err::<
                StV,
                BuildError,
            >(e),
        },
    decreases fuel, st@.stack.len(), *n, 0int,
{
    let ghost st0 = st@;
    match n {
        MarkupNode::Other => Ok(st),
        MarkupNode::Text { text } => {
            match crate::templating::resolve_chars(text, 0, env) {
                None => Err(BuildError::Template),
                Some(rv) => {
                    let ghost rvv = rv@;
                    let trimmed = crate::text::trim_chars(&rv);
                    let mut esc = crate::text::escape_text_exec(&trimmed, 0);
                    let mut st = st;
                    st.out.append(&mut esc);
                    proof {
                        assert(st@ =~~= (StV {
                            out: st0.out + escape_text_from(trim_spec(rvv), 0),
                            ..st0
                        }));
                    }
                    Ok(st)
                },
            }
        },
        MarkupNode::Element { name, attrs, children } => {
            let kind = classify_tag(name);
            match kind {
                TagKind::ControlStyles => Ok(st),
                TagKind::ControlUnknown => {
                    let name2 = crate::text::clone_chars(name);
                    let mut st = st;
                    st.warnings.push(Warning::UnknownControl { name: name2 });
                    proof {
                        assert(st@ =~~= (StV {
                            warnings: st0.warnings.push(WarnV::UnknownControl { name: name@ }),
                            ..st0
                        }));
                    }
                    Ok(st)
                },
                TagKind::ControlInner => {
                    if st.stack.len() == 0 {
                        let mut st = st;
                        st.warnings.push(Warning::EmptySlot);
                        proof {
                            assert(st@ =~~= (StV {
                                warnings: st0.warnings.push(WarnV::EmptySlot),
                                ..st0
                            }));
                        }
                        Ok(st)
                    } else {
                        let mut st = st;
                        let entry = st.stack.pop().unwrap();
                        proof {
                            assert(entry@ == st0.stack.last());
                            assert(st@.stack =~= st0.stack.drop_last());
                            assert(st@ =~~= (StV { stack: st0.stack.drop_last(), ..st0 }));
                        }
                        expand_nodes(store, &entry.nodes, 0, &entry.scope, st, fuel)
                    }
                },
                TagKind::Literal => {
                    match render_attrs_exec(attrs, 0, env) {
                        None => Err(BuildError::Template),
                        Some(at) => {
                            let ghost atv = at@;
                            let mut st = st;
                            st.out.push('<');
                            crate::templating::copy_into(&mut st.out, name);
                            let mut at2 = at;
                            st.out.append(&mut at2);
                            if children.len() == 0 {
                                st.out.push('/');
                                st.out.push('>');
                                proof {
                                    lemma_nodes_view_len(children@);
                                    assert(st@ =~~= (StV {
                                        out: st0.out + seq!['<'] + name@ + atv + seq!['/', '>'],
                                        ..st0
                                    }));
                                }
                                Ok(st)
                            } else {
                                st.out.push('>');
                                proof {
                                    lemma_nodes_view_len(children@);
                                    assert(st@ =~~= (StV {
                                        out: st0.out + seq!['<'] + name@ + atv + seq!['>'],
                                        ..st0
                                    }));
                                }
                                match expand_nodes(store, children, 0, env, st, fuel) {
                                    Err(e) => Err(e),
                                    Ok(st2) => {
                                        let ghost pre2 = st2@;
                                        let mut st2 = st2;
                                        st2.out.push('<');
                                        st2.out.push('/');
                                        crate::templating::copy_into(&mut st2.out, name);
                                        st2.out.push('>');
                                        proof {
                                            assert(st2@ =~~= (StV {
                                                out: pre2.out + seq!['<', '/'] + name@ + seq!['>'],
                                                ..pre2
                                            }));
                                        }
                                        Ok(st2)
                                    },
                                }
                            }
                        },
                    }
                },
                TagKind::Invocation => {
                    match store.find_index(name) {
                        None => {
                            let name2 = crate::text::clone_chars(name);
                            let mut st = st;
                            st.warnings.push(Warning::MissingComponent { name: name2 });
                            proof {
                                assert(st@ =~~= (StV {
                                    warnings: st0.warnings.push(
                                        WarnV::MissingComponent { name: name@ },
                                    ),
                                    ..st0
                                }));
                            }
                            Ok(st)
                        },
                        Some(ci) => {
                            let comp = &store.components[ci];
                            proof {
                                assert(store@.comps[ci as int] == store.components@[ci as int]@);
                            }
                            match &comp.markup {
                                None => {
                                    let name2 = crate::text::clone_chars(name);
                                    let mut st = st;
                                    st.warnings.push(Warning::MissingComponent { name: name2 });
                                    proof {
                                        assert(st@ =~~= (StV {
                                            warnings: st0.warnings.push(
                                                WarnV::MissingComponent { name: name@ },
                                            ),
                                            ..st0
                                        }));
                                    }
                                    Ok(st)
                                },
                                Some(tree) => {
                                    if fuel == 0 {
                                        return Err(BuildError::Depth);
                                    }
                                    let mut st = st;
                                    if !contains_id(&st.used, comp.id) {
                                        st.used.push(comp.id);
                                        proof {
                                            assert(st@.used =~= st0.used.push(
                                                store@.comps[ci as int].id,
                                            ));
                                        }
                                    }
                                    match env.derive(attrs) {
                                        None => Err(BuildError::Template),
                                        Some(child_env) => {
                                            let entry_nodes = crate::markup::clone_nodes(children);
                                            let entry_scope = env.duplicate();
                                            let pre_len = st.stack.len();
                                            let ghost used1 = st@.used;
                                            st.stack.push(
                                                SlotEntry { nodes: entry_nodes, scope: entry_scope },
                                            );
                                            proof {
                                                assert(st@.stack =~= st0.stack.push(
                                                    EntryV {
                                                        nodes: nodes_view(children@),
                                                        scope: env@,
                                                    },
                                                ));
                                                assert(st@ =~~= (StV {
                                                    used: used1,
                                                    stack: st0.stack.push(
                                                        EntryV {
                                                            nodes: nodes_view(children@),
                                                            scope: env@,
                                                        },
                                                    ),
                                                    ..st0
                                                }));
                                            }
                                            match expand_nodes(
                                                store,
                                                &tree.roots,
                                                0,
                                                &child_env,
                                                st,
                                                fuel - 1,
                                            ) {
                                                Err(e) => Err(e),
                                                Ok(st2) => {
                                                    let ghost pre2 = st2@;
                                                    let mut st2 = st2;
                                                    if st2.stack.len() > pre_len {
                                                        st2.stack.truncate(pre_len);
                                                    }
                                                    proof {
                                                        assert(st2@.stack =~= cap_stack(
                                                            pre2.stack,
                                                            st0.stack.len() as int,
                                                        ));
                                                        assert(st2@ =~~= (StV {
                                                            stack: cap_stack(
                                                                pre2.stack,
                                                                st0.stack.len() as int,
                                                            ),
                                                            ..pre2
                                                        }));
                                                    }
                                                    Ok(st2)
                                                },
                                            }
                                        },
                                    }
                                },
                            }
                        },
                    }
                },
            }
        },
    }
}

/// Expands the sibling nodes `nodes[i..]`, as `exp_nodes` specifies.
pub fn expand_nodes(
    store: &crate::page_builder::ComponentStore,
    nodes: &Vec<MarkupNode>,
    i: usize,
    env: &Scope,
    st: EngineState,
    fuel: u32,
) -> (r: Result<EngineState, BuildError>)
    ensures
        match r {
            Ok(st2) => exp_nodes(store@.comps, nodes_view(nodes@), i as int, env@, st@, fuel as nat)
                == Ok::<StV, BuildError>(st2@),
            Err(e) => exp_nodes(store@.comps, nodes_view(nodes@), i as int, env@, st@, fuel as nat)
                == Err::<StV, BuildError>(e),
        },
    decreases fuel, st@.stack.len(), nodes@, nodes@.len() - i + 1,
{
    proof {
        lemma_nodes_view_len(nodes@);
    }
    if i >= nodes.len() {
        return Ok(st);
    }
    let ghost st0 = st@;
    let n = &nodes[i];
    proof {
        lemma_nodes_view_index(nodes@, i as int);
    }
    match expand_node(store, n, env, st, fuel) {
        Err(e) => Err(e),
        Ok(st1) => {
            proof {
                lemma_exp_node_stack(
                    store@.comps,
                    node_view(nodes@[i as int]),
                    env@,
                    st0,
                    fuel as nat,
                );
                assert(cap_stack(st1@.stack, st0.stack.len() as int) == st1@.stack);
                assert((StV { stack: cap_stack(st1@.stack, st0.stack.len() as int), ..st1@ })
                    =~~= st1@);
            }
            expand_nodes(store, nodes, i + 1, env, st1, fuel)
        },
    }
}

/// Law (component-id usage list): expansion only appends to the list of
/// used ids, and never introduces a duplicate — the list stays in
/// first-use order, deduplicated.
pub proof fn lemma_exp_node_used(
    reg: Seq<CompV>,
    n: NodeV,
    env: Seq<BindingV>,
    st: StV,
    fuel: nat,
)
    requires
        st.used.no_duplicates(),
    ensures
        exp_node(reg, n, env, st, fuel) matches Ok(st2) ==> st2.used.no_duplicates()
            && st.used.is_prefix_of(st2.used),
    decreases fuel, st.stack.len(), n, 0int,
{
    assert(st.used.is_prefix_of(st.used)) by {
        assert(st.used.subrange(0, st.used.len() as int) =~= st.used);
    }
    match n {
        NodeV::Other => {},
        NodeV::Text { text } => {},
        NodeV::Element { name, attrs, children } => match classify_tag_spec(name) {
            TagKind::ControlStyles => {},
            TagKind::ControlUnknown => {},
            TagKind::ControlInner => {
                if st.stack.len() > 0 {
                    let e = st.stack.last();
                    let st1 = StV { stack: st.stack.drop_last(), ..st };
                    lemma_exp_nodes_used(reg, e.nodes, 0, e.scope, st1, fuel);
                }
            },
            TagKind::Literal => {
                if render_attrs_from(attrs, 0, env) is Some && children.len() > 0 {
                    let attr_text = render_attrs_from(attrs, 0, env).unwrap();
                    let st1 = StV {
                        out: st.out + seq!['<'] + name + attr_text + seq!['>'],
                        ..st
                    };
                    lemma_exp_nodes_used(reg, children, 0, env, st1, fuel);
                }
            },
            TagKind::Invocation => {
                match crate::page_builder::index_of_name(reg, name, 0) {
                    None => {},
                    Some(ci) => match reg[ci].markup {
                        None => {},
                        Some(body) => {
                            if fuel > 0 && crate::templating::derive_spec(env, attrs) is Some {
                                let child_env = crate::templating::derive_spec(
                                    env,
                                    attrs,
                                ).unwrap();
                                let used1 = if st.used.contains(reg[ci].id) {
                                    st.used
                                } else {
                                    st.used.push(reg[ci].id)
                                };
                                assert(used1.no_duplicates() && st.used.is_prefix_of(used1)) by {
                                    if !st.used.contains(reg[ci].id) {
                                        assert(st.used.push(reg[ci].id).subrange(
                                            0,
                                            st.used.len() as int,
                                        ) =~= st.used);
                                    }
                                }
                                let st1 = StV {
                                    used: used1,
                                    stack: st.stack.push(EntryV { nodes: children, scope: env }),
                                    ..st
                                };
                                lemma_exp_nodes_used(reg, body, 0, child_env, st1, (fuel - 1) as nat);
                                match exp_nodes(reg, body, 0, child_env, st1, (fuel - 1) as nat) {
                                    Err(_) => {},
                                    Ok(st2) => {
                                        lemma_prefix_transitive(st.used, used1, st2.used);
                                    },
                                }
                            }
                        },
                    },
                }
            },
        },
    }
}

/// Law (component-id usage list), over a sibling list.
pub proof fn lemma_exp_nodes_used(
    reg: Seq<CompV>,
    ns: Seq<NodeV>,
    i: int,
    env: Seq<BindingV>,
    st: StV,
    fuel: nat,
)
    requires
        st.used.no_duplicates(),
    ensures
        exp_nodes(reg, ns, i, env, st, fuel) matches Ok(st2) ==> st2.used.no_duplicates()
            && st.used.is_prefix_of(st2.used),
    decreases fuel, st.stack.len(), ns, ns.len() - i + 1,
{
    assert(st.used.is_prefix_of(st.used)) by {
        assert(st.used.subrange(0, st.used.len() as int) =~= st.used);
    }
    if 0 <= i < ns.len() {
        lemma_exp_node_used(reg, ns[i], env, st, fuel);
        match exp_node(reg, ns[i], env, st, fuel) {
            Err(_) => {},
            Ok(st1) => {
                let st1c = StV { stack: cap_stack(st1.stack, st.stack.len() as int), ..st1 };
                lemma_exp_nodes_used(reg, ns, i + 1, env, st1c, fuel);
                match exp_nodes(reg, ns, i + 1, env, st1c, fuel) {
                    Err(_) => {},
                    Ok(st2) => {
                        lemma_prefix_transitive(st.used, st1.used, st2.used);
                    },
                }
            },
        }
    }
}

/// Prefixes compose: a prefix of a prefix is a prefix.
proof fn lemma_prefix_transitive(a: Seq<int>, b: Seq<int>, c: Seq<int>)
    requires
        a.is_prefix_of(b),
        b.is_prefix_of(c),
    ensures
        a.is_prefix_of(c),
{
    assert(c.subrange(0, a.len() as int) =~= b.subrange(0, a.len() as int));
}

/// Whether a node holds only literal markup: no component invocations and
/// no reserved control markers, at any depth.
pub open spec fn all_literal_node(n: NodeV) -> bool
    decreases n,
{
    match n {
        NodeV::Element { name, attrs, children } => classify_tag_spec(name) == TagKind::Literal
            && all_literal(children),
        NodeV::Text { text } => true,
        NodeV::Other => true,
    }
}

/// Whether a forest holds only literal markup.
pub open spec fn all_literal(ns: Seq<NodeV>) -> bool
    decreases ns,
{
    if ns.len() == 0 {
        true
    } else {
        all_literal_node(ns[0]) && all_literal(ns.drop_first())
    }
}

/// Every node of a literal forest is literal.
pub proof fn lemma_all_literal_index(ns: Seq<NodeV>, i: int)
    requires
        all_literal(ns),
        0 <= i < ns.len(),
    ensures
        all_literal_node(ns[i]),
    decreases ns.len(),
{
    if i > 0 {
        lemma_all_literal_index(ns.drop_first(), i - 1);
    }
}

/// The direct serialization of one literal node: text resolved and
/// trimmed, attributes resolved, elements copied through.
pub open spec fn plain_node(n: NodeV, env: Seq<BindingV>) -> Option<Seq<char>>
    decreases n, 0int,
{
    match n {
        NodeV::Other => Some(Seq::empty()),
        NodeV::Text { text } => match crate::templating::resolve_from(text, 0, env) {
            None => None,
            Some(r) => Some(escape_text_from(trim_spec(r), 0)),
        },
        NodeV::Element { name, attrs, children } => match render_attrs_from(attrs, 0, env) {
            None => None,
            Some(at) => {
                if children.len() == 0 {
                    Some(seq!['<'] + name + at + seq!['/', '>'])
                } else {
                    match plain_nodes(children, 0, env) {
                        None => None,
                        Some(body) => Some(
                            seq!['<'] + name + at + seq!['>'] + body + seq!['<', '/'] + name
                                + seq!['>'],
                        ),
                    }
                }
            },
        },
    }
}

/// The direct serialization of a literal forest from node `i` on.
pub open spec fn plain_nodes(ns: Seq<NodeV>, i: int, env: Seq<BindingV>) -> Option<Seq<char>>
    decreases ns, ns.len() - i + 1,
{
    if i < 0 || i >= ns.len() {
        Some(Seq::empty())
    } else {
        match plain_node(ns[i], env) {
            None => None,
            Some(o) => match plain_nodes(ns, i + 1, env) {
                None => None,
                Some(rest) => Some(o + rest),
            },
        }
    }
}

/// Law: expanding a node of plain literal markup is independent of the
/// registry and of the slot stack — it appends exactly the node's direct
/// serialization, with every text node trimmed and every expression
/// resolved, and changes nothing else.
pub proof fn lemma_plain_node(
    reg: Seq<CompV>,
    n: NodeV,
    env: Seq<BindingV>,
    st: StV,
    fuel: nat,
)
    requires
        all_literal_node(n),
    ensures
        exp_node(reg, n, env, st, fuel) == (match plain_node(n, env) {
            None => Err::<StV, BuildError>(BuildError::Template),
            Some(o) => Ok::<StV, BuildError>(StV { out: st.out + o, ..st }),
        }),
    decreases fuel, st.stack.len(), n, 0int,
{
    match n {
        NodeV::Other => {
            assert(StV { out: st.out + Seq::<char>::empty(), ..st } =~~= st);
        },
        NodeV::Text { text } => {},
        NodeV::Element { name, attrs, children } => {
            match render_attrs_from(attrs, 0, env) {
                None => {},
                Some(at) => {
                    if children.len() == 0 {
                        assert(StV {
                            out: st.out + seq!['<'] + name + at + seq!['/', '>'],
                            ..st
                        } =~~= (StV {
                            out: st.out + (seq!['<'] + name + at + seq!['/', '>']),
                            ..st
                        }));
                    }
                    if children.len() > 0 {
                        let st1 = StV { out: st.out + seq!['<'] + name + at + seq!['>'], ..st };
                        lemma_plain_nodes(reg, children, 0, env, st1, fuel);
                        match plain_nodes(children, 0, env) {
                            None => {},
                            Some(body) => {
                                let o = seq!['<'] + name + at + seq!['>'] + body + seq!['<', '/']
                                    + name + seq!['>'];
                                assert(StV {
                                    out: (st1.out + body) + seq!['<', '/'] + name + seq!['>'],
                                    ..st1
                                } =~~= (StV { out: st.out + o, ..st }));
                            },
                        }
                    }
                },
            }
        },
    }
}

/// Law: expanding a forest of plain literal markup, from node `i` on.
pub proof fn lemma_plain_nodes(
    reg: Seq<CompV>,
    ns: Seq<NodeV>,
    i: int,
    env: Seq<BindingV>,
    st: StV,
    fuel: nat,
)
    requires
        all_literal(ns),
    ensures
        exp_nodes(reg, ns, i, env, st, fuel) == (match plain_nodes(ns, i, env) {
            None => Err::<StV, BuildError>(BuildError::Template),
            Some(o) => Ok::<StV, BuildError>(StV { out: st.out + o, ..st }),
        }),
    decreases fuel, st.stack.len(), ns, ns.len() - i + 1,
{
    if 0 <= i < ns.len() {
        lemma_all_literal_index(ns, i);
        lemma_plain_node(reg, ns[i], env, st, fuel);
        match plain_node(ns[i], env) {
            None => {},
            Some(o) => {
                let st1 = StV { out: st.out + o, ..st };
                assert(cap_stack(st1.stack, st.stack.len() as int) == st1.stack);
                assert(StV { stack: cap_stack(st1.stack, st.stack.len() as int), ..st1 }
                    =~~= st1);
                lemma_plain_nodes(reg, ns, i + 1, env, st1, fuel);
                match plain_nodes(ns, i + 1, env) {
                    None => {},
                    Some(rest) => {
                        assert(StV { out: st1.out + rest, ..st1 } =~~= (StV {
                            out: st.out + (o + rest),
                            ..st
                        }));
                    },
                }
            },
        }
    } else {
        assert(StV { out: st.out + Seq::<char>::empty(), ..st } =~~= st);
    }
}

/// Law: a page made only of literal markup builds the same against any two
/// registries — its output does not depend on the registry at all — and its
/// markup is exactly the page's own serialization with text trimmed and
/// expressions resolved, with no component recorded as used.
pub proof fn lemma_plain_page(reg1: Seq<CompV>, reg2: Seq<CompV>, pm: Seq<NodeV>)
    requires
        all_literal(pm),
    ensures
        crate::page_builder::build_page_spec(reg1, pm) == crate::page_builder::build_page_spec(
            reg2,
            pm,
        ),
        crate::page_builder::build_page_spec(reg1, pm) == (match plain_nodes(pm, 0, Seq::empty()) {
            None => Err::<StV, BuildError>(BuildError::Template),
            Some(o) => Ok::<StV, BuildError>(
                StV {
                    out: o,
                    used: Seq::empty(),
                    warnings: Seq::empty(),
                    stack: Seq::empty(),
                },
            ),
        }),
{
    lemma_plain_nodes(reg1, pm, 0, Seq::empty(), empty_state(), MAX_DEPTH as nat);
    lemma_plain_nodes(reg2, pm, 0, Seq::empty(), empty_state(), MAX_DEPTH as nat);
    match plain_nodes(pm, 0, Seq::<BindingV>::empty()) {
        None => {},
        Some(o) => {
            assert(StV { out: empty_state().out + o, ..empty_state() } =~~= (StV {
                out: o,
                used: Seq::empty(),
                warnings: Seq::empty(),
                stack: Seq::empty(),
            }));
        },
    }
}

/// The reserved control vocabulary a tag name may belong to.
pub enum GoodWebComponent {
    /// Not a recognized control name.
    Unknown,
    /// The content-forwarding marker.
    Inner,
    /// The style marker.
    Styles,
}

/// Whether a tag name begins with an uppercase ASCII letter — the mark of a
/// component invocation; nothing for an empty name.
pub fn is_first_char_uppercase(slice: &str) -> (r: Option<bool>)
    ensures
        r == (if slice@.len() == 0 {
            None::<bool>
        } else {
            Some('A' <= slice@[0] && slice@[0] <= 'Z')
        }),
{
    if slice.unicode_len() == 0 {
        None
    } else {
        let c = slice.get_char(0);
        Some('A' <= c && c <= 'Z')
    }
}

/// Recognizes the reserved control vocabulary in a tag name.
pub fn get_goodweb_component(name: &str) -> (r: GoodWebComponent)
    ensures
        r == (if name@ == slot_inner_name() {
            GoodWebComponent::Inner
        } else if name@ == slot_styles_name() {
            GoodWebComponent::Styles
        } else {
            GoodWebComponent::Unknown
        }),
{
    let chars = crate::text::str_to_chars(name);
    proof {
        assert(slot_inner_name().subrange(0, 5) =~= slot_prefix());
        assert(slot_styles_name().subrange(0, 5) =~= slot_prefix());
    }
    match classify_tag(&chars) {
        TagKind::ControlInner => GoodWebComponent::Inner,
        TagKind::ControlStyles => GoodWebComponent::Styles,
        TagKind::Literal => GoodWebComponent::Unknown,
        TagKind::Invocation => GoodWebComponent::Unknown,
        TagKind::ControlUnknown => GoodWebComponent::Unknown,
    }
}

/// Classifies a tag name, as `classify_tag_spec` does.
pub fn classify_tag(name: &Vec<char>) -> (r: TagKind)
    ensures
        r == classify_tag_spec(name@),
{
    if name.len() >= 5 && name[0] == 'S' && name[1] == 'l' && name[2] == 'o' && name[3] == 't'
        && name[4] == '-' {
        proof {
            assert(name@.subrange(0, 5) =~= slot_prefix());
        }
        if name.len() == 10 && name[5] == 'I' && name[6] == 'n' && name[7] == 'n' && name[8] == 'e'
            && name[9] == 'r' {
            proof {
                assert(name@ =~= slot_inner_name());
            }
            TagKind::ControlInner
        } else if name.len() == 11 && name[5] == 'S' && name[6] == 't' && name[7] == 'y' && name[8]
            == 'l' && name[9] == 'e' && name[10] == 's' {
            proof {
                assert(name@ =~= slot_styles_name());
            }
            TagKind::ControlStyles
        } else {
            proof {
                assert(name@ != slot_inner_name());
                assert(name@ != slot_styles_name());
            }
            TagKind::ControlUnknown
        }
    } else {
        proof {
            if name@.len() >= 5 && name@.subrange(0, 5) == slot_prefix() {
                assert(name@[0] == 'S' && name@[1] == 'l' && name@[2] == 'o' && name@[3] == 't'
                    && name@[4] == '-');
                assert(false);
            }
        }
        if name.len() > 0 && 'A' <= name[0] && name[0] <= 'Z' {
            TagKind::Invocation
        } else {
            TagKind::Literal
        }
    }
}

} // verus!
