use vstd::prelude::*;
use crate::markup::{MarkupTree, NodeV, parse_markup, parse_of};
use crate::text::{str_to_chars, chars_eq};

verus! {

/// A named, reusable definition: markup parsed once at registration and a
/// stylesheet kept verbatim, both tagged with one stable identifier.
pub struct Component {
    pub id: i32,
    pub name: Vec<char>,
    pub markup: Option<MarkupTree>,
    pub css_data: String,
}

/// Mathematical model of a component.
pub struct CompV {
    pub id: int,
    pub name: Seq<char>,
    pub markup: Option<Seq<NodeV>>,
    pub css: Seq<char>,
}

impl View for Component {
    type V = CompV;

    open spec fn view(&self) -> CompV {
        CompV {
            id: self.id as int,
            name: self.name@,
            markup: match self.markup {
                Some(t) => Some(t@),
                None => None,
            },
            css: self.css_data@,
        }
    }
}

impl Component {
    /// The stable identifier assigned at this component's first registration.
    pub fn id(&self) -> (r: i32)
        ensures
            r as int == self@.id,
    {
        self.id
    }

    /// The stylesheet text registered for this component, verbatim.
    pub fn css_data(&self) -> (r: &String)
        ensures
            r@ == self@.css,
    {
        &self.css_data
    }

    /// The markup this component expands to, when markup was registered.
    pub fn markup(&self) -> (r: &Option<MarkupTree>)
        ensures
            match r {
                Some(t) => self@.markup == Some(t@),
                None => self@.markup is None,
            },
    {
        &self.markup
    }
}

/// The identifier counter a store assigns new component ids from.
pub struct Counter {
    pub current: i32,
}

impl Counter {
    /// Steps the counter forward and hands out its previous value.
    pub fn increment(&mut self) -> (r: i32)
        requires
            old(self).current < i32::MAX,
        ensures
            r == old(self).current,
            final(self).current == old(self).current + 1,
    {
        let result = self.current;
        self.current = self.current + 1;
        result
    }

    /// Steps the counter back and hands out its previous value.
    pub fn decrement(&mut self) -> (r: i32)
        requires
            old(self).current > i32::MIN,
        ensures
            r == old(self).current,
            final(self).current == old(self).current - 1,
    {
        let result = self.current;
        self.current = self.current - 1;
        result
    }
}

/// The registry of components, keyed by name, with a monotonic id counter.
pub struct ComponentStore {
    pub components: Vec<Component>,
    pub id_counter: Counter,
}

/// Mathematical model of the registry.
pub struct StoreV {
    pub comps: Seq<CompV>,
    pub counter: int,
}

impl View for ComponentStore {
    type V = StoreV;

    open spec fn view(&self) -> StoreV {
        StoreV {
            comps: self.components@.map_values(|c: Component| c@),
            counter: self.id_counter.current as int,
        }
    }
}

/// Registry invariant: ids are assigned in first-registration order and are
/// injective over names, the counter holds the next free id, and names are
/// unique keys.
pub open spec fn store_wf(s: StoreV) -> bool {
    &&& s.counter == s.comps.len()
    &&& forall|i: int| 0 <= i < s.comps.len() ==> #[trigger] s.comps[i].id == i
    &&& forall|i: int, j: int|
        0 <= i < j < s.comps.len() ==> #[trigger] s.comps[i].name != #[trigger] s.comps[j].name
}

/// Index of the first component named `name` at or after `i`, if any.
pub open spec fn index_of_name(comps: Seq<CompV>, name: Seq<char>, i: int) -> Option<int>
    decreases comps.len() - i,
{
    if i < 0 || i >= comps.len() {
        None
    } else if comps[i].name == name {
        Some(i)
    } else {
        index_of_name(comps, name, i + 1)
    }
}

/// The store after a stylesheet registration: the text is stored verbatim
/// under `name`; a first-seen name is assigned the next id, an already
/// registered name keeps its id and consumes none.
pub open spec fn store_css_spec(s: StoreV, name: Seq<char>, data: Seq<char>) -> StoreV {
    match index_of_name(s.comps, name, 0) {
        Some(i) => StoreV {
            comps: s.comps.update(
                i,
                CompV { css: data, ..s.comps[i] },
            ),
            counter: s.counter,
        },
        None => StoreV {
            comps: s.comps.push(
                CompV { id: s.counter, name, markup: None, css: data },
            ),
            counter: s.counter + 1,
        },
    }
}

/// The store after a markup registration, or nothing when the text is not
/// well-formed markup — a failed registration leaves the store unchanged.
pub open spec fn store_xml_spec(s: StoreV, name: Seq<char>, data: Seq<char>) -> Option<StoreV> {
    match parse_of(data) {
        None => None,
        Some(tree) => Some(
            match index_of_name(s.comps, name, 0) {
                Some(i) => StoreV {
                    comps: s.comps.update(
                        i,
                        CompV { markup: Some(tree), ..s.comps[i] },
                    ),
                    counter: s.counter,
                },
                None => StoreV {
                    comps: s.comps.push(
                        CompV { id: s.counter, name, markup: Some(tree), css: Seq::empty() },
                    ),
                    counter: s.counter + 1,
                },
            },
        ),
    }
}

impl ComponentStore {
    /// An empty registry whose first assigned id will be zero.
    pub fn new() -> (r: ComponentStore)
        ensures
            r@.comps =~= Seq::<CompV>::empty(),
            r@.counter == 0,
            store_wf(r@),
    {
        ComponentStore { components: Vec::new(), id_counter: Counter { current: 0 } }
    }

    /// Index of the component named `name`, as `index_of_name` does.
    pub(crate) fn find_index(&self, name: &Vec<char>) -> (r: Option<usize>)
        ensures
            match r {
                Some(i) => index_of_name(self@.comps, name@, 0) == Some(i as int) && i
                    < self.components@.len(),
                None => index_of_name(self@.comps, name@, 0) is None,
            },
    {
        let mut i: usize = 0;
        while i < self.components.len()
            invariant
                0 <= i <= self.components@.len(),
                self@.comps.len() == self.components@.len(),
                index_of_name(self@.comps, name@, 0) == index_of_name(self@.comps, name@, i as int),
            decreases self.components@.len() - i,
        {
            if chars_eq(&self.components[i].name, name) {
                assert(self@.comps[i as int].name == name@);
                return Some(i);
            }
            assert(self@.comps[i as int].name != name@);
            i += 1;
        }
        None
    }

    /// Looks a component up by exact, case-sensitive name.
    pub fn find_component(&self, name: &str) -> (r: Option<&Component>)
        ensures
            match r {
                Some(c) => index_of_name(self@.comps, name@, 0) matches Some(i) && c@
                    == self@.comps[i],
                None => index_of_name(self@.comps, name@, 0) is None,
            },
    {
        let chars = str_to_chars(name);
        match self.find_index(&chars) {
            Some(i) => Some(&self.components[i]),
            None => None,
        }
    }

    /// Looks a component up by its id: exactly the component owning that id.
    pub fn find_component_by_id(&self, id: i32) -> (r: Option<&Component>)
        requires
            store_wf(self@),
        ensures
            match r {
                Some(c) => 0 <= (id as int) && (id as int) < self@.comps.len() && c@
                    == self@.comps[id as int],
                None => !(0 <= (id as int) && (id as int) < self@.comps.len()),
            },
    {
        let mut i: usize = 0;
        while i < self.components.len()
            invariant
                store_wf(self@),
                0 <= i <= self.components@.len(),
                self@.comps.len() == self.components@.len(),
                forall|k: int| 0 <= k < i ==> #[trigger] self@.comps[k].id != id as int,
            decreases self.components@.len() - i,
        {
            let c = &self.components[i];
            proof {
                assert(self@.comps[i as int] == self.components@[i as int]@);
                assert(self@.comps[i as int].id == i as int);
            }
            if c.id == id {
                return Some(c);
            }
            i += 1;
        }
        proof {
            if 0 <= (id as int) && (id as int) < self@.comps.len() {
                assert(self@.comps[id as int].id == id as int);
                assert(false);
            }
        }
        None
    }

    /// Hands out the next free id and steps the counter.
    fn next_id(&mut self) -> (r: i32)
        requires
            old(self).id_counter.current < i32::MAX,
        ensures
            r == old(self).id_counter.current,
            final(self).id_counter.current == old(self).id_counter.current + 1,
            final(self).components == old(self).components,
    {
        self.id_counter.increment()
    }

    /// Steps the counter back, undoing a `next_id` whose id went unused.
    fn prev_id(&mut self) -> (r: i32)
        requires
            old(self).id_counter.current > i32::MIN,
        ensures
            r == old(self).id_counter.current,
            final(self).id_counter.current == old(self).id_counter.current - 1,
            final(self).components == old(self).components,
    {
        self.id_counter.decrement()
    }

    /// Registers markup under `name`: the text is parsed now; malformed text
    /// is rejected and changes nothing. A first-seen name is assigned the
    /// next id; a name seen before keeps its id and consumes none.
    pub fn store_xml(&mut self, name: String, data: String) -> (r: Result<(), ()>)
        requires
            store_wf(old(self)@),
            old(self)@.comps.len() < i32::MAX,
        ensures
            store_wf(final(self)@),
            match r {
                Ok(_) => store_xml_spec(old(self)@, name@, data@) == Some(final(self)@),
                Err(_) => store_xml_spec(old(self)@, name@, data@) is None && final(self)@
                    == old(self)@,
            },
    {
        let tree = match parse_markup(data.as_str()) {
            None => {
                return Err(());
            },
            Some(t) => t,
        };
        let name_chars = str_to_chars(name.as_str());
        let id = self.next_id();
        let found = self.find_index(&name_chars);
        match found {
            Some(i) => {
                let c = &mut self.components[i];
                c.markup = Some(tree);
                let ghost mid = self@;
                self.prev_id();
                proof {
                    let spec_store = store_xml_spec(old(self)@, name@, data@);
                    assert(self@.comps =~= mid.comps);
                    assert(self@.comps =~= old(self)@.comps.update(
                        i as int,
                        CompV { markup: Some(tree@), ..old(self)@.comps[i as int] },
                    ));
                }
            },
            None => {
                self.components.push(
                    Component { id, name: name_chars, markup: Some(tree), css_data: String::new() },
                );
                proof {
                    lemma_index_of_name_none(old(self)@.comps, name@, 0);
                    assert(self@.comps =~= old(self)@.comps.push(
                        CompV {
                            id: old(self)@.counter,
                            name: name@,
                            markup: Some(tree@),
                            css: Seq::empty(),
                        },
                    ));
                }
            },
        }
        Ok(())
    }

    /// Registers stylesheet text under `name`, verbatim, never failing, with
    /// the same first-seen id assignment as markup registration.
    pub fn store_css(&mut self, name: String, data: String) -> (r: Result<(), ()>)
        requires
            store_wf(old(self)@),
            old(self)@.comps.len() < i32::MAX,
        ensures
            store_wf(final(self)@),
            r is Ok,
            final(self)@ == store_css_spec(old(self)@, name@, data@),
    {
        let name_chars = str_to_chars(name.as_str());
        let id = self.next_id();
        let found = self.find_index(&name_chars);
        match found {
            Some(i) => {
                let c = &mut self.components[i];
                c.css_data = data;
                let ghost mid = self@;
                self.prev_id();
                proof {
                    assert(self@.comps =~= mid.comps);
                    assert(self@.comps =~= old(self)@.comps.update(
                        i as int,
                        CompV { css: data@, ..old(self)@.comps[i as int] },
                    ));
                }
            },
            None => {
                self.components.push(
                    Component { id, name: name_chars, markup: None, css_data: data },
                );
                proof {
                    lemma_index_of_name_none(old(self)@.comps, name@, 0);
                    assert(self@.comps =~= old(self)@.comps.push(
                        CompV { id: old(self)@.counter, name: name@, markup: None, css: data@ },
                    ));
                }
            },
        }
        Ok(())
    }
}

/// What one finished page build hands back: the expanded markup, the ids of
/// every component used while producing it in first-use order without
/// duplicates, and the warnings met along the way.
pub struct BuildResult {
    pub xml: String,
    pub components_used: Vec<i32>,
    pub warnings: Vec<crate::engine::Warning>,
}

impl BuildResult {
    /// The expanded markup of the page.
    pub fn xml(&self) -> (r: &String)
        ensures
            r@ == self.xml@,
    {
        &self.xml
    }

    /// The ids of the components used, in first-use order, deduplicated.
    pub fn components_used(&self) -> (r: &Vec<i32>)
        ensures
            r@ == self.components_used@,
    {
        &self.components_used
    }

    /// The non-fatal warnings met while expanding.
    pub fn warnings(&self) -> (r: &Vec<crate::engine::Warning>)
        ensures
            r@ == self.warnings@,
    {
        &self.warnings
    }
}

/// The expansion of a whole page: its root nodes under the empty root
/// scope, an empty starting state, and the full invocation-depth budget.
pub open spec fn build_page_spec(reg: Seq<CompV>, page_markup: Seq<NodeV>) -> Result<
    crate::engine::StV,
    crate::engine::BuildError,
> {
    crate::engine::exp_nodes(
        reg,
        page_markup,
        0,
        Seq::empty(),
        crate::engine::empty_state(),
        crate::engine::MAX_DEPTH as nat,
    )
}

/// Expands one page against the registry. Nothing comes back when the page
/// has no registered markup or when its expansion fails — a failed page
/// leaves no partial output.
pub fn build_page(page: &Component, components: &ComponentStore) -> (r: Option<BuildResult>)
    ensures
        match page@.markup {
            None => r is None,
            Some(pm) => match build_page_spec(components@.comps, pm) {
                Ok(stv) => r matches Some(b) && b.xml@ == stv.out && crate::engine::used_view(
                    b.components_used@,
                ) == stv.used && crate::engine::warns_view(b.warnings@) == stv.warnings,
                Err(_) => r is None,
            },
        },
{
    let tree = match &page.markup {
        None => {
            return None;
        },
        Some(t) => t,
    };
    let scope = crate::templating::Scope::root();
    let st = crate::engine::EngineState {
        out: Vec::new(),
        used: Vec::new(),
        warnings: Vec::new(),
        stack: Vec::new(),
    };
    proof {
        assert(st@ =~~= crate::engine::empty_state());
    }
    match crate::engine::expand_nodes(
        components,
        &tree.roots,
        0,
        &scope,
        st,
        crate::engine::MAX_DEPTH,
    ) {
        Err(_) => None,
        Ok(st2) => Some(
            BuildResult {
                xml: crate::text::chars_to_string(&st2.out),
                components_used: st2.used,
                warnings: st2.warnings,
            },
        ),
    }
}

/// The stylesheet text of a page: the stylesheets of the used ids,
/// concatenated in first-use order; an id no component owns contributes
/// nothing.
pub open spec fn css_concat(reg: Seq<CompV>, used: Seq<int>, i: int) -> Seq<char>
    decreases used.len() - i,
{
    if i < 0 || i >= used.len() {
        Seq::empty()
    } else {
        (if 0 <= used[i] && used[i] < reg.len() {
            reg[used[i]].css
        } else {
            Seq::empty()
        }) + css_concat(reg, used, i + 1)
    }
}

/// Concatenates the stylesheets of the used components, in usage order, as
/// `css_concat` does.
pub fn page_css(components: &ComponentStore, used: &Vec<i32>) -> (r: String)
    requires
        store_wf(components@),
    ensures
        r@ == css_concat(components@.comps, crate::engine::used_view(used@), 0),
{
    let ghost uv = crate::engine::used_view(used@);
    let mut out = String::new();
    let mut i: usize = 0;
    proof {
        assert(out@ + css_concat(components@.comps, uv, 0) =~= css_concat(
            components@.comps,
            uv,
            0,
        ));
    }
    while i < used.len()
        invariant
            0 <= i <= used@.len(),
            store_wf(components@),
            uv == crate::engine::used_view(used@),
            uv.len() == used@.len(),
            css_concat(components@.comps, uv, 0) == out@ + css_concat(
                components@.comps,
                uv,
                i as int,
            ),
        decreases used@.len() - i,
    {
        let ghost prev = out@;
        proof {
            assert(uv[i as int] == used@[i as int] as int);
        }
        match components.find_component_by_id(used[i]) {
            Some(c) => {
                out.append(c.css_data().as_str());
                proof {
                    assert(out@ =~= prev + components@.comps[used@[i as int] as int].css);
                }
            },
            None => {
                proof {
                    assert(out@ =~= prev + Seq::<char>::empty());
                }
            },
        }
        proof {
            assert(prev + css_concat(components@.comps, uv, i as int) =~= out@ + css_concat(
                components@.comps,
                uv,
                i as int + 1,
            ));
        }
        i += 1;
    }
    proof {
        assert(out@ + css_concat(components@.comps, uv, i as int) =~= out@);
    }
    out
}

/// Law: a finished page's component-id usage list holds no duplicates —
/// first use records an id, later uses do not — and its slot stack ends
/// empty: every entry pushed for an invocation was consumed or discarded.
pub proof fn lemma_page_output_invariants(reg: Seq<CompV>, pm: Seq<NodeV>)
    ensures
        build_page_spec(reg, pm) matches Ok(stv) ==> stv.used.no_duplicates() && stv.stack.len()
            == 0,
{
    crate::engine::lemma_exp_nodes_used(
        reg,
        pm,
        0,
        Seq::empty(),
        crate::engine::empty_state(),
        crate::engine::MAX_DEPTH as nat,
    );
    crate::engine::lemma_exp_nodes_stack(
        reg,
        pm,
        0,
        Seq::empty(),
        crate::engine::empty_state(),
        crate::engine::MAX_DEPTH as nat,
    );
}

/// Law: a page build is a function of the registry and the page markup
/// alone — equal inputs always give byte-identical output, so a rebuild of
/// unchanged sources reproduces every page exactly.
pub proof fn lemma_build_deterministic(
    reg1: Seq<CompV>,
    reg2: Seq<CompV>,
    pm1: Seq<NodeV>,
    pm2: Seq<NodeV>,
)
    requires
        reg1 == reg2,
        pm1 == pm2,
    ensures
        build_page_spec(reg1, pm1) == build_page_spec(reg2, pm2),
{
}

/// Law: the stylesheet of a component never used by a page cannot reach
/// that page's stylesheet output — the output is unchanged under any change
/// to the stylesheets of components whose ids the page did not use.
pub proof fn lemma_unused_css_never_appears(
    reg1: Seq<CompV>,
    reg2: Seq<CompV>,
    used: Seq<int>,
    i: int,
)
    requires
        reg1.len() == reg2.len(),
        forall|k: int| 0 <= k < reg1.len() && used.contains(k) ==> reg1[k].css == reg2[k].css,
    ensures
        css_concat(reg1, used, i) == css_concat(reg2, used, i),
    decreases used.len() - i,
{
    if 0 <= i < used.len() {
        if 0 <= used[i] && used[i] < reg1.len() {
            assert(used.contains(used[i]));
        }
        lemma_unused_css_never_appears(reg1, reg2, used, i + 1);
    }
}

/// Law: id assignment is injective — distinct registered components never
/// share an id, and ids appear in first-registration order.
pub proof fn lemma_ids_injective(s: StoreV, i: int, j: int)
    requires
        store_wf(s),
        0 <= i < s.comps.len(),
        0 <= j < s.comps.len(),
        i != j,
    ensures
        s.comps[i].id != s.comps[j].id,
        i < j ==> s.comps[i].id < s.comps[j].id,
{
}

/// Law: id assignment is stable — registering a stylesheet for a name that
/// is already registered keeps that component's id and consumes no new id,
/// so markup-then-stylesheet under one name yields exactly one id.
pub proof fn lemma_id_stable_across_css(s: StoreV, name: Seq<char>, data: Seq<char>, i: int)
    requires
        store_wf(s),
        index_of_name(s.comps, name, 0) == Some(i),
    ensures
        store_css_spec(s, name, data).comps[i].id == s.comps[i].id,
        store_css_spec(s, name, data).counter == s.counter,
        store_css_spec(s, name, data).comps.len() == s.comps.len(),
{
    lemma_index_of_name_bounds(s.comps, name, 0);
}

/// Law: registering two distinct fresh names yields two distinct ids, in
/// first-registration order.
pub proof fn lemma_fresh_names_get_ordered_ids(
    s: StoreV,
    n1: Seq<char>,
    d1: Seq<char>,
    n2: Seq<char>,
    d2: Seq<char>,
)
    requires
        store_wf(s),
        index_of_name(s.comps, n1, 0) is None,
        index_of_name(s.comps, n2, 0) is None,
        n1 != n2,
    ensures
        ({
            let s1 = store_css_spec(s, n1, d1);
            let s2 = store_css_spec(s1, n2, d2);
            &&& s2.comps[s.comps.len() as int].name == n1
            &&& s2.comps[s.comps.len() as int + 1].name == n2
            &&& s2.comps[s.comps.len() as int].id + 1 == s2.comps[s.comps.len() as int + 1].id
        }),
{
    let s1 = store_css_spec(s, n1, d1);
    lemma_index_of_name_none_after_push(s.comps, n2, 0, CompV { id: s.counter, name: n1, markup: None, css: d1 });
}

/// Bounds of `index_of_name`: a found index lies in range and names match.
pub proof fn lemma_index_of_name_bounds(comps: Seq<CompV>, name: Seq<char>, i: int)
    ensures
        index_of_name(comps, name, i) matches Some(j) ==> i <= j < comps.len() && comps[j].name
            == name,
    decreases comps.len() - i,
{
    if 0 <= i < comps.len() && comps[i].name != name {
        lemma_index_of_name_bounds(comps, name, i + 1);
    }
}

/// An unfound name differs from every component's name.
pub proof fn lemma_index_of_name_none(comps: Seq<CompV>, name: Seq<char>, i: int)
    requires
        0 <= i,
        index_of_name(comps, name, i) is None,
    ensures
        forall|k: int| #![trigger comps[k]] i <= k < comps.len() ==> comps[k].name != name,
    decreases comps.len() - i,
{
    if i < comps.len() {
        lemma_index_of_name_none(comps, name, i + 1);
    }
}

/// A name absent from a store stays absent after pushing a different name.
proof fn lemma_index_of_name_none_after_push(
    comps: Seq<CompV>,
    name: Seq<char>,
    i: int,
    c: CompV,
)
    requires
        0 <= i <= comps.len(),
        index_of_name(comps, name, i) is None,
        c.name != name,
    ensures
        index_of_name(comps.push(c), name, i) is None,
    decreases comps.len() - i,
{
    if i < comps.len() {
        assert(comps.push(c)[i] == comps[i]);
        lemma_index_of_name_none_after_push(comps, name, i + 1, c);
    } else {
        assert(comps.push(c)[comps.len() as int] == c);
        assert(index_of_name(comps.push(c), name, i + 1) is None);
    }
}

} // verus!
