use vstd::prelude::*;
use crate::markup::{Attr, AttrV, attr_seq_view};
use crate::text::{is_numeric_spec, chars_eq};

verus! {

/// A scalar template value: a value whose text parses as a number is
/// classified as a number, any other as plain text. Either way the text is
/// kept verbatim and is what a placeholder renders as.
pub enum ScopeValue {
    Number { text: Vec<char> },
    Text { text: Vec<char> },
}

/// Mathematical model of a scalar template value.
pub enum ValueV {
    Number { text: Seq<char> },
    Text { text: Seq<char> },
}

impl View for ScopeValue {
    type V = ValueV;

    open spec fn view(&self) -> ValueV {
        match self {
            ScopeValue::Number { text } => ValueV::Number { text: text@ },
            ScopeValue::Text { text } => ValueV::Text { text: text@ },
        }
    }
}

/// One variable binding of a scope.
pub struct Binding {
    pub name: Vec<char>,
    pub value: ScopeValue,
}

/// Mathematical model of a binding.
pub struct BindingV {
    pub name: Seq<char>,
    pub value: ValueV,
}

impl View for Binding {
    type V = BindingV;

    open spec fn view(&self) -> BindingV {
        BindingV { name: self.name@, value: self.value@ }
    }
}

/// A template scope: the variable bindings visible while one subtree is
/// resolved. A later binding for the same name overrides an earlier one.
pub struct Scope {
    pub bindings: Vec<Binding>,
}

impl View for Scope {
    type V = Seq<BindingV>;

    open spec fn view(&self) -> Seq<BindingV> {
        self.bindings@.map_values(|b: Binding| b@)
    }
}

/// The string representation a value renders as.
pub open spec fn rendered(v: ValueV) -> Seq<char> {
    match v {
        ValueV::Number { text } => text,
        ValueV::Text { text } => text,
    }
}

/// The binding a name refers to: the latest one with that name, if any.
pub open spec fn lookup(env: Seq<BindingV>, name: Seq<char>) -> Option<ValueV>
    decreases env.len(),
{
    if env.len() == 0 {
        None
    } else if env.last().name == name {
        Some(env.last().value)
    } else {
        lookup(env.drop_last(), name)
    }
}

/// What a `{{name}}` placeholder renders as: the bound value's text, or
/// nothing when the name is unbound.
pub open spec fn render_var(env: Seq<BindingV>, name: Seq<char>) -> Seq<char> {
    match lookup(env, name) {
        Some(v) => rendered(v),
        None => Seq::empty(),
    }
}

/// Position of the first `}}` at or after `i`, if any.
pub open spec fn find_close(s: Seq<char>, i: int) -> Option<int>
    decreases s.len() - i,
{
    if i < 0 || i + 1 >= s.len() {
        None
    } else if s[i] == '}' && s[i + 1] == '}' {
        Some(i)
    } else {
        find_close(s, i + 1)
    }
}

pub proof fn lemma_find_close_bounds(s: Seq<char>, i: int)
    ensures
        find_close(s, i) matches Some(j) ==> i <= j && j + 1 < s.len() && s[j] == '}' && s[j + 1]
            == '}',
    decreases s.len() - i,
{
    if 0 <= i && i + 1 < s.len() && !(s[i] == '}' && s[i + 1] == '}') {
        lemma_find_close_bounds(s, i + 1);
    }
}

/// The resolution of the text from position `i` on against `env`:
/// `{{name}}` becomes the bound value's text, every other character stays;
/// a `{{` with no later `}}` is malformed and resolves to nothing.
pub open spec fn resolve_from(s: Seq<char>, i: int, env: Seq<BindingV>) -> Option<Seq<char>>
    decreases s.len() - i
    via resolve_from_dec
{
    if i < 0 || i >= s.len() {
        Some(Seq::empty())
    } else if i + 1 < s.len() && s[i] == '{' && s[i + 1] == '{' {
        match find_close(s, i + 2) {
            None => None,
            Some(j) => match resolve_from(s, j + 2, env) {
                None => None,
                Some(rest) => Some(render_var(env, s.subrange(i + 2, j)) + rest),
            },
        }
    } else {
        match resolve_from(s, i + 1, env) {
            None => None,
            Some(rest) => Some(seq![s[i]] + rest),
        }
    }
}

#[via_fn]
proof fn resolve_from_dec(s: Seq<char>, i: int, env: Seq<BindingV>) {
    lemma_find_close_bounds(s, i + 2);
}

/// Looks a name up and renders it, as `render_var` does.
fn render_var_exec(env: &Scope, name: &Vec<char>) -> (r: Vec<char>)
    ensures
        r@ == render_var(env@, name@),
{
    let mut idx: usize = env.bindings.len();
    proof {
        assert(env@.subrange(0, env@.len() as int) =~= env@);
    }
    while idx > 0
        invariant
            0 <= idx <= env.bindings@.len(),
            lookup(env@, name@) == lookup(env@.subrange(0, idx as int), name@),
        decreases idx,
    {
        idx -= 1;
        let b = &env.bindings[idx];
        proof {
            assert(env@.subrange(0, idx as int + 1).drop_last() =~= env@.subrange(0, idx as int));
            assert(env@.subrange(0, idx as int + 1).last() == env@[idx as int]);
        }
        if chars_eq(&b.name, name) {
            let mut out: Vec<char> = Vec::new();
            match &b.value {
                ScopeValue::Number { text } => copy_into(&mut out, text),
                ScopeValue::Text { text } => copy_into(&mut out, text),
            }
            proof {
                assert(env@[idx as int] == b@);
                assert(out@ =~= rendered(b@.value));
            }
            return out;
        }
    }
    proof {
        assert(env@.subrange(0, 0) =~= Seq::<BindingV>::empty());
    }
    Vec::new()
}

/// Appends every character of `src` to `dst`.
pub(crate) fn copy_into(dst: &mut Vec<char>, src: &Vec<char>)
    ensures
        final(dst)@ == old(dst)@ + src@,
{
    let mut k: usize = 0;
    while k < src.len()
        invariant
            0 <= k <= src@.len(),
            dst@ == old(dst)@ + src@.subrange(0, k as int),
        decreases src@.len() - k,
    {
        dst.push(src[k]);
        assert(dst@ =~= old(dst)@ + src@.subrange(0, k as int + 1));
        k += 1;
    }
    assert(dst@ =~= old(dst)@ + src@);
}

/// Finds the first `}}` at or after `i`, as `find_close` does.
fn find_close_exec(s: &Vec<char>, i: usize) -> (r: Option<usize>)
    ensures
        match r {
            Some(j) => find_close(s@, i as int) == Some(j as int),
            None => find_close(s@, i as int) is None,
        },
    decreases s@.len() - i,
{
    if i >= s.len() || i + 1 >= s.len() {
        None
    } else if s[i] == '}' && s[i + 1] == '}' {
        Some(i)
    } else {
        find_close_exec(s, i + 1)
    }
}

/// Resolves the text from position `i` on, as `resolve_from` does.
pub fn resolve_chars(s: &Vec<char>, i: usize, env: &Scope) -> (r: Option<Vec<char>>)
    ensures
        match r {
            Some(v) => resolve_from(s@, i as int, env@) == Some(v@),
            None => resolve_from(s@, i as int, env@) is None,
        },
    decreases s@.len() - i,
{
    if i >= s.len() {
        let out: Vec<char> = Vec::new();
        assert(out@ =~= Seq::<char>::empty());
        return Some(out);
    }
    if i + 1 < s.len() && s[i] == '{' && s[i + 1] == '{' {
        match find_close_exec(s, i + 2) {
            None => None,
            Some(j) => {
                proof {
                    lemma_find_close_bounds(s@, i as int + 2);
                }
                let mut name: Vec<char> = Vec::new();
                let mut k: usize = i + 2;
                proof {
                    assert(name@ =~= s@.subrange(i as int + 2, i as int + 2));
                }
                while k < j
                    invariant
                        i + 2 <= k <= j < s@.len(),
                        name@ == s@.subrange(i as int + 2, k as int),
                    decreases j - k,
                {
                    name.push(s[k]);
                    assert(name@ =~= s@.subrange(i as int + 2, k as int + 1));
                    k += 1;
                }
                match resolve_chars(s, j + 2, env) {
                    None => None,
                    Some(rest) => {
                        let ghost rest_view = rest@;
                        let mut out = render_var_exec(env, &name);
                        let mut rest = rest;
                        out.append(&mut rest);
                        proof {
                            assert(out@ =~= render_var(env@, s@.subrange(i as int + 2, j as int))
                                + rest_view);
                        }
                        Some(out)
                    },
                }
            },
        }
    } else {
        match resolve_chars(s, i + 1, env) {
            None => None,
            Some(rest) => {
                let ghost rest_view = rest@;
                let mut out: Vec<char> = Vec::new();
                out.push(s[i]);
                let mut rest = rest;
                out.append(&mut rest);
                proof {
                    assert(out@ =~= seq![s@[i as int]] + rest_view);
                }
                Some(out)
            },
        }
    }
}

/// Whether digits with at most one decimal point follow, as `digits_ok`.
fn digits_ok_exec(s: &Vec<char>, i: usize, seen_dot: bool, seen_digit: bool) -> (r: bool)
    ensures
        r == crate::text::digits_ok(s@, i as int, seen_dot, seen_digit),
    decreases s@.len() - i,
{
    if i >= s.len() {
        seen_digit
    } else if '0' <= s[i] && s[i] <= '9' {
        digits_ok_exec(s, i + 1, seen_dot, true)
    } else if s[i] == '.' && !seen_dot {
        digits_ok_exec(s, i + 1, true, seen_digit)
    } else {
        false
    }
}

/// The classification a resolved attribute value gets when it enters a
/// scope: a number when its text parses as one, else plain text.
pub open spec fn classify_spec(text: Seq<char>) -> ValueV {
    if is_numeric_spec(text) {
        ValueV::Number { text }
    } else {
        ValueV::Text { text }
    }
}

/// Classifies a resolved value, as `classify_spec` does.
pub fn classify_value(text: Vec<char>) -> (v: ScopeValue)
    ensures
        v@ == classify_spec(text@),
{
    let numeric = if text.len() > 0 && (text[0] == '-' || text[0] == '+') {
        digits_ok_exec(&text, 1, false, false)
    } else {
        digits_ok_exec(&text, 0, false, false)
    };
    if numeric {
        ScopeValue::Number { text }
    } else {
        ScopeValue::Text { text }
    }
}

/// The scope derived from `parent` by attributes `i..`: each attribute value
/// is resolved against `parent` itself — never against a sibling's result —
/// classified, and bound over `acc`. Nothing when a value is malformed.
pub open spec fn derive_from(
    parent: Seq<BindingV>,
    attrs: Seq<AttrV>,
    i: int,
    acc: Seq<BindingV>,
) -> Option<Seq<BindingV>>
    decreases attrs.len() - i,
{
    if i < 0 || i >= attrs.len() {
        Some(acc)
    } else {
        match resolve_from(attrs[i].value, 0, parent) {
            None => None,
            Some(v) => derive_from(
                parent,
                attrs,
                i + 1,
                acc.push(BindingV { name: attrs[i].name, value: classify_spec(v) }),
            ),
        }
    }
}

/// The child scope an invocation's attribute list derives from a parent
/// scope, or nothing when any attribute expression is malformed.
pub open spec fn derive_spec(parent: Seq<BindingV>, attrs: Seq<AttrV>) -> Option<Seq<BindingV>> {
    derive_from(parent, attrs, 0, parent)
}

fn derive_rec(parent: &Scope, attrs: &Vec<Attr>, i: usize, acc: Scope) -> (r: Option<Scope>)
    ensures
        match r {
            Some(sc) => derive_from(parent@, attr_seq_view(attrs@), i as int, acc@) == Some(sc@),
            None => derive_from(parent@, attr_seq_view(attrs@), i as int, acc@) is None,
        },
    decreases attrs@.len() - i,
{
    if i >= attrs.len() {
        return Some(acc);
    }
    let a = &attrs[i];
    assert(attr_seq_view(attrs@)[i as int] == a@);
    match resolve_chars(&a.value, 0, parent) {
        None => None,
        Some(v) => {
            let ghost v_view = v@;
            let mut name: Vec<char> = Vec::new();
            copy_into(&mut name, &a.name);
            assert(name@ =~= a.name@);
            let value = classify_value(v);
            let ghost prev = acc@;
            let mut acc = acc;
            acc.bindings.push(Binding { name, value });
            proof {
                assert(acc@ =~= prev.push(
                    BindingV { name: a.name@, value: classify_spec(v_view) },
                ));
            }
            derive_rec(parent, attrs, i + 1, acc)
        },
    }
}

impl Scope {
    /// The empty root scope a page build starts from.
    pub fn root() -> (s: Scope)
        ensures
            s@ == Seq::<BindingV>::empty(),
    {
        let s = Scope { bindings: Vec::new() };
        assert(s@ =~= Seq::<BindingV>::empty());
        s
    }

    /// Substitutes `{{name}}` placeholders in `expr` against this scope, or
    /// nothing when a `{{` is left unterminated.
    pub fn resolve(&self, expr: &str) -> (r: Option<String>)
        ensures
            match r {
                Some(v) => resolve_from(expr@, 0, self@) == Some(v@),
                None => resolve_from(expr@, 0, self@) is None,
            },
    {
        let chars = crate::text::str_to_chars(expr);
        match resolve_chars(&chars, 0, self) {
            None => None,
            Some(out) => Some(crate::text::chars_to_string(&out)),
        }
    }

    /// Copies this scope; scopes are immutable once created, so a caller
    /// that must keep one across a derivation copies it.
    pub fn duplicate(&self) -> (r: Scope)
        ensures
            r@ == self@,
    {
        let mut copy: Vec<Binding> = Vec::new();
        let mut k: usize = 0;
        while k < self.bindings.len()
            invariant
                0 <= k <= self.bindings@.len(),
                copy@.len() == k,
                forall|idx: int| 0 <= idx < k ==> copy@[idx]@ == self@[idx],
            decreases self.bindings@.len() - k,
        {
            let b = &self.bindings[k];
            let mut name: Vec<char> = Vec::new();
            copy_into(&mut name, &b.name);
            assert(name@ =~= b.name@);
            let value = match &b.value {
                ScopeValue::Number { text } => {
                    let mut t: Vec<char> = Vec::new();
                    copy_into(&mut t, text);
                    assert(t@ =~= text@);
                    ScopeValue::Number { text: t }
                },
                ScopeValue::Text { text } => {
                    let mut t: Vec<char> = Vec::new();
                    copy_into(&mut t, text);
                    assert(t@ =~= text@);
                    ScopeValue::Text { text: t }
                },
            };
            proof {
                assert(Binding { name, value }@ == b@);
            }
            copy.push(Binding { name, value });
            k += 1;
        }
        let acc = Scope { bindings: copy };
        proof {
            assert(acc@ =~= self@);
        }
        acc
    }

    /// Derives a child scope from this one, as `derive_spec` does.
    pub fn derive(&self, attrs: &Vec<Attr>) -> (r: Option<Scope>)
        ensures
            match r {
                Some(sc) => derive_spec(self@, attr_seq_view(attrs@)) == Some(sc@),
                None => derive_spec(self@, attr_seq_view(attrs@)) is None,
            },
    {
        let acc = self.duplicate();
        derive_rec(self, attrs, 0, acc)
    }
}

} // verus!
