//! Rewriting a request body: injecting `provider.order` and qualifying the
//! `model` field, with every other field kept as it was.
use vstd::prelude::*;
use vstd::string::*;
use crate::config::{resolve, strings_view, Config, RuleView};
use crate::json::{
    array_value, entries, get_entry, insert_entry, into_object, list_value, new_object, no_entries,
    object_of, object_value, object_with, remove_entry, str_of, string_value, text_of, text_value,
};

verus! {

/// The provider routing hint that a request body carries.
#[derive(Debug, Clone)]
pub struct Provider {
    /// Providers to try, in order.
    pub order: Vec<String>,
}

/// How the providers of a request are chosen.
#[derive(Debug, Clone)]
pub enum Routing {
    /// From the routing table, by the body's `model` field.
    Table,
    /// A provider named by the request path.
    Explicit(String),
    /// None: the body is forwarded as it came.
    Passthrough,
}

/// The text of the body's `model` field, where it is a JSON string.
pub open spec fn model_text(f: Map<Seq<char>, serde_json::Value>) -> Option<Seq<char>> {
    if f.contains_key("model"@) {
        str_of(f["model"@])
    } else {
        None
    }
}

/// The entries of the body's `provider` object; none where the field is
/// absent or is not an object.
pub open spec fn provider_base(f: Map<Seq<char>, serde_json::Value>) -> Map<Seq<char>, serde_json::Value> {
    if f.contains_key("provider"@) && object_of(f["provider"@]) is Some {
        object_of(f["provider"@])->0
    } else {
        no_entries()
    }
}

/// The JSON array of the providers' names, in order.
pub open spec fn order_value(ps: Seq<Seq<char>>) -> serde_json::Value {
    array_value(ps.map_values(|p: Seq<char>| string_value(p)))
}

/// The entries of the `provider` object after its `order` is set to `ps`.
pub open spec fn provider_entries(f: Map<Seq<char>, serde_json::Value>, ps: Seq<Seq<char>>) -> Map<
    Seq<char>,
    serde_json::Value,
> {
    provider_base(f).insert("order"@, order_value(ps))
}

/// The body with `provider.order` set to `ps`: merged into the `provider`
/// object where there is one, a new object in its place otherwise, and every
/// other field unchanged.
pub open spec fn with_order(f: Map<Seq<char>, serde_json::Value>, ps: Seq<Seq<char>>) -> Map<
    Seq<char>,
    serde_json::Value,
> {
    f.insert("provider"@, object_with(provider_entries(f, ps)))
}

/// The body with its `model` written `<provider>/<model>`, where `model` is a
/// string without a `/`; the body unchanged otherwise.
pub open spec fn qualified(f: Map<Seq<char>, serde_json::Value>, provider: Seq<char>) -> Map<
    Seq<char>,
    serde_json::Value,
> {
    match model_text(f) {
        Some(m) => if m.contains('/') {
            f
        } else {
            f.insert("model"@, string_value(provider + seq!['/'] + m))
        },
        None => f,
    }
}

/// The text of `model` after [`qualified`].
pub open spec fn qualified_text(f: Map<Seq<char>, serde_json::Value>, provider: Seq<char>) -> Option<
    Seq<char>,
> {
    match model_text(f) {
        Some(m) => if m.contains('/') {
            Some(m)
        } else {
            Some(provider + seq!['/'] + m)
        },
        None => None,
    }
}

/// The providers that `routing` picks for the body, if any.
pub open spec fn chosen_providers(
    f: Map<Seq<char>, serde_json::Value>,
    routing: Routing,
    rules: Seq<RuleView>,
) -> Option<Seq<Seq<char>>> {
    match routing {
        Routing::Table => match model_text(f) {
            Some(m) => resolve(m, rules),
            None => None,
        },
        Routing::Explicit(p) => Some(seq![p@]),
        Routing::Passthrough => None,
    }
}

/// The body before its providers are set: with the `model` qualified where
/// the path names the provider.
pub open spec fn prepared(f: Map<Seq<char>, serde_json::Value>, routing: Routing) -> Map<
    Seq<char>,
    serde_json::Value,
> {
    match routing {
        Routing::Explicit(p) => qualified(f, p@),
        _ => f,
    }
}

/// The body rewritten for `routing` under `rules`: by the routing table, the
/// providers of the first rule that matches `model`; for a provider named by
/// the path, that provider, with `model` qualified by it; for passthrough, or
/// where no rule matches, the body unchanged.
pub open spec fn rewritten(f: Map<Seq<char>, serde_json::Value>, routing: Routing, rules: Seq<RuleView>) -> Map<
    Seq<char>,
    serde_json::Value,
> {
    match chosen_providers(f, routing, rules) {
        Some(ps) => with_order(prepared(f, routing), ps),
        None => f,
    }
}

/// The text of `model` after a rewrite for `routing`.
pub open spec fn rewritten_model_text(f: Map<Seq<char>, serde_json::Value>, routing: Routing) -> Option<
    Seq<char>,
> {
    match routing {
        Routing::Explicit(p) => qualified_text(f, p@),
        _ => model_text(f),
    }
}

/// `after` is the rewrite of `before`, and reads back as written: its
/// `model` text and its `provider` object are the ones the rewrite put there.
pub open spec fn body_rewritten(
    before: Map<Seq<char>, serde_json::Value>,
    after: Map<Seq<char>, serde_json::Value>,
    routing: Routing,
    rules: Seq<RuleView>,
) -> bool {
    &&& after == rewritten(before, routing, rules)
    &&& model_text(after) == rewritten_model_text(before, routing)
    &&& chosen_providers(before, routing, rules) matches Some(ps) ==> object_of(after["provider"@])
        == Some(provider_entries(prepared(before, routing), ps))
}

/// A rewrite keeps every field other than `model` and `provider`, with its
/// value.
pub proof fn lemma_other_fields_kept(
    before: Map<Seq<char>, serde_json::Value>,
    routing: Routing,
    rules: Seq<RuleView>,
    key: Seq<char>,
)
    requires
        key != "model"@,
        key != "provider"@,
    ensures
        rewritten(before, routing, rules).contains_key(key) == before.contains_key(key),
        before.contains_key(key) ==> rewritten(before, routing, rules)[key] == before[key],
{
}

/// Setting `provider.order` again to the list it already holds changes
/// nothing.
proof fn lemma_with_order_stable(
    f: Map<Seq<char>, serde_json::Value>,
    ps: Seq<Seq<char>>,
    e: Map<Seq<char>, serde_json::Value>,
)
    requires
        f.contains_key("provider"@),
        f["provider"@] == object_with(e),
        object_of(f["provider"@]) == Some(e),
        e.contains_key("order"@),
        e["order"@] == order_value(ps),
    ensures
        with_order(f, ps) == f,
{
    assert(provider_entries(f, ps) =~= e);
    assert(with_order(f, ps) =~= f);
}

/// Setting `provider.order` twice to the same list gives the body that
/// setting it once gave: `b1` is what [`set_providers`] leaves of `b0`.
pub proof fn lemma_set_providers_idempotent(
    b0: Map<Seq<char>, serde_json::Value>,
    b1: Map<Seq<char>, serde_json::Value>,
    ps: Seq<Seq<char>>,
)
    requires
        b1 == with_order(b0, ps),
        object_of(b1["provider"@]) == Some(provider_entries(b0, ps)),
    ensures
        with_order(b1, ps) == b1,
{
    lemma_with_order_stable(b1, ps, provider_entries(b0, ps));
}

/// Rewriting a body that a rewrite produced, for the same route and rules,
/// changes nothing; in particular `provider.order` stays as the first
/// rewrite set it.
pub proof fn lemma_rewrite_idempotent(
    b0: Map<Seq<char>, serde_json::Value>,
    b1: Map<Seq<char>, serde_json::Value>,
    routing: Routing,
    rules: Seq<RuleView>,
)
    requires
        body_rewritten(b0, b1, routing, rules),
    ensures
        rewritten(b1, routing, rules) == b1,
{
    reveal_strlit("model");
    reveal_strlit("provider");
    assert("model"@.len() == 5);
    assert("provider"@.len() == 8);
    assert(chosen_providers(b1, routing, rules) == chosen_providers(b0, routing, rules));
    match chosen_providers(b0, routing, rules) {
        Some(ps) => {
            let e = provider_entries(prepared(b0, routing), ps);
            if let Routing::Explicit(p) = routing {
                if let Some(m) = model_text(b0) {
                    if !m.contains('/') {
                        let q = p@ + seq!['/'] + m;
                        assert(q[p@.len() as int] == '/');
                    }
                }
                assert(prepared(b1, routing) == b1);
            }
            lemma_with_order_stable(b1, ps, e);
        },
        None => {},
    }
}

/// The JSON array of the providers' names.
pub fn order_list(providers: Vec<String>) -> (r: serde_json::Value)
    ensures
        r == order_value(strings_view(providers@)),
{
    let mut items: Vec<serde_json::Value> = Vec::new();
    let mut i: usize = 0;
    while i < providers.len()
        invariant
            i <= providers@.len(),
            items@ == strings_view(providers@).subrange(0, i as int).map_values(
                |p: Seq<char>| string_value(p),
            ),
        decreases providers@.len() - i,
    {
        items.push(text_value(providers[i].clone()));
        i = i + 1;
        assert(items@ =~= strings_view(providers@).subrange(0, i as int).map_values(
            |p: Seq<char>| string_value(p),
        ));
    }
    assert(strings_view(providers@).subrange(0, i as int) =~= strings_view(providers@));
    list_value(items)
}

/// Sets the body's `provider.order` to the providers, in order: merged into
/// the `provider` object where there is one, in a new object that replaces
/// the field where it is absent or not an object.
pub fn set_providers(doc: &mut serde_json::Map<String, serde_json::Value>, providers: Vec<String>)
    ensures
        entries(*final(doc)) == with_order(entries(*old(doc)), strings_view(providers@)),
        object_of(entries(*final(doc))["provider"@]) == Some(
            provider_entries(entries(*old(doc)), strings_view(providers@)),
        ),
{
    let ghost before = entries(*doc);
    let order = order_list(providers);
    let mut base = match remove_entry(doc, "provider") {
        Some(v) => match into_object(v) {
            Ok(obj) => obj,
            Err(_) => new_object(),
        },
        None => new_object(),
    };
    assert(entries(base) == provider_base(before));
    insert_entry(&mut base, String::from_str("order"), order);
    insert_entry(doc, String::from_str("provider"), object_value(base));
    assert(entries(*doc) =~= with_order(before, strings_view(providers@)));
}

/// Whether `c` occurs in `s`.
pub fn has_char(s: &str, c: char) -> (r: bool)
    ensures
        r == s@.contains(c),
{
    let n = s.unicode_len();
    let mut i: usize = 0;
    while i < n
        invariant
            n == s@.len(),
            i <= n,
            forall|k: int| 0 <= k < i ==> s@[k] != c,
        decreases n - i,
    {
        if s.get_char(i) == c {
            return true;
        }
        i = i + 1;
    }
    false
}

/// The text of the body's `model` field, where it is a JSON string.
pub fn model_of(doc: &serde_json::Map<String, serde_json::Value>) -> (r: Option<String>)
    ensures
        r is Some == model_text(entries(*doc)) is Some,
        r matches Some(m) ==> model_text(entries(*doc)) == Some(m@),
{
    match get_entry(doc, "model") {
        Some(v) => text_of(v),
        None => None,
    }
}

/// Writes the body's `model` as `<provider>/<model>`, unless it is not a
/// string or already holds a `/`.
pub fn qualify_model(doc: &mut serde_json::Map<String, serde_json::Value>, provider: &str)
    ensures
        entries(*final(doc)) == qualified(entries(*old(doc)), provider@),
        model_text(entries(*final(doc))) == qualified_text(entries(*old(doc)), provider@),
{
    if let Some(m) = model_of(doc) {
        if !has_char(m.as_str(), '/') {
            let q = String::from_str(provider).concat("/").concat(m.as_str());
            proof {
                reveal_strlit("/");
            }
            assert(q@ =~= provider@ + seq!['/'] + m@);
            insert_entry(doc, String::from_str("model"), text_value(q));
        }
    }
}

impl Config {
    /// Rewrites the body for `routing`: by the routing table, the providers of
    /// the first rule that matches the body's `model`; for a provider named by
    /// the path, that provider, with the `model` qualified by it; for
    /// passthrough, nothing.
    pub fn rewrite_body(&self, doc: &mut serde_json::Map<String, serde_json::Value>, routing: &Routing)
        ensures
            body_rewritten(entries(*old(doc)), entries(*final(doc)), *routing, self.rules()),
    {
        proof {
            reveal_strlit("model");
            reveal_strlit("provider");
            assert("model"@.len() == 5);
            assert("provider"@.len() == 8);
        }
        match routing {
            Routing::Table => {
                if let Some(m) = model_of(doc) {
                    if let Some(ps) = self.find_providers_for_model(m.as_str()) {
                        let ghost before = entries(*doc);
                        set_providers(doc, ps);
                        assert(model_text(entries(*doc)) == model_text(before));
                    }
                }
            },
            Routing::Explicit(p) => {
                qualify_model(doc, p.as_str());
                let ghost mid = entries(*doc);
                let mut ps: Vec<String> = Vec::new();
                ps.push(p.clone());
                assert(strings_view(ps@) =~= seq![p@]);
                set_providers(doc, ps);
                assert(model_text(entries(*doc)) == model_text(mid));
            },
            Routing::Passthrough => {},
        }
    }
}

} // verus!
