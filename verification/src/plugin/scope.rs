//! Scope gating: which plugins take part in a request.
//!
//! A plugin's bindings are kept per dimension (route, model, provider, global).
//! The nearest scope that has a binding decides (route > model > provider >
//! global); without any, the plugin's own `enabled` flag does.
use vstd::prelude::*;
use crate::assoc::StrMap;
use crate::plugin::manifest::{declares, Manifest};
use crate::protocol::context::ReqCtx;
use crate::text::str_eq;

verus! {

/// A table from scope keys to on/off flags.
pub type FlagTable = StrMap<bool>;

/// Lookup in a map as an `Option`.
pub open spec fn lookup<K, V>(m: Map<K, V>, k: K) -> Option<V> {
    if m.dom().contains(k) {
        Some(m[k])
    } else {
        None
    }
}

/// Whether some key of `m` is bound to `true`.
pub open spec fn any_set(m: Map<Seq<char>, bool>) -> bool {
    exists|k: Seq<char>| m.dom().contains(k) && #[trigger] m[k]
}

/// All scope bindings of one plugin.
#[derive(Debug, Default)]
pub struct ScopeOverrides {
    /// scope `route`: route alias -> enabled.
    pub route: FlagTable,
    /// scope `model`: upstream model name or alias -> enabled.
    pub model: FlagTable,
    /// scope `provider`: provider key -> enabled.
    pub provider: FlagTable,
    /// scope `global`.
    pub global: Option<bool>,
}

/// The decision of the nearest bound scope: route, then model, then provider,
/// then global, and else the plugin's own flag.
pub open spec fn scope_decision(
    o: ScopeOverrides,
    enabled: bool,
    route: Option<Seq<char>>,
    model: Seq<char>,
    provider: Option<Seq<char>>,
) -> bool {
    if route is Some && o.route.map().dom().contains(route->0) {
        o.route.map()[route->0]
    } else if o.model.map().dom().contains(model) {
        o.model.map()[model]
    } else if provider is Some && o.provider.map().dom().contains(provider->0) {
        o.provider.map()[provider->0]
    } else {
        match o.global {
            Some(g) => g,
            None => enabled,
        }
    }
}

/// The model key a request is gated on: the upstream model once routed, else
/// the alias the client asked for.
pub open spec fn model_key(ctx: ReqCtx) -> Seq<char> {
    match ctx.upstream_model {
        Some(m) => m@,
        None => ctx.model_alias@,
    }
}

pub open spec fn opt_chars(o: Option<String>) -> Option<Seq<char>> {
    match o {
        Some(s) => Some(s@),
        None => None,
    }
}

/// Whether a plugin with flag `enabled` and bindings `o` (if any) takes part
/// in the request of `ctx`.
pub open spec fn plugin_effective(o: Option<ScopeOverrides>, enabled: bool, ctx: ReqCtx) -> bool {
    match o {
        None => enabled,
        Some(t) => scope_decision(
            t,
            enabled,
            opt_chars(ctx.route_alias),
            model_key(ctx),
            opt_chars(ctx.provider_key),
        ),
    }
}

impl ScopeOverrides {
    /// Records one binding. `scope` is `route`, `model`, `provider` or `global`
    /// (which ignores the key); any other scope is ignored.
    pub fn insert(&mut self, scope: &str, scope_key: String, enabled: bool)
        ensures
            scope@ == "route"@ ==> final(self).route.map() == old(self).route.map().insert(
                scope_key@,
                enabled,
            ),
            scope@ != "route"@ ==> final(self).route.map() == old(self).route.map(),
            scope@ == "model"@ ==> final(self).model.map() == old(self).model.map().insert(
                scope_key@,
                enabled,
            ),
            scope@ != "model"@ ==> final(self).model.map() == old(self).model.map(),
            scope@ == "provider"@ ==> final(self).provider.map() == old(
                self,
            ).provider.map().insert(scope_key@, enabled),
            scope@ != "provider"@ ==> final(self).provider.map() == old(self).provider.map(),
            final(self).global == if scope@ == "global"@ {
                Some(enabled)
            } else {
                old(self).global
            },
    {
        proof {
            reveal_strlit("route");
            reveal_strlit("model");
            reveal_strlit("provider");
            reveal_strlit("global");
            assert("route"@[0] != "model"@[0]);
            assert("route"@[0] != "provider"@[0]);
            assert("route"@[0] != "global"@[0]);
            assert("model"@[0] != "provider"@[0]);
            assert("model"@[0] != "global"@[0]);
            assert("provider"@[0] != "global"@[0]);
        }
        if str_eq(scope, "route") {
            self.route.insert(scope_key, enabled);
        } else if str_eq(scope, "model") {
            self.model.insert(scope_key, enabled);
        } else if str_eq(scope, "provider") {
            self.provider.insert(scope_key, enabled);
        } else if str_eq(scope, "global") {
            self.global = Some(enabled);
        }
    }

    /// Whether any binding enables the plugin (a disabled plugin is still
    /// loaded when this holds).
    pub fn any_enabled(&self) -> (r: bool)
        ensures
            r == (self.global == Some(true) || any_set(self.route.map()) || any_set(
                self.model.map(),
            ) || any_set(self.provider.map())),
    {
        let g = match self.global {
            Some(b) => b,
            None => false,
        };
        g || self.route.any_true() || self.model.any_true() || self.provider.any_true()
    }

    /// The decision of the nearest bound scope for the given keys (see
    /// [`scope_decision`]).
    pub fn decide(
        &self,
        enabled: bool,
        route: Option<&str>,
        model: &str,
        provider: Option<&str>,
    ) -> (r: bool)
        ensures
            r == scope_decision(
                *self,
                enabled,
                match route {
                    Some(k) => Some(k@),
                    None => None,
                },
                model@,
                match provider {
                    Some(k) => Some(k@),
                    None => None,
                },
            ),
    {
        if let Some(k) = route {
            if let Some(v) = self.route.get(k) {
                return *v;
            }
        }
        if let Some(v) = self.model.get(model) {
            return *v;
        }
        if let Some(k) = provider {
            if let Some(v) = self.provider.get(k) {
                return *v;
            }
        }
        match self.global {
            Some(g) => g,
            None => enabled,
        }
    }
}

/// The facts about a plugin that decide whether it takes part in a request.
#[derive(Debug)]
pub struct PluginGate {
    /// Plugin name (authoritative, from the store).
    pub name: String,
    /// The plugin's own switch.
    pub enabled: bool,
    pub manifest: Manifest,
}

/// The bindings of the first entry named `name`.
pub open spec fn binding_of(bs: Seq<(String, ScopeOverrides)>, name: Seq<char>) -> Option<
    ScopeOverrides,
>
    decreases bs.len(),
{
    if bs.len() == 0 {
        None
    } else if bs[0].0@ == name {
        Some(bs[0].1)
    } else {
        binding_of(bs.drop_first(), name)
    }
}

/// The bindings recorded for plugin `name`, if any.
pub fn find_binding<'a>(bs: &'a Vec<(String, ScopeOverrides)>, name: &str) -> (r: Option<
    &'a ScopeOverrides,
>)
    ensures
        match r {
            Some(o) => binding_of(bs@, name@) == Some(*o),
            None => binding_of(bs@, name@) is None,
        },
{
    let mut i: usize = 0;
    assert(bs@.skip(0) == bs@);
    while i < bs.len()
        invariant
            i <= bs@.len(),
            binding_of(bs@, name@) == binding_of(bs@.skip(i as int), name@),
        decreases bs@.len() - i,
    {
        proof {
            assert(bs@.skip(i as int).drop_first() == bs@.skip(i + 1));
        }
        if str_eq(bs[i].0.as_str(), name) {
            return Some(&bs[i].1);
        }
        i = i + 1;
    }
    None
}

/// Whether plugin `p` takes part in the request of `ctx`.
pub fn effective(p: &PluginGate, bs: &Vec<(String, ScopeOverrides)>, ctx: &ReqCtx) -> (r: bool)
    ensures
        r == plugin_effective(binding_of(bs@, p.name@), p.enabled, *ctx),
{
    match find_binding(bs, p.name.as_str()) {
        None => p.enabled,
        Some(t) => {
            let route = match &ctx.route_alias {
                Some(s) => Some(s.as_str()),
                None => None,
            };
            let model = match &ctx.upstream_model {
                Some(m) => m.as_str(),
                None => ctx.model_alias.as_str(),
            };
            let provider = match &ctx.provider_key {
                Some(s) => Some(s.as_str()),
                None => None,
            };
            t.decide(p.enabled, route, model, provider)
        },
    }
}

/// Whether plugin `p` is called for hooks of capability `cap` on `ctx`.
pub open spec fn is_eligible(p: PluginGate, bs: Seq<(String, ScopeOverrides)>, cap: Seq<char>, ctx: ReqCtx) -> bool {
    declares(p.manifest.capabilities@, cap) && plugin_effective(binding_of(bs, p.name@), p.enabled, ctx)
}

/// The positions, in loading order, of the plugins that declare `cap` and take
/// part in the request of `ctx`.
pub fn eligible(
    plugins: &Vec<PluginGate>,
    bs: &Vec<(String, ScopeOverrides)>,
    cap: &str,
    ctx: &ReqCtx,
) -> (r: Vec<usize>)
    ensures
        forall|k: int| 0 <= k < r@.len() ==> #[trigger] r@[k] < plugins@.len() && is_eligible(
            plugins@[r@[k] as int],
            bs@,
            cap@,
            *ctx,
        ),
        forall|a: int, b: int| 0 <= a < b < r@.len() ==> #[trigger] r@[a] < #[trigger] r@[b],
        forall|i: int|
            0 <= i < plugins@.len() && is_eligible(plugins@[i], bs@, cap@, *ctx) ==> r@.contains(
                i as usize,
            ),
{
    let mut r: Vec<usize> = Vec::new();
    let mut i: usize = 0;
    while i < plugins.len()
        invariant
            i <= plugins@.len(),
            forall|k: int| 0 <= k < r@.len() ==> #[trigger] r@[k] < i && is_eligible(
                plugins@[r@[k] as int],
                bs@,
                cap@,
                *ctx,
            ),
            forall|a: int, b: int| 0 <= a < b < r@.len() ==> #[trigger] r@[a] < #[trigger] r@[b],
            forall|j: int|
                0 <= j < i && is_eligible(plugins@[j], bs@, cap@, *ctx) ==> r@.contains(j as usize),
        decreases plugins@.len() - i,
    {
        let p = &plugins[i];
        if p.manifest.has(cap) && effective(p, bs, ctx) {
            let ghost before = r@;
            r.push(i);
            proof {
                assert forall|j: int|
                    0 <= j < i + 1 && is_eligible(plugins@[j], bs@, cap@, *ctx) implies r@.contains(
                    j as usize,
                ) by {
                    if j < i {
                        let w = choose|w: int| 0 <= w < before.len() && before[w] == j as usize;
                        assert(r@[w] == j as usize);
                    } else {
                        assert(r@[r@.len() - 1] == i);
                    }
                }
            }
        }
        i = i + 1;
    }
    r
}

/// The nearest bound scope decides: a route binding overrides model, provider
/// and global ones; a model binding overrides provider and global ones; a
/// provider binding overrides the global one; the global binding overrides
/// the plugin's own switch.
pub proof fn law_nearest_scope_wins(
    o: ScopeOverrides,
    enabled: bool,
    route: Option<Seq<char>>,
    model: Seq<char>,
    provider: Option<Seq<char>>,
)
    ensures
        route is Some && o.route.map().dom().contains(route->0) ==> scope_decision(
            o,
            enabled,
            route,
            model,
            provider,
        ) == o.route.map()[route->0],
        !(route is Some && o.route.map().dom().contains(route->0)) && o.model.map().dom().contains(
            model,
        ) ==> scope_decision(o, enabled, route, model, provider) == o.model.map()[model],
        !(route is Some && o.route.map().dom().contains(route->0)) && !o.model.map().dom().contains(
            model,
        ) && provider is Some && o.provider.map().dom().contains(provider->0) ==> scope_decision(
            o,
            enabled,
            route,
            model,
            provider,
        ) == o.provider.map()[provider->0],
{
}

/// Before routing (no route alias, provider or upstream model, and an empty
/// alias that no model binding names), only the global binding or else the
/// plugin's own switch decides; a plugin without any bindings follows its
/// switch on every request.
pub proof fn law_unrouted_request_gated_globally(o: ScopeOverrides, enabled: bool, ctx: ReqCtx)
    requires
        ctx.route_alias is None,
        ctx.provider_key is None,
        ctx.upstream_model is None,
        !o.model.map().dom().contains(ctx.model_alias@),
    ensures
        plugin_effective(Some(o), enabled, ctx) == match o.global {
            Some(g) => g,
            None => enabled,
        },
        plugin_effective(None, enabled, ctx) == enabled,
{
}

/// A routed request is gated on the model it goes to: when no route binding
/// applies and the plugin has a model binding for the upstream model, that
/// binding decides, whatever the alias the client asked for. Before routing
/// (no upstream model) a model binding for the alias decides.
pub proof fn law_model_binding_follows_the_upstream_model(o: ScopeOverrides, enabled: bool, ctx: ReqCtx, m: String)
    requires
        !(ctx.route_alias matches Some(r) && o.route.map().dom().contains(r@)),
    ensures
        ctx.upstream_model == Some(m) && o.model.map().dom().contains(m@) ==> plugin_effective(
            Some(o),
            enabled,
            ctx,
        ) == o.model.map()[m@],
        ctx.upstream_model is None && o.model.map().dom().contains(ctx.model_alias@) ==> plugin_effective(
            Some(o),
            enabled,
            ctx,
        ) == o.model.map()[ctx.model_alias@],
{
}

} // verus!
