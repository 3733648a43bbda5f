//! The registry that finds a provider definition by its name.
use vstd::prelude::*;

use crate::auth::GatewayError;
use crate::providers::{
    AzureDef, FireworksAi, GoogleDef, Groq, Mistral, ModelScope, ModelScopeCn, OpenRouter, ProviderMeta, StepFun,
    Xai, ZhipuAi,
};
use crate::text::{concat, str_eq};

verus! {

/// The providers built into the gateway.
#[derive(Clone, Copy, Debug, PartialEq, Eq, Structural)]
pub enum BuiltinProvider {
    Azure,
    FireworksAi,
    Gemini,
    Groq,
    Mistral,
    ModelScope,
    ModelScopeCn,
    OpenRouter,
    StepFun,
    Xai,
    ZhipuAi,
}

/// The name a built-in provider is registered under.
pub open spec fn builtin_name(p: BuiltinProvider) -> Seq<char> {
    match p {
        BuiltinProvider::Azure => AzureDef.provider_name(),
        BuiltinProvider::FireworksAi => FireworksAi.provider_name(),
        BuiltinProvider::Gemini => GoogleDef.provider_name(),
        BuiltinProvider::Groq => Groq.provider_name(),
        BuiltinProvider::Mistral => Mistral.provider_name(),
        BuiltinProvider::ModelScope => ModelScope.provider_name(),
        BuiltinProvider::ModelScopeCn => ModelScopeCn.provider_name(),
        BuiltinProvider::OpenRouter => OpenRouter.provider_name(),
        BuiltinProvider::StepFun => StepFun.provider_name(),
        BuiltinProvider::Xai => Xai.provider_name(),
        BuiltinProvider::ZhipuAi => ZhipuAi.provider_name(),
    }
}

impl BuiltinProvider {
    /// The name the provider is registered under.
    pub fn name(&self) -> (r: &'static str)
        ensures
            r@ == builtin_name(*self),
    {
        match self {
            BuiltinProvider::Azure => AzureDef.name(),
            BuiltinProvider::FireworksAi => FireworksAi.name(),
            BuiltinProvider::Gemini => GoogleDef.name(),
            BuiltinProvider::Groq => Groq.name(),
            BuiltinProvider::Mistral => Mistral.name(),
            BuiltinProvider::ModelScope => ModelScope.name(),
            BuiltinProvider::ModelScopeCn => ModelScopeCn.name(),
            BuiltinProvider::OpenRouter => OpenRouter.name(),
            BuiltinProvider::StepFun => StepFun.name(),
            BuiltinProvider::Xai => Xai.name(),
            BuiltinProvider::ZhipuAi => ZhipuAi.name(),
        }
    }
}

/// No two definitions share a name.
pub open spec fn names_distinct(defs: Seq<BuiltinProvider>) -> bool {
    forall|i: int, j: int|
        0 <= i < defs.len() && 0 <= j < defs.len() && i != j ==> builtin_name(#[trigger] defs[i]) != builtin_name(
            #[trigger] defs[j],
        )
}

/// The first definition registered under `name`.
pub open spec fn registered(defs: Seq<BuiltinProvider>, name: Seq<char>) -> Option<BuiltinProvider>
    decreases defs.len(),
{
    if defs.len() == 0 {
        None
    } else if builtin_name(defs[0]) == name {
        Some(defs[0])
    } else {
        registered(defs.drop_first(), name)
    }
}

/// The message for a second provider under a name already taken.
pub open spec fn duplicate_message(name: Seq<char>) -> Seq<char> {
    "provider "@ + name + " is already registered"@
}

/// Provider definitions being registered.
#[derive(Debug)]
pub struct ProviderRegistryBuilder {
    defs: Vec<BuiltinProvider>,
}

/// The registered provider definitions, found by name.
#[derive(Debug)]
pub struct ProviderRegistry {
    defs: Vec<BuiltinProvider>,
}

impl View for ProviderRegistryBuilder {
    type V = Seq<BuiltinProvider>;

    closed spec fn view(&self) -> Seq<BuiltinProvider> {
        self.defs@
    }
}

impl View for ProviderRegistry {
    type V = Seq<BuiltinProvider>;

    closed spec fn view(&self) -> Seq<BuiltinProvider> {
        self.defs@
    }
}

/// A lookup in a list grown by one finds the new definition under its
/// name when no earlier one has it, and what it found before otherwise.
pub proof fn lemma_registered_push(defs: Seq<BuiltinProvider>, p: BuiltinProvider, name: Seq<char>)
    ensures
        registered(defs.push(p), name) == if registered(defs, name) is Some {
            registered(defs, name)
        } else if builtin_name(p) == name {
            Some(p)
        } else {
            None
        },
    decreases defs.len(),
{
    let d = defs.push(p);
    if defs.len() > 0 {
        assert(d[0] == defs[0]);
        assert(d.drop_first() =~= defs.drop_first().push(p));
        lemma_registered_push(defs.drop_first(), p, name);
        if builtin_name(defs[0]) != name {
            assert(registered(d, name) == registered(d.drop_first(), name));
            assert(registered(defs, name) == registered(defs.drop_first(), name));
        }
    } else {
        assert(d[0] == p);
        assert(d.drop_first() =~= Seq::<BuiltinProvider>::empty());
        assert(registered(d.drop_first(), name) is None);
        assert(registered(defs, name) is None);
    }
}

/// What the lookup finds has the name looked up, and is among the
/// definitions; nothing is found only where no definition has the name.
pub proof fn lemma_registered_found(defs: Seq<BuiltinProvider>, name: Seq<char>)
    ensures
        registered(defs, name) matches Some(p) ==> builtin_name(p) == name && defs.contains(p),
        registered(defs, name) is None <==> forall|i: int| 0 <= i < defs.len() ==> builtin_name(#[trigger] defs[i]) != name,
    decreases defs.len(),
{
    if defs.len() > 0 {
        lemma_registered_found(defs.drop_first(), name);
        if let Some(p) = registered(defs.drop_first(), name) {
            if builtin_name(defs[0]) != name {
                let k = choose|k: int| 0 <= k < defs.drop_first().len() && defs.drop_first()[k] == p;
                assert(defs[k + 1] == p);
            }
        }
        if builtin_name(defs[0]) != name {
            assert forall|i: int| 0 <= i < defs.len() && registered(defs.drop_first(), name) is None implies builtin_name(
                #[trigger] defs[i],
            ) != name by {
                if i > 0 {
                    assert(defs[i] == defs.drop_first()[i - 1]);
                }
            }
            if registered(defs.drop_first(), name) is Some {
                let k = choose|k: int| 0 <= k < defs.drop_first().len() && builtin_name(#[trigger] defs.drop_first()[k]) == name;
                assert(defs[k + 1] == defs.drop_first()[k]);
            }
        }
    }
}

impl ProviderRegistry {
    /// A builder with nothing registered.
    pub fn builder() -> (r: ProviderRegistryBuilder)
        ensures
            r@ == Seq::<BuiltinProvider>::empty(),
    {
        ProviderRegistryBuilder { defs: Vec::new() }
    }

    /// The definition registered under `name`.
    pub fn get(&self, name: &str) -> (r: Option<BuiltinProvider>)
        ensures
            r == registered(self@, name@),
    {
        let mut i: usize = 0;
        proof {
            assert(self.defs@.subrange(0, self.defs@.len() as int) =~= self.defs@);
        }
        while i < self.defs.len()
            invariant
                0 <= i <= self.defs@.len(),
                registered(self.defs@, name@) == registered(self.defs@.subrange(i as int, self.defs@.len() as int), name@),
            decreases self.defs.len() - i,
        {
            let ghost rest = self.defs@.subrange(i as int, self.defs@.len() as int);
            proof {
                assert(rest.drop_first() =~= self.defs@.subrange(i + 1, self.defs@.len() as int));
            }
            let p = self.defs[i];
            if str_eq(p.name(), name) {
                return Some(p);
            }
            i += 1;
        }
        None
    }
}

impl ProviderRegistryBuilder {
    /// Adds a definition, refusing a second one under a name already taken.
    pub fn register(self, provider: BuiltinProvider) -> (r: Result<ProviderRegistryBuilder, GatewayError>)
        ensures
            r is Err <==> registered(self@, builtin_name(provider)) is Some,
            r matches Ok(b) ==> b@ == self@.push(provider),
            r matches Err(e) ==> e matches GatewayError::Validation(m) && m@ == duplicate_message(
                builtin_name(provider),
            ),
    {
        let name = provider.name();
        let mut i: usize = 0;
        while i < self.defs.len()
            invariant
                0 <= i <= self.defs@.len(),
                name@ == builtin_name(provider),
                forall|j: int| 0 <= j < i ==> builtin_name(#[trigger] self.defs@[j]) != name@,
            decreases self.defs.len() - i,
        {
            if str_eq(self.defs[i].name(), name) {
                proof {
                    assert(builtin_name(self.defs@[i as int]) == name@);
                    lemma_registered_found(self.defs@, name@);
                }
                let head = concat("provider ", name);
                return Err(GatewayError::Validation(concat(head.as_str(), " is already registered")));
            }
            i += 1;
        }
        proof {
            lemma_registered_found(self.defs@, name@);
        }
        let mut defs = self.defs;
        defs.push(provider);
        Ok(ProviderRegistryBuilder { defs })
    }

    /// The registry of what was registered.
    pub fn build(self) -> (r: ProviderRegistry)
        ensures
            r@ == self@,
    {
        ProviderRegistry { defs: self.defs }
    }
}

/// Registering a definition whose name is free makes the registry find it
/// under that name, and changes nothing found under other names.
pub proof fn law_register_then_get(defs: Seq<BuiltinProvider>, p: BuiltinProvider, name: Seq<char>)
    requires
        registered(defs, builtin_name(p)) is None,
    ensures
        registered(defs.push(p), builtin_name(p)) == Some(p),
        name != builtin_name(p) ==> registered(defs.push(p), name) == registered(defs, name),
{
    lemma_registered_push(defs, p, builtin_name(p));
    lemma_registered_push(defs, p, name);
}

/// A registry built only by registering keeps its names distinct.
pub proof fn law_registered_names_distinct(defs: Seq<BuiltinProvider>, p: BuiltinProvider)
    requires
        names_distinct(defs),
        registered(defs, builtin_name(p)) is None,
    ensures
        names_distinct(defs.push(p)),
{
    lemma_registered_found(defs, builtin_name(p));
    let d = defs.push(p);
    assert forall|i: int, j: int|
        0 <= i < d.len() && 0 <= j < d.len() && i != j implies builtin_name(#[trigger] d[i]) != builtin_name(
            #[trigger] d[j],
        ) by {
        if i < defs.len() && j < defs.len() {
            assert(d[i] == defs[i] && d[j] == defs[j]);
        } else if i < defs.len() {
            assert(d[i] == defs[i]);
        } else {
            assert(d[j] == defs[j]);
        }
    }
}

/// Every built-in provider, in registration order.
pub open spec fn all_builtins() -> Seq<BuiltinProvider> {
    seq![
        BuiltinProvider::Azure,
        BuiltinProvider::FireworksAi,
        BuiltinProvider::Gemini,
        BuiltinProvider::Groq,
        BuiltinProvider::Mistral,
        BuiltinProvider::ModelScope,
        BuiltinProvider::ModelScopeCn,
        BuiltinProvider::OpenRouter,
        BuiltinProvider::StepFun,
        BuiltinProvider::Xai,
        BuiltinProvider::ZhipuAi,
    ]
}

/// No two built-in providers share a name.
proof fn lemma_builtin_names_injective(p: BuiltinProvider, q: BuiltinProvider)
    ensures
        builtin_name(p) == builtin_name(q) ==> p == q,
{
    reveal_strlit("azure");
    reveal_strlit("fireworks-ai");
    reveal_strlit("gemini");
    reveal_strlit("groq");
    reveal_strlit("mistral");
    reveal_strlit("modelscope");
    reveal_strlit("modelscope-cn");
    reveal_strlit("openrouter");
    reveal_strlit("stepfun");
    reveal_strlit("xai");
    reveal_strlit("zhipuai");
    let a = builtin_name(p);
    let b = builtin_name(q);
    if a == b {
        assert(a.len() == b.len());
        if a.len() > 0 {
            assert(a[0] == b[0]);
        }
    }
}

/// A registry whose names are distinct finds each of its definitions
/// under its name.
pub proof fn lemma_registered_distinct(defs: Seq<BuiltinProvider>, i: int)
    requires
        names_distinct(defs),
        0 <= i < defs.len(),
    ensures
        registered(defs, builtin_name(defs[i])) == Some(defs[i]),
    decreases i,
{
    if i > 0 {
        assert(builtin_name(defs[0]) != builtin_name(defs[i]));
        let rest = defs.drop_first();
        assert(rest[i - 1] == defs[i]);
        assert forall|a: int, b: int|
            0 <= a < rest.len() && 0 <= b < rest.len() && a != b implies builtin_name(#[trigger] rest[a])
            != builtin_name(#[trigger] rest[b]) by {
            assert(rest[a] == defs[a + 1] && rest[b] == defs[b + 1]);
        }
        lemma_registered_distinct(rest, i - 1);
    }
}

/// The registry of every built-in provider, each found under its name.
pub fn default_provider_registry() -> (r: Result<ProviderRegistry, GatewayError>)
    ensures
        r is Ok,
        r matches Ok(reg) ==> reg@ == all_builtins(),
        r matches Ok(reg) ==> forall|p: BuiltinProvider| #[trigger] registered(reg@, builtin_name(p)) == Some(p),
{
    let all = vec![
        BuiltinProvider::Azure,
        BuiltinProvider::FireworksAi,
        BuiltinProvider::Gemini,
        BuiltinProvider::Groq,
        BuiltinProvider::Mistral,
        BuiltinProvider::ModelScope,
        BuiltinProvider::ModelScopeCn,
        BuiltinProvider::OpenRouter,
        BuiltinProvider::StepFun,
        BuiltinProvider::Xai,
        BuiltinProvider::ZhipuAi,
    ];
    proof {
        assert(all@ =~= all_builtins());
        assert forall|i: int, j: int|
            0 <= i < all@.len() && 0 <= j < all@.len() && i != j implies builtin_name(#[trigger] all@[i])
            != builtin_name(#[trigger] all@[j]) by {
            lemma_builtin_names_injective(all@[i], all@[j]);
        }
    }
    let mut builder = ProviderRegistry::builder();
    let mut i: usize = 0;
    while i < all.len()
        invariant
            0 <= i <= all@.len(),
            all@ == all_builtins(),
            names_distinct(all@),
            builder@ == all@.take(i as int),
        decreases all.len() - i,
    {
        proof {
            lemma_registered_found(all@.take(i as int), builtin_name(all@[i as int]));
            assert forall|j: int| 0 <= j < i implies builtin_name(#[trigger] all@.take(i as int)[j]) != builtin_name(
                all@[i as int],
            ) by {
                assert(all@.take(i as int)[j] == all@[j]);
            }
            assert(all@.take(i + 1) =~= all@.take(i as int).push(all@[i as int]));
        }
        builder = match builder.register(all[i]) {
            Ok(b) => b,
            Err(e) => {
                return Err(e);
            },
        };
        i += 1;
    }
    let reg = builder.build();
    proof {
        assert(all@.take(i as int) =~= all@);
        assert forall|p: BuiltinProvider| #[trigger] registered(reg@, builtin_name(p)) == Some(p) by {
            let k: int = match p {
                BuiltinProvider::Azure => 0,
                BuiltinProvider::FireworksAi => 1,
                BuiltinProvider::Gemini => 2,
                BuiltinProvider::Groq => 3,
                BuiltinProvider::Mistral => 4,
                BuiltinProvider::ModelScope => 5,
                BuiltinProvider::ModelScopeCn => 6,
                BuiltinProvider::OpenRouter => 7,
                BuiltinProvider::StepFun => 8,
                BuiltinProvider::Xai => 9,
                BuiltinProvider::ZhipuAi => 10,
            };
            assert(all@[k] == p);
            lemma_registered_distinct(all@, k);
        }
    }
    Ok(reg)
}

} // verus!
