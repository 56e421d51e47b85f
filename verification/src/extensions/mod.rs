//! The extensions of the gateway, each built from its own configuration, and the
//! registry that builds each one at most once.
use vstd::prelude::*;

pub mod client;
pub mod rate_limit;
pub mod server;
pub mod cache;
pub mod event_bus;
pub mod merge_subscription;
pub mod telemetry;
pub mod validate;
pub mod api;
pub mod merge_subscriptions;

verus! {

/// A registry of extensions: `registry` holds those built so far, `builder` builds
/// those that the configuration has.
pub struct ExtensionRegistry<R, B> {
    registry: R,
    builder: B,
}

impl<R, B> ExtensionRegistry<R, B> {
    pub closed spec fn registry_view(&self) -> R {
        self.registry
    }

    pub fn registry(&self) -> (r: &R)
        ensures
            *r == self.registry_view(),
    {
        &self.registry
    }

    pub closed spec fn builder_view(&self) -> B {
        self.builder
    }

    pub fn new(registry: R, builder: B) -> (r: Self)
        ensures
            r.registry_view() == registry,
            r.builder_view() == builder,
    {
        ExtensionRegistry { registry, builder }
    }

    pub fn builder(&self) -> (b: &B)
        ensures
            *b == self.builder_view(),
    {
        &self.builder
    }
}

/// What a lookup of an extension does.
#[derive(Debug, Clone, Copy, PartialEq, Eq, Structural)]
pub enum LookupAction {
    /// Hand out the extension that is already built.
    UseExisting,
    /// Build it from the configuration, store it, then hand it out.
    Build,
    /// There is none and none can be built.
    Missing,
}

/// The lookup of an extension: one already built is handed out; else it is built if
/// the configuration has it; else there is none.
pub open spec fn lookup_of(built: bool, configured: bool) -> LookupAction {
    if built {
        LookupAction::UseExisting
    } else if configured {
        LookupAction::Build
    } else {
        LookupAction::Missing
    }
}

/// The lookup of an extension (see `lookup_of`). So each extension is built at most
/// once (see `lemma_built_at_most_once`).
pub fn lookup_action(built: bool, configured: bool) -> (a: LookupAction)
    ensures
        a == lookup_of(built, configured),
        built ==> a == LookupAction::UseExisting,
        !built && configured ==> a == LookupAction::Build,
        !built && !configured ==> a == LookupAction::Missing,
{
    if built {
        LookupAction::UseExisting
    } else if configured {
        LookupAction::Build
    } else {
        LookupAction::Missing
    }
}

/// Whether the extension is built after a lookup that did `a`.
pub open spec fn built_after(a: LookupAction, built: bool) -> bool {
    built || a == LookupAction::Build
}

/// The actions of `n` lookups in a row of one extension, from a registry where it is
/// `built` or not; a lookup that builds it stores it for the next.
pub open spec fn lookup_run(built: bool, configured: bool, n: nat) -> Seq<LookupAction>
    decreases n,
{
    if n == 0 {
        Seq::empty()
    } else {
        let a = lookup_of(built, configured);
        seq![a] + lookup_run(built_after(a, built), configured, (n - 1) as nat)
    }
}

proof fn lemma_lookup_run_values(built: bool, configured: bool, n: nat)
    ensures
        lookup_run(built, configured, n).len() == n,
        forall|i: int| 0 <= i < n ==> #[trigger] lookup_run(built, configured, n)[i] == if built {
            LookupAction::UseExisting
        } else if configured {
            if i == 0 { LookupAction::Build } else { LookupAction::UseExisting }
        } else {
            LookupAction::Missing
        },
    decreases n,
{
    if n > 0 {
        let a = lookup_of(built, configured);
        let rest = lookup_run(built_after(a, built), configured, (n - 1) as nat);
        lemma_lookup_run_values(built_after(a, built), configured, (n - 1) as nat);
        assert forall|i: int| 0 <= i < n implies #[trigger] lookup_run(built, configured, n)[i] == if built {
            LookupAction::UseExisting
        } else if configured {
            if i == 0 { LookupAction::Build } else { LookupAction::UseExisting }
        } else {
            LookupAction::Missing
        } by {
            if i > 0 {
                assert(lookup_run(built, configured, n)[i] == rest[i - 1]);
            }
        }
    }
}

/// However many times an extension is looked up, it is built at most once: only by
/// the first lookup, when it is configured and not built yet, and every later lookup
/// hands out the one built. One that is not configured and not built is missing each
/// time.
pub proof fn lemma_built_at_most_once(built: bool, configured: bool, n: nat)
    ensures
        forall|i: int, j: int| 0 <= i < j < n ==> !(#[trigger] lookup_run(built, configured, n)[i] == LookupAction::Build
            && #[trigger] lookup_run(built, configured, n)[j] == LookupAction::Build),
        forall|i: int| 0 < i < n && (built || configured) ==> #[trigger] lookup_run(built, configured, n)[i] == LookupAction::UseExisting,
        !built && configured && n > 0 ==> lookup_run(built, configured, n)[0] == LookupAction::Build,
        forall|i: int| 0 <= i < n && !built && !configured ==> #[trigger] lookup_run(built, configured, n)[i] == LookupAction::Missing,
{
    lemma_lookup_run_values(built, configured, n);
}

} // verus!
