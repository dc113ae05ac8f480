use vstd::prelude::*;
use crate::ordered_map::OrderedMap;
use crate::modrinth::ModrinthClient;
use crate::sourceforge::SourceForgeClient;
use crate::state::opt_view;
use crate::text::{strs, string_of, to_lowercase, lowercase, concat, ascii_seq, ascii_lower};

verus! {

/// One hit of a search on a mod platform.
pub struct ProviderSearchResult {
    pub title: String,
    pub description: String,
    pub id_or_slug: String,
    pub extra: Option<String>,
}

/// A mod file that resolution settled on, with what installing it records.
pub struct ResolvedTarget {
    pub id: String,
    pub name: String,
    pub download_url: String,
    pub hash: Option<String>,
    pub filename: String,
    pub source: String,
    pub version: String,
    pub dependencies: Vec<String>,
}

/// A resolved target as the contracts see it.
pub struct TargetView {
    pub id: Seq<char>,
    pub name: Seq<char>,
    pub download_url: Seq<char>,
    pub hash: Option<Seq<char>>,
    pub filename: Seq<char>,
    pub source: Seq<char>,
    pub version: Seq<char>,
    pub dependencies: Seq<Seq<char>>,
}

impl View for ResolvedTarget {
    type V = TargetView;

    open spec fn view(&self) -> TargetView {
        TargetView {
            id: self.id@,
            name: self.name@,
            download_url: self.download_url@,
            hash: opt_view(self.hash),
            filename: self.filename@,
            source: self.source@,
            version: self.version@,
            dependencies: strs(self.dependencies@),
        }
    }
}

/// A mod platform, known by an id and a display name.
pub trait ModProvider {
    /// The id of the platform.
    spec fn spec_id(&self) -> Seq<char>;

    /// The id of the platform, by which the registry knows it.
    fn id(&self) -> (r: &'static str)
        ensures
            r@ == self.spec_id(),
    ;

    /// The name of the platform shown to the user.
    spec fn spec_display_name(&self) -> Seq<char>;

    /// The name of the platform shown to the user.
    fn display_name(&self) -> (r: &'static str)
        ensures
            r@ == self.spec_display_name(),
    ;
}

impl ModProvider for ModrinthClient {
    open spec fn spec_id(&self) -> Seq<char> {
        "modrinth"@
    }

    fn id(&self) -> (r: &'static str) {
        "modrinth"
    }

    open spec fn spec_display_name(&self) -> Seq<char> {
        "Modrinth"@
    }

    fn display_name(&self) -> (r: &'static str) {
        "Modrinth"
    }
}

impl ModProvider for SourceForgeClient {
    open spec fn spec_id(&self) -> Seq<char> {
        "sourceforge"@
    }

    fn id(&self) -> (r: &'static str) {
        "sourceforge"
    }

    open spec fn spec_display_name(&self) -> Seq<char> {
        "SourceForge"@
    }

    fn display_name(&self) -> (r: &'static str) {
        "SourceForge"
    }
}

/// One of the platforms that the manager talks to.
pub enum Provider {
    Modrinth(ModrinthClient),
    SourceForge(SourceForgeClient),
}

impl ModProvider for Provider {
    open spec fn spec_id(&self) -> Seq<char> {
        match self {
            Provider::Modrinth(c) => c.spec_id(),
            Provider::SourceForge(c) => c.spec_id(),
        }
    }

    fn id(&self) -> (r: &'static str) {
        match self {
            Provider::Modrinth(c) => c.id(),
            Provider::SourceForge(c) => c.id(),
        }
    }

    open spec fn spec_display_name(&self) -> Seq<char> {
        match self {
            Provider::Modrinth(c) => c.spec_display_name(),
            Provider::SourceForge(c) => c.spec_display_name(),
        }
    }

    fn display_name(&self) -> (r: &'static str) {
        match self {
            Provider::Modrinth(c) => c.display_name(),
            Provider::SourceForge(c) => c.display_name(),
        }
    }
}

/// Why the registry gave no provider.
#[derive(Debug)]
pub enum RegistryError {
    /// No provider is registered under the (lowercased) id asked for.
    NotFound(String),
}

impl RegistryError {
    /// The message shown to the user.
    pub fn message(&self) -> (r: String)
        ensures
            r@ == match *self {
                RegistryError::NotFound(id) => "Provider '"@ + id@ + "' not found"@,
            },
    {
        match self {
            RegistryError::NotFound(id) => concat(concat("Provider '", id.as_str()).as_str(), "' not found"),
        }
    }
}

/// The providers by lowercased id, and the providers registered under other
/// names (aliases), each map by lowercased key.
pub struct ProviderRegistry<P> {
    providers: OrderedMap<P>,
    aliases: OrderedMap<P>,
}

impl<P: ModProvider> ProviderRegistry<P> {
    /// The providers registered under their own ids, by lowercased id.
    pub closed spec fn ids(&self) -> Map<Seq<char>, P> {
        self.providers.map()
    }

    /// The providers registered under other names, by lowercased name.
    pub closed spec fn alias_map(&self) -> Map<Seq<char>, P> {
        self.aliases.map()
    }

    /// What a lookup finds, by lowercased key: a provider under its own id
    /// comes before one registered under the same key as another name.
    pub open spec fn view(&self) -> Map<Seq<char>, P> {
        self.alias_map().union_prefer_right(self.ids())
    }

    /// Every provider registered under its own id sits under its lowercased id.
    pub closed spec fn wf(&self) -> bool {
        &&& self.providers.wf()
        &&& self.aliases.wf()
        &&& forall|k: Seq<char>| #[trigger] self.providers.map().contains_key(k)
            ==> lowercase(self.providers.map()[k].spec_id()) == k
    }

    /// An empty registry.
    pub fn new() -> (r: Self)
        ensures
            r.wf(),
            r.ids() == Map::<Seq<char>, P>::empty(),
            r.alias_map() == Map::<Seq<char>, P>::empty(),
            r.view() == Map::<Seq<char>, P>::empty(),
    {
        let r = ProviderRegistry { providers: OrderedMap::new(), aliases: OrderedMap::new() };
        assert(r.view() =~= Map::<Seq<char>, P>::empty());
        r
    }

    /// Registers `provider` under its lowercased id, replacing any provider there.
    pub fn register(&mut self, provider: P)
        requires
            old(self).wf(),
        ensures
            final(self).wf(),
            final(self).ids() == old(self).ids().insert(lowercase(provider.spec_id()), provider),
            final(self).alias_map() == old(self).alias_map(),
            final(self).view() == old(self).view().insert(lowercase(provider.spec_id()), provider),
            ascii_seq(provider.spec_id()) ==> lowercase(provider.spec_id()) == ascii_lower(provider.spec_id()),
    {
        let key = to_lowercase(provider.id());
        let ghost k = key@;
        let ghost p = provider;
        let ghost v0 = self.view();
        self.providers.insert(key, provider);
        assert(self.providers.map()[k] == p);
        assert(self.view() =~= v0.insert(k, p));
    }

    /// Registers `provider` under the lowercased `key` as another name for it; a
    /// provider registered under its own id there still comes first.
    pub fn register_as(&mut self, key: &str, provider: P)
        requires
            old(self).wf(),
        ensures
            final(self).wf(),
            final(self).ids() == old(self).ids(),
            final(self).alias_map() == old(self).alias_map().insert(lowercase(key@), provider),
            old(self).ids().contains_key(lowercase(key@)) ==> final(self).view() == old(self).view(),
            !old(self).ids().contains_key(lowercase(key@)) ==> final(self).view() == old(self).view().insert(lowercase(key@), provider),
            ascii_seq(key@) ==> lowercase(key@) == ascii_lower(key@),
    {
        let k = to_lowercase(key);
        let ghost kk = k@;
        let ghost p = provider;
        let ghost v0 = self.view();
        self.aliases.insert(k, provider);
        assert(self.view() =~= (if self.ids().contains_key(kk) { v0 } else { v0.insert(kk, p) }));
    }

    /// The provider registered under the lowercased `id`: under its own id first,
    /// else under another name.
    pub fn get(&self, id: &str) -> (r: Result<&P, RegistryError>)
        requires
            self.wf(),
        ensures
            self.view().contains_key(lowercase(id@)) ==> (r matches Ok(p) && *p == self.view()[lowercase(id@)]),
            !self.view().contains_key(lowercase(id@)) ==> (r matches Err(RegistryError::NotFound(e)) && e@ == id@),
            r matches Ok(p) ==> (self.ids().contains_key(lowercase(id@)) ==> lowercase(p.spec_id()) == lowercase(id@)),
            ascii_seq(id@) ==> lowercase(id@) == ascii_lower(id@),
    {
        let key = to_lowercase(id);
        match self.providers.get(key.as_str()) {
            Some(p) => Ok(p),
            None => match self.aliases.get(key.as_str()) {
                Some(p) => Ok(p),
                None => Err(RegistryError::NotFound(string_of(id))),
            },
        }
    }

    /// The default provider: Modrinth, the provider registered under its own id
    /// "modrinth"; an error naming "modrinth" when there is none.
    pub fn get_default(&self) -> (r: Result<&P, RegistryError>)
        requires
            self.wf(),
        ensures
            self.ids().contains_key("modrinth"@) ==> (r matches Ok(p) && *p == self.ids()["modrinth"@]
                && *p == self.view()["modrinth"@]),
            !self.ids().contains_key("modrinth"@) ==> (r matches Err(RegistryError::NotFound(e)) && e@ == "modrinth"@),
            r matches Ok(p) ==> lowercase(p.spec_id()) == "modrinth"@,
    {
        match self.providers.get("modrinth") {
            Some(p) => Ok(p),
            None => Err(RegistryError::NotFound(string_of("modrinth"))),
        }
    }
}

/// The registry of the platforms: Modrinth, and SourceForge also known as "sf".
pub fn build_registry() -> (r: ProviderRegistry<Provider>)
    ensures
        r.wf(),
        r.ids() == Map::<Seq<char>, Provider>::empty()
            .insert("modrinth"@, Provider::Modrinth(ModrinthClient {}))
            .insert("sourceforge"@, Provider::SourceForge(SourceForgeClient {})),
        r.alias_map() == Map::<Seq<char>, Provider>::empty().insert("sf"@, Provider::SourceForge(SourceForgeClient {})),
        r.view() == Map::<Seq<char>, Provider>::empty()
            .insert("modrinth"@, Provider::Modrinth(ModrinthClient {}))
            .insert("sourceforge"@, Provider::SourceForge(SourceForgeClient {}))
            .insert("sf"@, Provider::SourceForge(SourceForgeClient {})),
{
    proof {
        reveal_strlit("modrinth");
        reveal_strlit("sourceforge");
        reveal_strlit("sf");
        assert(ascii_seq("modrinth"@));
        assert(ascii_lower("modrinth"@) =~= "modrinth"@);
        assert(ascii_seq("sourceforge"@));
        assert(ascii_lower("sourceforge"@) =~= "sourceforge"@);
        assert(ascii_seq("sf"@));
        assert(ascii_lower("sf"@) =~= "sf"@);
        assert("sf"@.len() != "modrinth"@.len());
        assert("sf"@.len() != "sourceforge"@.len());
    }
    let mut reg = ProviderRegistry::new();
    reg.register(Provider::Modrinth(ModrinthClient::new()));
    reg.register(Provider::SourceForge(SourceForgeClient::new()));
    reg.register_as("sf", Provider::SourceForge(SourceForgeClient::new()));
    reg
}

} // verus!
