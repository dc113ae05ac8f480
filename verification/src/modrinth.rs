use vstd::prelude::*;
use crate::ordered_map::OrderedMap;
use crate::provider::ProviderSearchResult;
use crate::state::opt_view;
use crate::text::{strs, concat, string_of};
use crate::web::{append_query_pair, url_with_pair};

verus! {

/// The answer of the Modrinth search endpoint.
pub struct SearchResponse {
    pub hits: Vec<SearchResult>,
}

/// One hit of a Modrinth search.
pub struct SearchResult {
    pub slug: String,
    pub title: String,
    pub description: String,
    pub project_type: String,
}

/// A Modrinth project.
pub struct Project {
    pub id: String,
    pub slug: String,
    pub title: String,
}

/// A dependency of a Modrinth version: on a version, on a project, or both.
pub struct Dependency {
    pub version_id: Option<String>,
    pub project_id: Option<String>,
    pub dependency_type: String,
}

/// A file of a Modrinth version, with its hashes by algorithm name.
pub struct VersionFile {
    pub hashes: OrderedMap<String>,
    pub url: String,
    pub filename: String,
    pub primary: bool,
}

/// A Modrinth version of a project.
pub struct Version {
    pub id: String,
    pub project_id: String,
    pub version_number: String,
    pub dependencies: Vec<Dependency>,
    pub files: Vec<VersionFile>,
}

/// The Modrinth platform, as the library sees it: the addresses of its API.
pub struct ModrinthClient {}

/// The text that the search hit of a project of type `t` carries as extra information.
pub open spec fn project_type_label(t: Seq<char>) -> Seq<char> {
    "Project Type: "@ + t
}

/// A search hit as the user sees it.
pub open spec fn hit_result(h: SearchResult) -> (Seq<char>, Seq<char>, Seq<char>, Option<Seq<char>>) {
    (h.title@, h.description@, h.slug@, Some(project_type_label(h.project_type@)))
}

/// A search result as the contracts see it.
pub open spec fn result_view(r: ProviderSearchResult) -> (Seq<char>, Seq<char>, Seq<char>, Option<Seq<char>>) {
    (r.title@, r.description@, r.id_or_slug@, opt_view(r.extra))
}

impl ModrinthClient {
    pub fn new() -> (r: Self)
        ensures
            r == (ModrinthClient {}),
    {
        ModrinthClient {}
    }

    /// The root of the Modrinth API.
    pub fn base_url(&self) -> (r: &'static str)
        ensures
            r@ == "https://api.modrinth.com/v2"@,
    {
        "https://api.modrinth.com/v2"
    }

    /// The address of a search for `query`.
    pub fn search_url(&self, query: &str) -> (r: Option<String>)
        ensures
            opt_view(r) == url_with_pair("https://api.modrinth.com/v2"@ + "/search"@, "query"@, query@),
    {
        let endpoint = concat(self.base_url(), "/search");
        append_query_pair(endpoint.as_str(), "query", query)
    }

    /// The address of a project, by id or slug.
    pub fn project_url(&self, id_or_slug: &str) -> (r: String)
        ensures
            r@ == "https://api.modrinth.com/v2"@ + "/project/"@ + id_or_slug@,
    {
        let base = concat(self.base_url(), "/project/");
        concat(base.as_str(), id_or_slug)
    }

    /// The address of a version, by id.
    pub fn version_url(&self, version_id: &str) -> (r: String)
        ensures
            r@ == "https://api.modrinth.com/v2"@ + "/version/"@ + version_id@,
    {
        let base = concat(self.base_url(), "/version/");
        concat(base.as_str(), version_id)
    }

    /// The address that lists the versions of a project for one game version
    /// and one loader: the `game_versions` and `loaders` filters each hold a
    /// JSON list of one string.
    pub fn versions_url(&self, project_id: &str, mc_version: &str, loader: &str) -> (r: Option<String>)
        ensures
            ({
                let endpoint = "https://api.modrinth.com/v2"@ + "/project/"@ + project_id@ + "/version"@;
                let gv = "[\""@ + mc_version@ + "\"]"@;
                let ld = "[\""@ + loader@ + "\"]"@;
                opt_view(r) == match url_with_pair(endpoint, "game_versions"@, gv) {
                    Some(u) => url_with_pair(u, "loaders"@, ld),
                    None => None,
                }
            }),
    {
        let game_versions = concat(concat("[\"", mc_version).as_str(), "\"]");
        let loaders = concat(concat("[\"", loader).as_str(), "\"]");
        let endpoint = concat(self.project_url(project_id).as_str(), "/version");
        match append_query_pair(endpoint.as_str(), "game_versions", game_versions.as_str()) {
            None => None,
            Some(u) => append_query_pair(u.as_str(), "loaders", loaders.as_str()),
        }
    }

    /// The search results for the hits of a search answer, in order: title,
    /// description, slug, and the project type as extra information.
    pub fn search_results(&self, response: SearchResponse) -> (r: Vec<ProviderSearchResult>)
        ensures
            r@.len() == response.hits@.len(),
            forall|i: int| 0 <= i < r@.len() ==> result_view(#[trigger] r@[i]) == hit_result(response.hits@[i]),
    {
        let mut r: Vec<ProviderSearchResult> = Vec::new();
        let n = response.hits.len();
        let mut i: usize = 0;
        while i < n
            invariant
                n == response.hits@.len(),
                i <= n,
                r@.len() == i,
                forall|k: int| 0 <= k < i ==> result_view(#[trigger] r@[k]) == hit_result(response.hits@[k]),
            decreases n - i,
        {
            let h = &response.hits[i];
            let extra = concat("Project Type: ", h.project_type.as_str());
            r.push(ProviderSearchResult {
                title: h.title.clone(),
                description: h.description.clone(),
                id_or_slug: h.slug.clone(),
                extra: Some(extra),
            });
            i = i + 1;
        }
        r
    }
}

} // verus!
