use vstd::prelude::*;
use vstd::string::StrSliceExecFns;
use scraper::Selector;
use crate::provider::{ProviderSearchResult, ResolvedTarget, TargetView};
use crate::modrinth::result_view;
use crate::state::opt_view;
use crate::text::{strs, concat, string_of, str_eq, replace_char, replace_char_spec, to_lowercase, lowercase, split_char, split_spec, trim, trimmed, find_char};

verus! {

/// What the SourceForge project endpoint answers.
pub struct SfProject {
    pub name: String,
    pub shortdesc: Option<String>,
    pub url: Option<String>,
}

/// What the search page shows for one list item: the address of its first
/// link into `/projects/`, and the texts of its name and description elements.
pub struct ListingItem {
    pub href: Option<String>,
    pub title_text: Option<String>,
    pub description_text: Option<String>,
}

/// The SourceForge platform, as the library sees it: the addresses it uses.
pub struct SourceForgeClient {}

/// The most search results that the listing gives.
pub const SF_MAX_RESULTS: usize = 10;

/// The slug that a link address names: its third `/`-separated field, unless
/// there are fewer fields, or the field is empty or "search".
pub open spec fn listing_slug(href: Seq<char>) -> Option<Seq<char>> {
    let parts = split_spec(href, '/');
    if parts.len() < 3 || parts[2].len() == 0 || parts[2] == "search"@ {
        None
    } else {
        Some(parts[2])
    }
}

/// A listing item as the contracts see it: its link address, name text and
/// description text.
pub open spec fn item_view(it: ListingItem) -> (Option<Seq<char>>, Option<Seq<char>>, Option<Seq<char>>) {
    (opt_view(it.href), opt_view(it.title_text), opt_view(it.description_text))
}

/// The search result that a listing item with slug `slug` gives.
pub open spec fn listing_result(it: (Option<Seq<char>>, Option<Seq<char>>, Option<Seq<char>>), slug: Seq<char>)
    -> (Seq<char>, Seq<char>, Seq<char>, Option<Seq<char>>)
{
    (
        match it.1 {
            Some(t) => trimmed(t),
            None => slug,
        },
        match it.2 {
            Some(d) => trimmed(d),
            None => Seq::empty(),
        },
        slug,
        None,
    )
}

/// The results that the first `n` listing items give: each item with a usable
/// slug not given before adds a result, until there are `SF_MAX_RESULTS`.
pub open spec fn listing_results(items: Seq<(Option<Seq<char>>, Option<Seq<char>>, Option<Seq<char>>)>, n: int)
    -> Seq<(Seq<char>, Seq<char>, Seq<char>, Option<Seq<char>>)>
    decreases n,
{
    if n <= 0 {
        Seq::empty()
    } else {
        let prev = listing_results(items, n - 1);
        let it = items[n - 1];
        if prev.len() >= SF_MAX_RESULTS {
            prev
        } else {
            match it.0 {
                None => prev,
                Some(h) => match listing_slug(h) {
                    None => prev,
                    Some(slug) => if exists|k: int| 0 <= k < prev.len() && (#[trigger] prev[k]).2 == slug {
                        prev
                    } else {
                        prev.push(listing_result(it, slug))
                    },
                },
            }
        }
    }
}

/// The listing results are at most `SF_MAX_RESULTS`, their slugs are distinct,
/// and none is empty or "search".
pub proof fn lemma_listing_results(items: Seq<(Option<Seq<char>>, Option<Seq<char>>, Option<Seq<char>>)>, n: int)
    ensures
        listing_results(items, n).len() <= SF_MAX_RESULTS,
        forall|i: int, j: int| 0 <= i < j < listing_results(items, n).len()
            ==> (#[trigger] listing_results(items, n)[i]).2 != (#[trigger] listing_results(items, n)[j]).2,
        forall|i: int| 0 <= i < listing_results(items, n).len() ==> {
            let slug = (#[trigger] listing_results(items, n)[i]).2;
            slug.len() > 0 && slug != "search"@
        },
    decreases n,
{
    if n > 0 {
        lemma_listing_results(items, n - 1);
        let prev = listing_results(items, n - 1);
        let r = listing_results(items, n);
        assert forall|i: int| 0 <= i < r.len() - 1 && r.len() == prev.len() + 1 implies #[trigger] r[i] == prev[i] by {}
    }
}

/// What a page lists, as scraper reads it with the selectors given (for the list
/// items, the links within an item, and an item's name and description
/// elements): for each item, the `href` of its first link and the texts of its
/// first name and description elements; nothing when a selector does not parse.
pub uninterp spec fn listing_of(html: Seq<char>, item: Seq<char>, link: Seq<char>, name: Seq<char>, desc: Seq<char>)
    -> Option<Seq<(Option<Seq<char>>, Option<Seq<char>>, Option<Seq<char>>)>>;

/// Parses a page with `scraper::Html::parse_document` and the four selectors with
/// `scraper::Selector::parse`, then reads each item with `select`, `attr` and
/// `text`; the result is named `listing_of`, of the page and the selectors alone.
#[verifier::external_body]
fn listing_items(html: &str, item: &str, link: &str, name: &str, desc: &str) -> (r: Option<Vec<ListingItem>>)
    ensures
        r matches Some(v) ==> listing_of(html@, item@, link@, name@, desc@) == Some(v@.map_values(|i: ListingItem| item_view(i))),
        r is None ==> listing_of(html@, item@, link@, name@, desc@) is None,
{
    match (Selector::parse(item), Selector::parse(link), Selector::parse(name), Selector::parse(desc)) {
        (Ok(li), Ok(a), Ok(t), Ok(d)) => Some(scraper::Html::parse_document(html).select(&li).map(|e| {
            let text = |s: &Selector| e.select(s).next().map(|x| x.text().collect::<String>());
            let href = e.select(&a).next().and_then(|l| l.value().attr("href")).map(String::from);
            ListingItem { href, title_text: text(&t), description_text: text(&d) }
        }).collect()),
        _ => None,
    }
}

/// What the SourceForge search page lists: its list items, each with its first
/// link into `/projects/` and its `itemprop` name and description.
pub open spec fn page_listing(html: Seq<char>) -> Option<Seq<(Option<Seq<char>>, Option<Seq<char>>, Option<Seq<char>>)>> {
    listing_of(html, "li"@, "a[href^='/projects/']"@, "[itemprop='name']"@, "[itemprop='description']"@)
}

/// The search result for a project found by its normalized name `q`.
pub open spec fn fallback_view(q: Seq<char>, project: SfProject) -> (Seq<char>, Seq<char>, Seq<char>, Option<Seq<char>>) {
    (project.name@, match project.shortdesc {
        Some(d) => d@,
        None => Seq::empty(),
    }, q, opt_view(project.url))
}

/// The name under which a project is looked up: lowercased, spaces as dashes.
pub open spec fn normalized_name(name: Seq<char>) -> Seq<char> {
    replace_char_spec(lowercase(name), ' ', "-"@)
}

/// A project name without any `@version` suffix: the text before the first `@`.
pub open spec fn before_at(s: Seq<char>) -> Seq<char> {
    if exists|i: int| 0 <= i < s.len() && s[i] == '@' {
        s.subrange(0, choose|i: int| 0 <= i < s.len() && s[i] == '@' && forall|j: int| 0 <= j < i ==> s[j] != '@')
    } else {
        s
    }
}

/// The address of the latest download of a project.
pub open spec fn latest_download_url(name: Seq<char>) -> Seq<char> {
    "https://sourceforge.net/projects/"@ + name + "/files/latest/download"@
}

impl SourceForgeClient {
    pub fn new() -> (r: Self)
        ensures
            r == (SourceForgeClient {}),
    {
        SourceForgeClient {}
    }

    /// The root of the SourceForge REST API.
    pub fn base_url(&self) -> (r: &'static str)
        ensures
            r@ == "https://sourceforge.net/rest/p"@,
    {
        "https://sourceforge.net/rest/p"
    }

    /// The address of a project in the REST API.
    pub fn project_url(&self, project_name: &str) -> (r: String)
        ensures
            r@ == "https://sourceforge.net/rest/p"@ + "/"@ + project_name@,
    {
        concat(concat(self.base_url(), "/").as_str(), project_name)
    }

    /// The address of the latest download of a project.
    pub fn get_latest_download_url(&self, project_name: &str) -> (r: String)
        ensures
            r@ == latest_download_url(project_name@),
    {
        concat(concat("https://sourceforge.net/projects/", project_name).as_str(), "/files/latest/download")
    }

    /// The address of the search page for `query`, spaces written as `+`.
    pub fn search_url(&self, query: &str) -> (r: String)
        ensures
            r@ == "https://sourceforge.net/directory/?q="@ + replace_char_spec(query@, ' ', "+"@),
    {
        let q = replace_char(query, ' ', "+");
        concat("https://sourceforge.net/directory/?q=", q.as_str())
    }

    /// The search results that the listing items of the search page give, in order.
    pub fn listing_search_results(&self, items: &Vec<ListingItem>) -> (r: Vec<ProviderSearchResult>)
        ensures
            r@.map_values(|x: ProviderSearchResult| result_view(x)) == listing_results(items@.map_values(|i: ListingItem| item_view(i)), items@.len() as int),
    {
        let mut r: Vec<ProviderSearchResult> = Vec::new();
        let n = items.len();
        let mut i: usize = 0;
        while i < n
            invariant
                n == items@.len(),
                i <= n,
                r@.map_values(|x: ProviderSearchResult| result_view(x)) == listing_results(items@.map_values(|i: ListingItem| item_view(i)), i as int),
            decreases n - i,
        {
            let ghost iv = items@.map_values(|i: ListingItem| item_view(i));
            let ghost prev = listing_results(iv, i as int);
            assert(iv[i as int] == item_view(items@[i as int]));
            let ghost before = r@;
            if r.len() < SF_MAX_RESULTS {
                let it = &items[i];
                match &it.href {
                    None => {},
                    Some(h) => {
                        let parts = split_char(h.as_str(), '/');
                        if parts.len() >= 3 {
                            assert(strs(parts@)[2] == parts@[2]@);
                            let slug = &parts[2];
                            if slug.unicode_len() > 0 && !str_eq(slug.as_str(), "search") {
                                let mut dup = false;
                                let mut k: usize = 0;
                                let m = r.len();
                                while k < m
                                    invariant
                                        m == r@.len(),
                                        k <= m,
                                        r@ == before,
                                        r@.map_values(|x: ProviderSearchResult| result_view(x)) == prev,
                                        dup == exists|j: int| 0 <= j < k && (#[trigger] prev[j]).2 == slug@,
                                    decreases m - k,
                                {
                                    assert(prev[k as int] == result_view(r@[k as int]));
                                    if str_eq(r[k].id_or_slug.as_str(), slug.as_str()) {
                                        dup = true;
                                    }
                                    k = k + 1;
                                }
                                if !dup {
                                    let title = match &it.title_text {
                                        Some(t) => trim(t.as_str()),
                                        None => slug.clone(),
                                    };
                                    let description = match &it.description_text {
                                        Some(d) => trim(d.as_str()),
                                        None => String::new(),
                                    };
                                    r.push(ProviderSearchResult { title, description, id_or_slug: slug.clone(), extra: None });
                                    assert(r@.map_values(|x: ProviderSearchResult| result_view(x)) =~= prev.push(listing_result(item_view(*it), slug@)));
                                }
                            }
                        }
                    },
                }
            }
            i = i + 1;
        }
        r
    }

    /// The search results that a search page gives: its listing items, as
    /// scraper reads them, taken in order as `listing_search_results` takes them.
    pub fn search_results_from_page(&self, html: &str) -> (r: Vec<ProviderSearchResult>)
        ensures
            page_listing(html@) matches Some(items)
                ==> r@.map_values(|x: ProviderSearchResult| result_view(x)) == listing_results(items, items.len() as int),
            page_listing(html@) is None ==> r@.len() == 0,
    {
        match listing_items(html, "li", "a[href^='/projects/']", "[itemprop='name']", "[itemprop='description']") {
            Some(items) => {
                proof {
                    assert(items@.map_values(|i: ListingItem| item_view(i)).len() == items@.len());
                }
                self.listing_search_results(&items)
            },
            None => Vec::new(),
        }
    }

    /// The search result for a project found by its normalized name, when the
    /// listing gave none.
    pub fn fallback_result(&self, normalized_query: &str, project: SfProject) -> (r: ProviderSearchResult)
        ensures
            result_view(r) == fallback_view(normalized_query@, project),
    {
        ProviderSearchResult {
            title: project.name,
            description: match project.shortdesc {
                Some(d) => d,
                None => String::new(),
            },
            id_or_slug: string_of(normalized_query),
            extra: project.url,
        }
    }

    /// The project name to look up when the search page gave no result: the
    /// normalized query; nothing to look up when it gave some.
    pub fn fallback_query(&self, results: &Vec<ProviderSearchResult>, query: &str) -> (r: Option<String>)
        ensures
            results@.len() == 0 ==> (r matches Some(n) && n@ == normalized_name(query@)),
            results@.len() > 0 ==> r is None,
    {
        if results.len() == 0 {
            Some(self.normalize_name(query))
        } else {
            None
        }
    }

    /// The results of a search: those of the search page when it gave some;
    /// else the project found under the normalized query, if one was found.
    pub fn with_fallback(&self, results: Vec<ProviderSearchResult>, normalized_query: &str, project: Option<SfProject>) -> (r: Vec<ProviderSearchResult>)
        ensures
            results@.len() > 0 ==> r@ == results@,
            results@.len() == 0 && project is None ==> r@.len() == 0,
            results@.len() == 0 ==> (project matches Some(p) ==> r@.len() == 1 && result_view(r@[0]) == fallback_view(normalized_query@, p)),
    {
        if results.len() > 0 {
            return results;
        }
        let mut r: Vec<ProviderSearchResult> = Vec::new();
        match project {
            Some(p) => {
                r.push(self.fallback_result(normalized_query, p));
            },
            None => {},
        }
        r
    }

    /// The name under which a project is looked up: lowercased, spaces as dashes.
    pub fn normalize_name(&self, name: &str) -> (r: String)
        ensures
            r@ == normalized_name(name@),
    {
        let lc = to_lowercase(name);
        replace_char(lc.as_str(), ' ', "-")
    }

    /// The name that resolving `project_name` looks up: the part before any
    /// `@version`, normalized.
    pub fn resolve_name(&self, project_name: &str) -> (r: String)
        ensures
            r@ == normalized_name(before_at(project_name@)),
    {
        match find_char(project_name, '@') {
            None => self.normalize_name(project_name),
            Some(i) => {
                let head = project_name.substring_char(0, i);
                self.normalize_name(head)
            },
        }
    }

    /// The one target that resolving a project gives: its latest download.
    pub fn resolved_target(&self, normalized_name: &str, project: SfProject) -> (r: ResolvedTarget)
        ensures
            r@ == (TargetView {
                id: normalized_name@,
                name: project.name@,
                download_url: latest_download_url(normalized_name@),
                hash: None,
                filename: normalized_name@ + "-latest.jar"@,
                source: "sourceforge"@,
                version: "latest"@,
                dependencies: Seq::empty(),
            }),
    {
        let deps: Vec<String> = Vec::new();
        assert(strs(deps@) =~= Seq::<Seq<char>>::empty());
        ResolvedTarget {
            id: string_of(normalized_name),
            name: project.name,
            download_url: self.get_latest_download_url(normalized_name),
            hash: None,
            filename: concat(normalized_name, "-latest.jar"),
            source: string_of("sourceforge"),
            version: string_of("latest"),
            dependencies: deps,
        }
    }
}

} // verus!
