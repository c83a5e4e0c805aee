//! Source definitions, the configuration that lists them, and the naming scheme that
//! gives each source its own directory.
use vstd::prelude::*;
use crate::text::{copy_str, decimal, decimal_string};

verus! {

/// A git repository to acquire, at a branch, tag or commit (`main` when absent).
#[derive(Debug)]
pub struct GitSource {
    pub repo_url: String,
    pub reference: Option<String>,
}

/// A wiki space to acquire.
#[derive(Debug)]
pub struct ConfluenceSource {
    pub base_url: String,
    pub space_key: String,
}

/// What to acquire: one repository or one wiki space.
#[derive(Debug)]
pub enum SourceAction {
    Git(GitSource),
    Confluence(ConfluenceSource),
}

/// The loaded configuration: where sources go, and which sources to acquire.
#[derive(Debug)]
pub struct Config {
    pub output_dir: String,
    pub sources: Vec<SourceAction>,
}

/// The mathematical value of a `SourceAction`.
pub enum SourceSpec {
    Repository { origin: Seq<char>, reference: Option<Seq<char>> },
    WikiSpace { base_url: Seq<char>, space_key: Seq<char> },
}

impl View for GitSource {
    type V = SourceSpec;

    open spec fn view(&self) -> SourceSpec {
        SourceSpec::Repository {
            origin: self.repo_url@,
            reference: match self.reference {
                Some(r) => Some(r@),
                None => None,
            },
        }
    }
}

impl View for ConfluenceSource {
    type V = SourceSpec;

    open spec fn view(&self) -> SourceSpec {
        SourceSpec::WikiSpace { base_url: self.base_url@, space_key: self.space_key@ }
    }
}

impl View for SourceAction {
    type V = SourceSpec;

    open spec fn view(&self) -> SourceSpec {
        match self {
            SourceAction::Git(g) => g@,
            SourceAction::Confluence(c) => c@,
        }
    }
}

/// The views of a list of sources.
pub open spec fn specs_of(v: Seq<SourceAction>) -> Seq<SourceSpec> {
    v.map_values(|s: SourceAction| s@)
}

/// The reference that a repository is checked out at.
pub open spec fn effective_reference(reference: Option<Seq<char>>) -> Seq<char> {
    match reference {
        Some(r) => r,
        None => "main"@,
    }
}

/// A character of a directory name: `/` and `:` become `_`.
pub open spec fn safe_char(c: char) -> char {
    if c == '/' || c == ':' { '_' } else { c }
}

/// `s` with every `/` and `:` replaced by `_`.
pub open spec fn safe_name(s: Seq<char>) -> Seq<char> {
    s.map_values(|c: char| safe_char(c))
}

/// The directory name of a repository.
pub open spec fn repository_dir_name(origin: Seq<char>, reference: Option<Seq<char>>) -> Seq<char> {
    safe_name("git_"@ + origin + "_"@ + effective_reference(reference))
}

/// The directory name of a wiki space.
pub open spec fn wiki_dir_name(base_url: Seq<char>, space_key: Seq<char>) -> Seq<char> {
    safe_name("confluence_"@ + base_url + "_"@ + space_key)
}

/// The directory that a source is acquired into, below the output root.
pub open spec fn directory_name(s: SourceSpec) -> Seq<char> {
    match s {
        SourceSpec::Repository { origin, reference } => repository_dir_name(origin, reference),
        SourceSpec::WikiSpace { base_url, space_key } => wiki_dir_name(base_url, space_key),
    }
}

/// A reference that cannot be mistaken for part of the origin inside a directory name.
pub open spec fn is_plain_reference(r: Seq<char>) -> bool {
    forall|i: int| 0 <= i < r.len() ==> r[i] != '_' && r[i] != '/' && r[i] != ':'
}

fn safe_string(s: &str) -> (r: String)
    ensures
        r@ == safe_name(s@),
{
    let mut r = String::new();
    for c in it: s.chars()
        invariant
            it.seq() == s@,
            r@ == safe_name(s@.take(it.index())),
    {
        assert(s@.take(it.index() + 1) =~= s@.take(it.index()).push(c));
        if c == '/' || c == ':' {
            r.push('_');
        } else {
            r.push(c);
        }
        assert(r@ =~= safe_name(s@.take(it.index() + 1)));
    }
    assert(s@.take(s@.len() as int) =~= s@);
    r
}

impl GitSource {
    /// The reference to check out: the configured one, or `main`.
    pub fn reference_or_default(&self) -> (r: String)
        ensures
            r@ == effective_reference(self@->reference),
    {
        match &self.reference {
            Some(r) => r.clone(),
            None => copy_str("main"),
        }
    }

    /// A copy of this source.
    pub fn duplicate(&self) -> (r: GitSource)
        ensures
            r@ == self@,
    {
        GitSource {
            repo_url: self.repo_url.clone(),
            reference: match &self.reference {
                Some(r) => Some(r.clone()),
                None => None,
            },
        }
    }

    /// The line that records this source when the configuration is loaded.
    pub fn trace_loaded(&self) -> (r: String)
        ensures
            r@ == "Loaded Git source repo_url="@ + self.repo_url@ + " reference="@
                + effective_reference(self@->reference),
    {
        let mut r = copy_str("Loaded Git source repo_url=");
        r.push_str(self.repo_url.as_str());
        r.push_str(" reference=");
        r.push_str(self.reference_or_default().as_str());
        r
    }
}

impl ConfluenceSource {
    /// A copy of this source.
    pub fn duplicate(&self) -> (r: ConfluenceSource)
        ensures
            r@ == self@,
    {
        ConfluenceSource { base_url: self.base_url.clone(), space_key: self.space_key.clone() }
    }
}

impl SourceAction {
    /// A copy of this source.
    pub fn duplicate(&self) -> (r: SourceAction)
        ensures
            r@ == self@,
    {
        match self {
            SourceAction::Git(g) => SourceAction::Git(g.duplicate()),
            SourceAction::Confluence(c) => SourceAction::Confluence(c.duplicate()),
        }
    }

    /// The directory name that this source is acquired into.
    pub fn directory_name(&self) -> (r: String)
        ensures
            r@ == directory_name(self@),
    {
        let mut raw = String::new();
        match self {
            SourceAction::Git(g) => {
                raw.push_str("git_");
                raw.push_str(g.repo_url.as_str());
                raw.push_str("_");
                raw.push_str(g.reference_or_default().as_str());
            },
            SourceAction::Confluence(c) => {
                raw.push_str("confluence_");
                raw.push_str(c.base_url.as_str());
                raw.push_str("_");
                raw.push_str(c.space_key.as_str());
            },
        }
        safe_string(raw.as_str())
    }

    /// The line that records this source when the configuration is loaded.
    pub fn trace_loaded(&self) -> (r: String)
        ensures
            r@ == match self@ {
                SourceSpec::Repository { origin, reference } => "Loaded Git SourceAction repo_url="@
                    + origin + " reference="@ + effective_reference(reference),
                SourceSpec::WikiSpace { base_url, space_key } =>
                    "Loaded Confluence SourceAction base_url="@ + base_url + " space_key="@
                    + space_key,
            },
    {
        match self {
            SourceAction::Git(g) => {
                let mut r = copy_str("Loaded Git SourceAction repo_url=");
                r.push_str(g.repo_url.as_str());
                r.push_str(" reference=");
                r.push_str(g.reference_or_default().as_str());
                r
            },
            SourceAction::Confluence(c) => {
                let mut r = copy_str("Loaded Confluence SourceAction base_url=");
                r.push_str(c.base_url.as_str());
                r.push_str(" space_key=");
                r.push_str(c.space_key.as_str());
                r
            },
        }
    }
}

impl Config {
    /// The line that records this configuration when it is loaded.
    pub fn trace_loaded(&self) -> (r: String)
        ensures
            r@ == "Loaded Config output_dir="@ + self.output_dir@ + " sources_count="@
                + decimal(self.sources.len() as nat),
    {
        let mut r = copy_str("Loaded Config output_dir=");
        r.push_str(self.output_dir.as_str());
        r.push_str(" sources_count=");
        r.push_str(decimal_string(self.sources.len() as u64).as_str());
        r
    }
}

proof fn lemma_safe_name_concat(a: Seq<char>, b: Seq<char>)
    ensures
        safe_name(a + b) == safe_name(a) + safe_name(b),
{
    assert(safe_name(a + b) =~= safe_name(a) + safe_name(b));
}

proof fn lemma_safe_name_plain(r: Seq<char>)
    requires
        is_plain_reference(r),
    ensures
        safe_name(r) == r,
{
    assert(safe_name(r) =~= r);
}

/// The directory name of a repository is a function of its origin and reference alone,
/// and two repositories get different names when their origins differ (once `/` and `:`
/// are read as `_`) or their references differ, so long as neither reference holds
/// `_`, `/` or `:`.
pub proof fn lemma_repository_names_distinct(
    o1: Seq<char>,
    r1: Option<Seq<char>>,
    o2: Seq<char>,
    r2: Option<Seq<char>>,
)
    requires
        is_plain_reference(effective_reference(r1)),
        is_plain_reference(effective_reference(r2)),
        safe_name(o1) != safe_name(o2) || effective_reference(r1) != effective_reference(r2),
    ensures
        repository_dir_name(o1, r1) != repository_dir_name(o2, r2),
        repository_dir_name(o1, r1) == directory_name(
            SourceSpec::Repository { origin: o1, reference: r1 },
        ),
{
    let e1 = effective_reference(r1);
    let e2 = effective_reference(r2);
    let g = "git_"@;
    let u = "_"@;
    lemma_safe_name_concat(g + o1 + u, e1);
    lemma_safe_name_concat(g + o1, u);
    lemma_safe_name_concat(g, o1);
    lemma_safe_name_concat(g + o2 + u, e2);
    lemma_safe_name_concat(g + o2, u);
    lemma_safe_name_concat(g, o2);
    lemma_safe_name_plain(e1);
    lemma_safe_name_plain(e2);
    let sg = safe_name(g);
    let su = safe_name(u);
    reveal_strlit("_");
    assert(su =~= seq!['_']);
    let n1 = sg + safe_name(o1) + su + e1;
    let n2 = sg + safe_name(o2) + su + e2;
    assert(repository_dir_name(o1, r1) == n1);
    assert(repository_dir_name(o2, r2) == n2);
    if n1 == n2 {
        let len = n1.len();
        if e1.len() < e2.len() {
            let p = len - e1.len() - 1;
            assert(n1[p] == '_');
            assert(n2[p] == e2[e2.len() - e1.len() - 1]);
        } else if e2.len() < e1.len() {
            let p = len - e2.len() - 1;
            assert(n2[p] == '_');
            assert(n1[p] == e1[e1.len() - e2.len() - 1]);
        } else {
            assert(e1 =~= n1.subrange(len - e1.len(), len as int));
            assert(e2 =~= n2.subrange(len - e2.len(), len as int));
            assert(safe_name(o1) =~= n1.subrange(sg.len() as int, len - e1.len() - 1));
            assert(safe_name(o2) =~= n2.subrange(sg.len() as int, len - e2.len() - 1));
        }
    }
}

} // verus!
