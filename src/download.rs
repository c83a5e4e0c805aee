//! Acquisition: where each source goes, the file-system and version-control steps that
//! acquire a repository or prepare a wiki space's directory, and the manifest of what was
//! acquired.
use vstd::prelude::*;
use crate::config::{
    directory_name, effective_reference, specs_of, SourceAction, SourceSpec,
};
use crate::text::{copy_str, views_of};

verus! {

/// What to acquire and where.
#[derive(Debug)]
pub struct DownloadConfig {
    pub output_dir: String,
    pub sources: Vec<SourceAction>,
}

/// One acquired source: a readable name, the directory it was acquired into, and the
/// source it came from.
#[derive(Debug)]
pub struct DownloadedSource {
    pub logical_name: String,
    pub local_path: String,
    pub original_source: SourceAction,
}

/// What a run acquired, in the order of the configuration.
#[derive(Debug)]
pub struct DownloadedManifest {
    pub sources: Vec<DownloadedSource>,
}

pub struct DownloadedSourceView {
    pub logical_name: Seq<char>,
    pub local_path: Seq<char>,
    pub original_source: SourceSpec,
}

impl View for DownloadedSource {
    type V = DownloadedSourceView;

    open spec fn view(&self) -> DownloadedSourceView {
        DownloadedSourceView {
            logical_name: self.logical_name@,
            local_path: self.local_path@,
            original_source: self.original_source@,
        }
    }
}

pub open spec fn downloaded_view(v: Seq<DownloadedSource>) -> Seq<DownloadedSourceView> {
    v.map_values(|d: DownloadedSource| d@)
}

/// `name` placed inside the directory `root`.
pub open spec fn path_join(root: Seq<char>, name: Seq<char>) -> Seq<char> {
    if root.len() == 0 {
        name
    } else if root.last() == '/' {
        root + name
    } else {
        root + "/"@ + name
    }
}

/// `name` placed inside the directory `root`.
pub fn join_path(root: &str, name: &str) -> (r: String)
    ensures
        r@ == path_join(root@, name@),
{
    let mut r = copy_str(root);
    let n = root.unicode_len();
    if n > 0 {
        if root.get_char(n - 1) != '/' {
            r.push_str("/");
        }
    }
    r.push_str(name);
    r
}

/// The directory that a source is acquired into.
pub open spec fn target_path(root: Seq<char>, s: SourceSpec) -> Seq<char> {
    path_join(root, directory_name(s))
}

/// The readable name of a source: a repository's origin, or a wiki's base address and
/// space key.
pub open spec fn logical_name_of(s: SourceSpec) -> Seq<char> {
    match s {
        SourceSpec::Repository { origin, .. } => origin,
        SourceSpec::WikiSpace { base_url, space_key } => base_url + ":"@ + space_key,
    }
}

/// The manifest entry of a source acquired below `root`.
pub open spec fn manifest_entry(root: Seq<char>, s: SourceSpec) -> DownloadedSourceView {
    DownloadedSourceView {
        logical_name: logical_name_of(s),
        local_path: target_path(root, s),
        original_source: s,
    }
}

/// One step of an acquisition.
#[derive(Debug)]
pub enum AcquireStep {
    /// Remove the directory and everything in it, if it exists.
    RemoveDirIfExists(String),
    /// Create the directory and its missing parents.
    CreateDirAll(String),
    /// Run the version-control tool with these arguments; a failure to launch it or a
    /// non-zero exit fails the acquisition.
    RunGit(Vec<String>),
}

pub enum StepView {
    RemoveDirIfExists(Seq<char>),
    CreateDirAll(Seq<char>),
    RunGit(Seq<Seq<char>>),
}

impl View for AcquireStep {
    type V = StepView;

    open spec fn view(&self) -> StepView {
        match self {
            AcquireStep::RemoveDirIfExists(p) => StepView::RemoveDirIfExists(p@),
            AcquireStep::CreateDirAll(p) => StepView::CreateDirAll(p@),
            AcquireStep::RunGit(args) => StepView::RunGit(views_of(args@)),
        }
    }
}

pub open spec fn steps_view(v: Seq<AcquireStep>) -> Seq<StepView> {
    v.map_values(|s: AcquireStep| s@)
}

/// The steps that acquire a source below `root`. Both kinds start from a clean slate: the
/// source's directory is removed, then the root is created. A repository is then cloned
/// into its directory and checked out at its reference; a wiki space gets its directory
/// created, to be filled page by page.
pub open spec fn acquisition_plan(root: Seq<char>, s: SourceSpec) -> Seq<StepView> {
    let target = target_path(root, s);
    match s {
        SourceSpec::Repository { origin, reference } => seq![
            StepView::RemoveDirIfExists(target),
            StepView::CreateDirAll(root),
            StepView::RunGit(seq!["clone"@, origin, target]),
            StepView::RunGit(seq!["-C"@, target, "checkout"@, effective_reference(reference)]),
        ],
        SourceSpec::WikiSpace { .. } => seq![
            StepView::RemoveDirIfExists(target),
            StepView::CreateDirAll(root),
            StepView::CreateDirAll(target),
        ],
    }
}

/// The directory that `source` is acquired into below `root`.
pub fn source_path(root: &str, source: &SourceAction) -> (r: String)
    ensures
        r@ == target_path(root@, source@),
{
    let name = source.directory_name();
    join_path(root, name.as_str())
}

/// The steps that acquire `source` below `root`.
pub fn plan_acquisition(root: &str, source: &SourceAction) -> (r: Vec<AcquireStep>)
    ensures
        steps_view(r@) == acquisition_plan(root@, source@),
{
    let target = source_path(root, source);
    let mut steps: Vec<AcquireStep> = Vec::new();
    steps.push(AcquireStep::RemoveDirIfExists(target.clone()));
    steps.push(AcquireStep::CreateDirAll(copy_str(root)));
    match source {
        SourceAction::Git(g) => {
            let mut clone_args: Vec<String> = Vec::new();
            clone_args.push(copy_str("clone"));
            clone_args.push(g.repo_url.clone());
            clone_args.push(target.clone());
            let mut checkout_args: Vec<String> = Vec::new();
            checkout_args.push(copy_str("-C"));
            checkout_args.push(target.clone());
            checkout_args.push(copy_str("checkout"));
            checkout_args.push(g.reference_or_default());
            assert(views_of(clone_args@) =~= seq!["clone"@, g.repo_url@, target@]);
            assert(views_of(checkout_args@) =~= seq![
                "-C"@,
                target@,
                "checkout"@,
                effective_reference(g@->reference),
            ]);
            steps.push(AcquireStep::RunGit(clone_args));
            steps.push(AcquireStep::RunGit(checkout_args));
        },
        SourceAction::Confluence(_) => {
            steps.push(AcquireStep::CreateDirAll(target));
        },
    }
    assert(steps_view(steps@) =~= acquisition_plan(root@, source@));
    steps
}

/// Acquiring a source is the same plan every time, and that plan removes the source's
/// whole directory before anything is written into it: a repeated acquisition into the
/// same root leaves nothing of the earlier one behind, as far as the steps go.
pub proof fn lemma_reacquisition_starts_clean(root: Seq<char>, s: SourceSpec)
    ensures
        acquisition_plan(root, s) == acquisition_plan(root, s),
        acquisition_plan(root, s)[0] == StepView::RemoveDirIfExists(target_path(root, s)),
        forall|k: int|
            1 <= k < acquisition_plan(root, s).len() ==> !(#[trigger] acquisition_plan(
                root,
                s,
            )[k] is RemoveDirIfExists),
        s is Repository ==> (acquisition_plan(root, s)[2] matches StepView::RunGit(args)
            && args[2] == target_path(root, s)),
{
}

/// A downloader over a configuration.
pub struct DefaultDownloader {
    config: DownloadConfig,
}

impl DefaultDownloader {
    pub closed spec fn output_dir(&self) -> Seq<char> {
        self.config.output_dir@
    }

    pub closed spec fn sources(&self) -> Seq<SourceSpec> {
        specs_of(self.config.sources@)
    }

    pub fn new(config: DownloadConfig) -> (r: DefaultDownloader)
        ensures
            r.output_dir() == config.output_dir@,
            r.sources() == specs_of(config.sources@),
    {
        DefaultDownloader { config }
    }

    /// The configuration.
    pub fn config(&self) -> (r: &DownloadConfig)
        ensures
            r.output_dir@ == self.output_dir(),
            specs_of(r.sources@) == self.sources(),
    {
        &self.config
    }

    /// The manifest of the configured sources, once acquired: one entry per source, in
    /// order, each naming the directory that the source's acquisition fills.
    pub fn manifest(&self) -> (r: DownloadedManifest)
        ensures
            downloaded_view(r.sources@) == self.sources().map_values(
                |s: SourceSpec| manifest_entry(self.output_dir(), s),
            ),
    {
        let ghost specs = self.sources();
        let ghost root = self.output_dir();
        let mut out: Vec<DownloadedSource> = Vec::new();
        let mut i: usize = 0;
        while i < self.config.sources.len()
            invariant
                specs == self.sources(),
                root == self.output_dir(),
                specs == specs_of(self.config.sources@),
                root == self.config.output_dir@,
                i <= self.config.sources.len(),
                downloaded_view(out@) == specs.take(i as int).map_values(
                    |s: SourceSpec| manifest_entry(root, s),
                ),
            decreases self.config.sources.len() - i,
        {
            let source = &self.config.sources[i];
            let logical_name = match source {
                SourceAction::Git(g) => g.repo_url.clone(),
                SourceAction::Confluence(c) => {
                    let mut n = c.base_url.clone();
                    n.push_str(":");
                    n.push_str(c.space_key.as_str());
                    n
                },
            };
            let entry = DownloadedSource {
                logical_name,
                local_path: source_path(self.config.output_dir.as_str(), source),
                original_source: source.duplicate(),
            };
            assert(specs[i as int] == source@);
            assert(entry@ == manifest_entry(root, source@));
            let ghost before = downloaded_view(out@);
            out.push(entry);
            assert(downloaded_view(out@) =~= before.push(entry@));
            assert(specs.take(i + 1).map_values(|s: SourceSpec| manifest_entry(root, s))
                =~= specs.take(i as int).map_values(|s: SourceSpec| manifest_entry(root, s)).push(
                manifest_entry(root, specs[i as int]),
            ));
            i = i + 1;
        }
        assert(specs.take(self.config.sources.len() as int) =~= specs);
        DownloadedManifest { sources: out }
    }
}

} // verus!
