use llm_bucket::config::{Config, ConfluenceSource, GitSource, SourceAction};
use llm_bucket::download::{join_path, plan_acquisition, AcquireStep, DefaultDownloader, DownloadConfig};

fn git(url: &str, reference: Option<&str>) -> SourceAction {
    SourceAction::Git(GitSource {
        repo_url: url.to_string(),
        reference: reference.map(|r| r.to_string()),
    })
}

fn wiki(base: &str, key: &str) -> SourceAction {
    SourceAction::Confluence(ConfluenceSource {
        base_url: base.to_string(),
        space_key: key.to_string(),
    })
}

#[test]
fn repository_directory_name_replaces_slashes_and_colons() {
    let s = git("https://github.com/kasbuunk/llm-bucket", Some("main"));
    assert_eq!(s.directory_name(), "git_https___github.com_kasbuunk_llm-bucket_main");
}

#[test]
fn repository_directory_name_defaults_reference_to_main() {
    let a = git("git@github.com:kasbuunk/private-repo-test.git", None);
    let b = git("git@github.com:kasbuunk/private-repo-test.git", Some("main"));
    assert_eq!(a.directory_name(), "git_git@github.com_kasbuunk_private-repo-test.git_main");
    assert_eq!(a.directory_name(), b.directory_name());
}

#[test]
fn wiki_directory_name() {
    let s = wiki("https://yourcompany.atlassian.net/wiki", "DOCS");
    assert_eq!(s.directory_name(), "confluence_https___yourcompany.atlassian.net_wiki_DOCS");
}

#[test]
fn directory_name_is_deterministic_and_distinguishes_references() {
    let a = git("https://github.com/kasbuunk/llm-bucket", Some("main"));
    let b = git("https://github.com/kasbuunk/llm-bucket", Some("879e21e"));
    let c = git("https://github.com/kasbuunk/ai", Some("main"));
    assert_eq!(a.directory_name(), a.directory_name());
    assert_ne!(a.directory_name(), b.directory_name());
    assert_ne!(a.directory_name(), c.directory_name());
}

#[test]
fn directory_names_can_collide_when_origins_differ_only_by_separator() {
    let a = git("host:a/b", Some("main"));
    let b = git("host/a:b", Some("main"));
    assert_eq!(a.directory_name(), b.directory_name());
}

#[test]
fn trace_lines() {
    let g = GitSource { repo_url: "https://github.com/example/repo.git".to_string(), reference: None };
    assert_eq!(g.trace_loaded(), "Loaded Git source repo_url=https://github.com/example/repo.git reference=main");
    let s = git("https://github.com/example/repo.git", Some("dev"));
    assert_eq!(s.trace_loaded(), "Loaded Git SourceAction repo_url=https://github.com/example/repo.git reference=dev");
    let w = wiki("https://x.net/wiki", "DOCS");
    assert_eq!(w.trace_loaded(), "Loaded Confluence SourceAction base_url=https://x.net/wiki space_key=DOCS");
    let c = Config { output_dir: "./tmp/exports".to_string(), sources: vec![s, w] };
    assert_eq!(c.trace_loaded(), "Loaded Config output_dir=./tmp/exports sources_count=2");
    let empty = Config { output_dir: "out".to_string(), sources: vec![] };
    assert_eq!(empty.trace_loaded(), "Loaded Config output_dir=out sources_count=0");
}

#[test]
fn joining_paths() {
    assert_eq!(join_path("out", "x"), "out/x");
    assert_eq!(join_path("out/", "x"), "out/x");
    assert_eq!(join_path("", "x"), "x");
}

#[test]
fn repository_plan_removes_then_clones_then_checks_out() {
    let s = git("https://github.com/kasbuunk/ai", None);
    let plan = plan_acquisition("./tmp/test_output", &s);
    let target = "./tmp/test_output/git_https___github.com_kasbuunk_ai_main".to_string();
    assert_eq!(plan.len(), 4);
    assert!(matches!(&plan[0], AcquireStep::RemoveDirIfExists(p) if *p == target));
    assert!(matches!(&plan[1], AcquireStep::CreateDirAll(p) if p == "./tmp/test_output"));
    match &plan[2] {
        AcquireStep::RunGit(args) => assert_eq!(args, &vec!["clone".to_string(), "https://github.com/kasbuunk/ai".to_string(), target.clone()]),
        other => panic!("unexpected step {:?}", other),
    }
    match &plan[3] {
        AcquireStep::RunGit(args) => assert_eq!(args, &vec!["-C".to_string(), target.clone(), "checkout".to_string(), "main".to_string()]),
        other => panic!("unexpected step {:?}", other),
    }
}

#[test]
fn repeated_acquisition_plans_are_identical_and_start_clean() {
    let s = git("https://github.com/kasbuunk/llm-bucket", Some("main"));
    let first = plan_acquisition("out", &s);
    let second = plan_acquisition("out", &s);
    assert_eq!(format!("{:?}", first), format!("{:?}", second));
    assert!(matches!(&second[0], AcquireStep::RemoveDirIfExists(p) if p == "out/git_https___github.com_kasbuunk_llm-bucket_main"));
}

#[test]
fn wiki_plan_prepares_the_directory() {
    let s = wiki("https://x.net/wiki/", "DOCS");
    let plan = plan_acquisition("out", &s);
    assert_eq!(plan.len(), 3);
    assert!(matches!(&plan[2], AcquireStep::CreateDirAll(p) if p == "out/confluence_https___x.net_wiki__DOCS"));
}

#[test]
fn manifest_lists_each_source_in_order() {
    let d = DefaultDownloader::new(DownloadConfig {
        output_dir: "out".to_string(),
        sources: vec![git("git@github.com:kasbuunk/llm-bucket.git", None), wiki("https://x.net/wiki", "DOCS")],
    });
    let m = d.manifest();
    assert_eq!(m.sources.len(), 2);
    assert_eq!(m.sources[0].logical_name, "git@github.com:kasbuunk/llm-bucket.git");
    assert_eq!(m.sources[0].local_path, "out/git_git@github.com_kasbuunk_llm-bucket.git_main");
    assert_eq!(m.sources[1].logical_name, "https://x.net/wiki:DOCS");
    assert_eq!(m.sources[1].local_path, "out/confluence_https___x.net_wiki_DOCS");
}

#[test]
fn download_git_test_download_empty_sources_no_error() {
    let d = DefaultDownloader::new(DownloadConfig { output_dir: "out".to_string(), sources: vec![] });
    assert!(d.manifest().sources.is_empty());
}
