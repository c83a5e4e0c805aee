use llm_bucket::config::{GitSource, SourceAction};
use llm_bucket::download::DownloadedSource;
use llm_bucket::preprocess::{ProcessConfig, ProcessorKind, SourceFile};
use llm_bucket::synchronise::{SyncAction, SyncEvent, SyncMachine, UploadConfig};

fn source(name: &str) -> DownloadedSource {
    DownloadedSource {
        logical_name: name.to_string(),
        local_path: format!("out/{}", name),
        original_source: SourceAction::Git(GitSource { repo_url: name.to_string(), reference: None }),
    }
}

fn file(path: &str, content: &str) -> SourceFile {
    SourceFile {
        segments: path.split('/').map(|s| s.to_string()).collect(),
        content: content.as_bytes().to_vec(),
    }
}

fn machine(sources: &[&str], kind: ProcessorKind) -> SyncMachine {
    let manifest: Vec<DownloadedSource> = sources.iter().map(|n| source(n)).collect();
    SyncMachine::new(&manifest, ProcessConfig { kind }, 101)
}

#[test]
fn synchronise_integration_test_synchronise_removes_existing_sources_before_upload() {
    let mut m = machine(&["git@github.com:kasbuunk/llm-bucket.git"], ProcessorKind::ReadmeToPDF);
    assert!(matches!(m.next_action(), SyncAction::ListSources));
    m.step(SyncEvent::Listed(vec![101, 102]));
    assert!(matches!(m.next_action(), SyncAction::DeleteSource(101)));
    m.step(SyncEvent::Deleted);
    assert!(matches!(m.next_action(), SyncAction::DeleteSource(102)));
    m.step(SyncEvent::Deleted);
    assert!(matches!(m.next_action(), SyncAction::Normalize(0)));
    m.step(SyncEvent::Loaded(vec![file("README.md", "# hi\n")]));
    assert!(matches!(m.next_action(), SyncAction::CreateSource { ref name, bucket_id: 101 } if name == "git@github.com:kasbuunk/llm-bucket.git"));
}

#[test]
fn synchronise_integration_test_empty_bucket_removes_all_sources() {
    let mut m = machine(&[], ProcessorKind::FlattenFiles);
    m.step(SyncEvent::Listed(vec![9001, 9002]));
    m.step(SyncEvent::Deleted);
    m.step(SyncEvent::Deleted);
    assert!(m.is_finished());
    assert!(matches!(m.next_action(), SyncAction::Stop));
    let report = m.outcome().expect("empty_bucket should succeed");
    assert!(report.sources.is_empty());
}

#[test]
fn a_failed_deletion_aborts_before_any_source() {
    let mut m = machine(&["a"], ProcessorKind::FlattenFiles);
    m.step(SyncEvent::Listed(vec![1]));
    m.step(SyncEvent::Failed("forbidden".to_string()));
    assert!(matches!(m.next_action(), SyncAction::Stop));
    assert_eq!(m.outcome().unwrap_err(), "Failed to empty bucket before sync: forbidden");
}

#[test]
fn synchronise_integration_test_synchronise_readme_to_pdf_upload() {
    let mut m = machine(&["git@github.com:kasbuunk/llm-bucket.git"], ProcessorKind::ReadmeToPDF);
    m.step(SyncEvent::Listed(vec![]));
    assert!(matches!(m.next_action(), SyncAction::Normalize(0)));
    m.step(SyncEvent::Loaded(vec![file("README.md", "# Test\nHello world!\n")]));
    m.step(SyncEvent::SourceCreated { id: 7, name: "llm-bucket".to_string() });
    match m.next_action() {
        SyncAction::CreateItem { content, url, bucket_id, external_source_id } => {
            assert_eq!(url, "README.pdf");
            assert_eq!(bucket_id, 101);
            assert_eq!(external_source_id, 7);
            assert!(content.starts_with("%PDF-1.4\n# Test\nHello world!\n"));
            assert!(content.ends_with("\n%%EOF\n"));
        }
        other => panic!("unexpected action {:?}", other),
    }
    m.step(SyncEvent::ItemCreated { id: 11, processing_state: "Submitted".to_string() });
    assert!(m.is_finished());
    let report = m.outcome().expect("Synchronise should succeed and return a report");
    assert_eq!(report.sources.len(), 1);
    assert_eq!(report.sources[0].source_id, 7);
    assert_eq!(report.sources[0].source_name, "llm-bucket");
    assert_eq!(report.sources[0].items.len(), 1);
    assert_eq!(report.sources[0].items[0].item_id, 11);
    assert_eq!(report.sources[0].items[0].item_name, "README.pdf");
}

#[test]
fn item_content_is_read_lossily() {
    let mut m = machine(&["s"], ProcessorKind::FlattenFiles);
    m.step(SyncEvent::Listed(vec![]));
    m.step(SyncEvent::Loaded(vec![SourceFile { segments: vec!["bin".to_string()], content: vec![b'a', 0xff, b'b'] }]));
    m.step(SyncEvent::SourceCreated { id: 3, name: "s".to_string() });
    match m.next_action() {
        SyncAction::CreateItem { content, .. } => assert_eq!(content, "a\u{FFFD}b"),
        other => panic!("unexpected action {:?}", other),
    }
}

#[test]
fn synchronise_integration_test_synchronise_multiple_sources_reports_each_uploaded() {
    let mut m = machine(&["first", "second"], ProcessorKind::FlattenFiles);
    m.step(SyncEvent::Listed(vec![]));
    m.step(SyncEvent::Loaded(vec![file("a.txt", "a"), file("dir/b.txt", "b")]));
    m.step(SyncEvent::SourceCreated { id: 1000, name: "first".to_string() });
    assert!(matches!(m.next_action(), SyncAction::CreateItem { ref url, .. } if url == "a.txt"));
    m.step(SyncEvent::ItemCreated { id: 1, processing_state: "Submitted".to_string() });
    assert!(matches!(m.next_action(), SyncAction::CreateItem { ref url, .. } if url == "dir__b.txt"));
    m.step(SyncEvent::ItemCreated { id: 2, processing_state: "Submitted".to_string() });
    assert!(matches!(m.next_action(), SyncAction::Normalize(1)));
    m.step(SyncEvent::Loaded(vec![]));
    assert!(matches!(m.next_action(), SyncAction::CreateSource { ref name, .. } if name == "second"));
    m.step(SyncEvent::SourceCreated { id: 2000, name: "second".to_string() });
    assert!(m.is_finished());
    let report = m.outcome().unwrap();
    assert_eq!(report.sources.len(), 2);
    assert_eq!(report.sources[0].source_id, 1000);
    let names: Vec<&str> = report.sources[0].items.iter().map(|i| i.item_name.as_str()).collect();
    assert_eq!(names, vec!["a.txt", "dir__b.txt"]);
    assert_eq!(report.sources[1].source_id, 2000);
    assert!(report.sources[1].items.is_empty());
}

#[test]
fn a_failed_item_upload_stops_the_run() {
    let mut m = machine(&["first", "second"], ProcessorKind::FlattenFiles);
    m.step(SyncEvent::Listed(vec![]));
    m.step(SyncEvent::Loaded(vec![file("a.txt", "a"), file("b.txt", "b")]));
    m.step(SyncEvent::SourceCreated { id: 1, name: "first".to_string() });
    m.step(SyncEvent::ItemCreated { id: 1, processing_state: "Submitted".to_string() });
    m.step(SyncEvent::Failed("timeout".to_string()));
    assert!(matches!(m.next_action(), SyncAction::Stop));
    m.step(SyncEvent::Loaded(vec![file("c.txt", "c")]));
    assert!(matches!(m.next_action(), SyncAction::Stop));
    assert_eq!(m.outcome().unwrap_err(), "[UPLOAD fail @ create_item for file=b.txt]: timeout");
}

#[test]
fn a_processing_state_other_than_submitted_fails() {
    let mut m = machine(&["first"], ProcessorKind::FlattenFiles);
    m.step(SyncEvent::Listed(vec![]));
    m.step(SyncEvent::Loaded(vec![file("a.txt", "a")]));
    m.step(SyncEvent::SourceCreated { id: 1, name: "first".to_string() });
    m.step(SyncEvent::ItemCreated { id: 5, processing_state: "submitted".to_string() });
    assert_eq!(
        m.outcome().unwrap_err(),
        "[UPLOAD fail @ create_item post-state: file=a.txt] Uploaded item's processing_state was not 'Submitted': submitted"
    );
}

#[test]
fn a_missing_readme_fails_the_run() {
    let mut m = machine(&["first"], ProcessorKind::ReadmeToPDF);
    m.step(SyncEvent::Listed(vec![]));
    m.step(SyncEvent::Loaded(vec![file("src/lib.rs", "")]));
    assert_eq!(m.outcome().unwrap_err(), "Process step failed: NoReadme");
}

#[test]
fn failures_of_loading_and_source_creation() {
    let mut m = machine(&["first"], ProcessorKind::FlattenFiles);
    m.step(SyncEvent::Listed(vec![]));
    m.step(SyncEvent::Failed("permission denied".to_string()));
    assert_eq!(m.outcome().unwrap_err(), "Process step failed: permission denied");
    let mut m = machine(&["first"], ProcessorKind::FlattenFiles);
    m.step(SyncEvent::Listed(vec![]));
    m.step(SyncEvent::Loaded(vec![]));
    m.step(SyncEvent::Failed("503".to_string()));
    assert_eq!(m.outcome().unwrap_err(), "[UPLOAD fail @ create_source]: 503");
}

#[test]
fn an_event_out_of_turn_fails_the_run() {
    let mut m = machine(&["first"], ProcessorKind::FlattenFiles);
    m.step(SyncEvent::Deleted);
    assert_eq!(m.outcome().unwrap_err(), "Unexpected event for the pending step");
}

#[test]
fn upload_bucket_width() {
    assert_eq!(UploadConfig { bucket_id: 1234, api_key: None }.source_bucket_id(), Some(1234));
    assert_eq!(UploadConfig { bucket_id: 1 << 40, api_key: None }.source_bucket_id(), None);
}

#[test]
fn synchronise_integration_test_synchronise_flattenfiles_uploads_codebase_files() {
    let mut m = machine(&["git@github.com:kasbuunk/llm-bucket.git"], ProcessorKind::FlattenFiles);
    m.step(SyncEvent::Listed(vec![]));
    m.step(SyncEvent::Loaded(vec![file("Cargo.toml", "[package]"), file("src/lib.rs", "pub mod a;")]));
    m.step(SyncEvent::SourceCreated { id: 501, name: "llm-bucket".to_string() });
    m.step(SyncEvent::ItemCreated { id: 1, processing_state: "Submitted".to_string() });
    m.step(SyncEvent::ItemCreated { id: 2, processing_state: "Submitted".to_string() });
    let report = m.outcome().expect("Synchronise with FlattenFiles should succeed in end-to-end integration");
    assert_eq!(report.sources.len(), 1, "At least one source should be reported for FlattenFiles");
    let src = &report.sources[0];
    assert!(src.source_id > 0, "Source id should be positive in FlattenFiles");
    assert!(!src.source_name.is_empty(), "Source name should not be empty in FlattenFiles");
    let names: Vec<&str> = src.items.iter().map(|i| i.item_name.as_str()).collect();
    assert_eq!(names, vec!["Cargo.toml", "src__lib.rs"]);
}
