use llm_bucket::preprocess::{
    flatten_name, is_excluded_dir_name, process, render_placeholder_pdf, CodeToPdfError, ProcessConfig,
    ProcessError, ProcessInput, Processor, ProcessorKind, SourceFile,
};

fn file(path: &str, content: &str) -> SourceFile {
    SourceFile {
        segments: path.split('/').map(|s| s.to_string()).collect(),
        content: content.as_bytes().to_vec(),
    }
}

fn names(input: ProcessInput) -> Vec<String> {
    let out = process(&ProcessConfig { kind: ProcessorKind::FlattenFiles }, input).expect("Should succeed");
    out.external_items.into_iter().map(|i| i.filename).collect()
}

#[test]
fn test_process_flattenfiles_flattens_recursively_with_double_underscore_separator() {
    let input = ProcessInput {
        name: "test_flatten".to_string(),
        files: vec![file("root.txt", "hello root\n"), file("src/module/nested.md", "hello nested\n")],
    };
    let out = process(&ProcessConfig { kind: ProcessorKind::FlattenFiles }, input).expect("Should succeed");
    assert_eq!(out.name, "test_flatten");
    assert_eq!(out.external_items.len(), 2);
    assert_eq!(out.external_items[0].filename, "root.txt");
    assert_eq!(out.external_items[0].content, b"hello root\n".to_vec());
    assert_eq!(out.external_items[1].filename, "src__module__nested.md");
    assert_eq!(out.external_items[1].content, b"hello nested\n".to_vec());
}

#[test]
fn test_flattenfiles_skips_dotgit_and_target_dirs() {
    let input = ProcessInput {
        name: "test_flatten_skip_dotgit_target".to_string(),
        files: vec![
            file("keepme.txt", "should be present"),
            file("src/ok.rs", "include this too"),
            file(".git/info/config", ""),
            file("target/deep/temp.obj", ""),
            file("a/b/target/x.o", ""),
            file("a/.git/HEAD", ""),
            file("docs/target", "a file named target is kept"),
        ],
    };
    assert_eq!(names(input), vec!["keepme.txt", "src__ok.rs", "docs__target"]);
}

#[test]
fn excluded_directory_names() {
    assert!(is_excluded_dir_name(".git"));
    assert!(is_excluded_dir_name("target"));
    assert!(!is_excluded_dir_name("targets"));
    assert!(!is_excluded_dir_name(".github"));
}

#[test]
fn test_flattenfiles_truncates_very_long_filenames() {
    let mut segments: Vec<String> = std::iter::repeat("verylongsegment".to_string()).take(50).collect();
    segments.push("finalfilewithareallylongnametotestthelimit.txt".to_string());
    let name = flatten_name(&segments);
    assert!(name.len() <= 255);
    assert!(name.len() <= 180);
    assert!(name.ends_with("__finalfilewithareallylongnametotestthelimit.txt"));
    // One more directory would not fit: 15 + 2 per kept directory, 46 for the file name.
    let kept = name.matches("verylongsegment").count();
    assert_eq!(kept, 7);
    assert!(15 * (kept + 1) + 2 * (kept + 1) + 46 > 180);
}

#[test]
fn flatten_keeps_a_name_of_exactly_the_limit() {
    let dir = "d".repeat(180 - 2 - 10);
    let segments = vec![dir.clone(), "file.12345".to_string()];
    let name = flatten_name(&segments);
    assert_eq!(name.len(), 180);
    assert_eq!(name, format!("{}__file.12345", dir));
    let segments = vec![format!("{}x", dir), "file.12345".to_string()];
    assert_eq!(flatten_name(&segments), "file.12345");
}

#[test]
fn flatten_keeps_an_overlong_file_name_whole() {
    let base = "b".repeat(300);
    let segments = vec!["dir".to_string(), base.clone()];
    assert_eq!(flatten_name(&segments), base);
}

#[test]
fn flatten_counts_bytes_not_characters() {
    let dir = "é".repeat(88);
    let segments = vec![dir.clone(), "a.txt".to_string()];
    assert_eq!(flatten_name(&segments), "a.txt");
    let dir = "é".repeat(80);
    let segments = vec![dir.clone(), "a.txt".to_string()];
    assert_eq!(flatten_name(&segments), format!("{}__a.txt", dir));
}

#[test]
fn flatten_names_collide_when_a_name_holds_the_separator() {
    let input = ProcessInput {
        name: "s".to_string(),
        files: vec![file("x/f.txt", "1"), file("x__f.txt", "2")],
    };
    assert_eq!(names(input), vec!["x__f.txt", "x__f.txt"]);
}

#[test]
fn flatten_of_an_empty_tree_is_empty() {
    let input = ProcessInput { name: "empty".to_string(), files: vec![] };
    assert!(names(input).is_empty());
}

#[test]
fn test_process_readmetopdf_single_source_to_pdf_item() {
    let input = ProcessInput {
        name: "test_repo".to_string(),
        files: vec![file("src/main.rs", "fn main() {}"), file("README.md", "# Test\nHello world!\n")],
    };
    let out = process(&ProcessConfig { kind: ProcessorKind::ReadmeToPDF }, input).expect("Should succeed");
    assert_eq!(out.name, "test_repo");
    assert_eq!(out.external_items.len(), 1, "One item: README.pdf");
    let item = &out.external_items[0];
    assert_eq!(item.filename, "README.pdf");
    assert!(item.content.len() > 100, "Content should be a non-empty PDF");
    assert!(item.content.starts_with(b"%PDF"));
    assert!(item.content.ends_with(b"\n%%EOF\n"));
    let text = String::from_utf8(item.content.clone()).unwrap();
    assert!(text.contains("# Test\nHello world!\n"));
}

#[test]
fn readme_missing_is_an_error() {
    let input = ProcessInput {
        name: "r".to_string(),
        files: vec![file("docs/README.md", "nested readme is not the designated document")],
    };
    let r = process(&ProcessConfig { kind: ProcessorKind::ReadmeToPDF }, input);
    assert!(matches!(r, Err(ProcessError::NoReadme)));
}

#[test]
fn processor_uses_its_strategy() {
    let p = Processor::new(ProcessConfig { kind: ProcessorKind::ReadmeToPDF });
    let r = p.process_sync(ProcessInput { name: "r".to_string(), files: vec![] });
    assert!(matches!(r, Err(ProcessError::NoReadme)));
}

#[test]
fn placeholder_document_exact_bytes() {
    let pdf = render_placeholder_pdf(&b"hi".to_vec());
    let mut expected = b"%PDF-1.4\nhi\n".to_vec();
    while expected.len() < 110 {
        expected.extend_from_slice(b"This is padding. ");
    }
    expected.extend_from_slice(b"\n%%EOF\n");
    assert_eq!(pdf, expected);
    assert_eq!(pdf.len(), 12 + 6 * 17 + 7);
}

#[test]
fn placeholder_document_of_a_large_readme_has_no_padding() {
    let doc = vec![b'x'; 200];
    let pdf = render_placeholder_pdf(&doc);
    assert_eq!(pdf.len(), 9 + 200 + 1 + 7);
}

#[test]
fn processor_kind_names() {
    assert_eq!(ProcessorKind::from("ReadmeToPDF"), ProcessorKind::ReadmeToPDF);
    assert_eq!(ProcessorKind::from("readme_to_pdf"), ProcessorKind::ReadmeToPDF);
    assert_eq!(ProcessorKind::from("readme2pdf"), ProcessorKind::ReadmeToPDF);
    assert_eq!(ProcessorKind::from("FlattenFiles"), ProcessorKind::FlattenFiles);
    assert_eq!(ProcessorKind::from("flatten_files"), ProcessorKind::FlattenFiles);
    assert_eq!(ProcessorKind::from("something else"), ProcessorKind::FlattenFiles);
    assert_eq!(ProcessorKind::parse_strict("FlattenFiles"), Some(ProcessorKind::FlattenFiles));
    assert_eq!(ProcessorKind::parse_strict("ReadmeToPDF"), Some(ProcessorKind::ReadmeToPDF));
    assert_eq!(ProcessorKind::parse_strict("readme2pdf"), None);
}

#[test]
fn pdf_errors_become_process_errors() {
    assert!(matches!(ProcessError::from_pdf_error(CodeToPdfError::Io("disk".to_string())), ProcessError::Io(m) if m == "disk"));
    assert!(matches!(ProcessError::from_pdf_error(CodeToPdfError::EmptyInput), ProcessError::Other(m) if m == "PDF: Empty input"));
    assert!(matches!(ProcessError::from_pdf_error(CodeToPdfError::Font("x".to_string())), ProcessError::Other(m) if m == "PDF: font error"));
}

#[test]
fn test_code_file_to_pdf_creates_valid_pdf() {
    let pdf = render_placeholder_pdf(&b"fn main() { println!(\"hi world\"); }".to_vec());
    assert!(pdf.len() > 100, "Output PDF is too small and may not exist");
    assert_eq!(&pdf[0..4], b"%PDF", "PDF file missing magic header");
}

#[test]
fn flatten_names_of_plain_distinct_paths_are_unique_and_short() {
    let input = ProcessInput {
        name: "s".to_string(),
        files: vec![
            file("a/b/c.txt", "1"),
            file("a/b_c.txt", "2"),
            file("a_b/c.txt", "3"),
            file("ab/c.txt", "4"),
            file("c.txt", "5"),
        ],
    };
    let mut got = names(input);
    assert!(got.iter().all(|n| n.len() <= 255));
    let count = got.len();
    got.sort();
    got.dedup();
    assert_eq!(got.len(), count);
    assert_eq!(count, 5);
}
