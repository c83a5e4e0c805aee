//! Normalisation: turning an acquired source tree into uploadable artifacts, either one
//! artifact per file with a flattened name, or one placeholder document made from the
//! readme.
use vstd::prelude::*;
use vstd::utf8::encode_utf8;
use vstd::string::StringSliceAdditionalSpecFns;
use crate::text::{
    ascii_bytes, copy_bytes, copy_str, join_from, joined, push_ascii, text_eq, views_of,
};

verus! {

/// A regular file of an acquired tree: its path relative to the tree's root, one segment
/// per directory and the file's own name last, and its bytes.
#[derive(Debug)]
pub struct SourceFile {
    pub segments: Vec<String>,
    pub content: Vec<u8>,
}

pub struct SourceFileView {
    pub segments: Seq<Seq<char>>,
    pub content: Seq<u8>,
}

impl View for SourceFile {
    type V = SourceFileView;

    open spec fn view(&self) -> SourceFileView {
        SourceFileView { segments: views_of(self.segments@), content: self.content@ }
    }
}

pub open spec fn files_view(v: Seq<SourceFile>) -> Seq<SourceFileView> {
    v.map_values(|f: SourceFile| f@)
}

/// The input of normalisation: a source's name and the files of its tree.
#[derive(Debug)]
pub struct ProcessInput {
    pub name: String,
    pub files: Vec<SourceFile>,
}

/// One uploadable artifact.
#[derive(Debug)]
pub struct ExternalItemInput {
    pub filename: String,
    pub content: Vec<u8>,
}

pub struct ItemView {
    pub filename: Seq<char>,
    pub content: Seq<u8>,
}

impl View for ExternalItemInput {
    type V = ItemView;

    open spec fn view(&self) -> ItemView {
        ItemView { filename: self.filename@, content: self.content@ }
    }
}

pub open spec fn items_view(v: Seq<ExternalItemInput>) -> Seq<ItemView> {
    v.map_values(|i: ExternalItemInput| i@)
}

/// A normalised source: its name and its artifacts.
#[derive(Debug)]
pub struct ExternalSourceInput {
    pub name: String,
    pub external_items: Vec<ExternalItemInput>,
}

/// The normalisation strategies.
#[derive(Debug, Clone, Copy, PartialEq, Eq, Structural)]
pub enum ProcessorKind {
    /// One placeholder document made from the readme.
    ReadmeToPDF,
    /// One artifact per file, the directories encoded in its name.
    FlattenFiles,
}

/// Which strategy normalisation uses.
#[derive(Debug, Clone, Copy, PartialEq, Eq, Structural)]
pub struct ProcessConfig {
    pub kind: ProcessorKind,
}

/// Why normalisation failed.
#[derive(Debug)]
pub enum ProcessError {
    Io(String),
    NoReadme,
    Other(String),
}

/// Why the placeholder document could not be made.
#[derive(Debug)]
pub enum CodeToPdfError {
    Io(String),
    Font(String),
    EmptyInput,
}

/// The strategy that a configured name selects; unknown names select flattening.
pub open spec fn kind_of_name(s: Seq<char>) -> ProcessorKind {
    if s == "ReadmeToPDF"@ || s == "readme_to_pdf"@ || s == "readme2pdf"@ {
        ProcessorKind::ReadmeToPDF
    } else {
        ProcessorKind::FlattenFiles
    }
}

impl<'a> From<&'a str> for ProcessorKind {
    fn from(s: &'a str) -> (r: ProcessorKind) {
        if text_eq(s, "ReadmeToPDF") || text_eq(s, "readme_to_pdf") || text_eq(s, "readme2pdf") {
            ProcessorKind::ReadmeToPDF
        } else {
            ProcessorKind::FlattenFiles
        }
    }
}

impl<'a> vstd::std_specs::convert::FromSpecImpl<&'a str> for ProcessorKind {
    open spec fn obeys_from_spec() -> bool {
        true
    }

    open spec fn from_spec(s: &'a str) -> ProcessorKind {
        kind_of_name(s@)
    }
}

impl ProcessorKind {
    /// The strategy named exactly `FlattenFiles` or `ReadmeToPDF`, if `s` is one of them.
    pub fn parse_strict(s: &str) -> (r: Option<ProcessorKind>)
        ensures
            r == if s@ == "FlattenFiles"@ {
                Some(ProcessorKind::FlattenFiles)
            } else if s@ == "ReadmeToPDF"@ {
                Some(ProcessorKind::ReadmeToPDF)
            } else {
                None::<ProcessorKind>
            },
    {
        if text_eq(s, "FlattenFiles") {
            Some(ProcessorKind::FlattenFiles)
        } else if text_eq(s, "ReadmeToPDF") {
            Some(ProcessorKind::ReadmeToPDF)
        } else {
            None
        }
    }
}

impl ProcessError {
    /// The normalisation error that a failed placeholder conversion becomes.
    pub fn from_pdf_error(e: CodeToPdfError) -> (r: ProcessError)
        ensures
            match e {
                CodeToPdfError::Io(m) => r matches ProcessError::Io(n) && n@ == m@,
                CodeToPdfError::EmptyInput => r matches ProcessError::Other(n) && n@
                    == "PDF: Empty input"@,
                CodeToPdfError::Font(_) => r matches ProcessError::Other(n) && n@
                    == "PDF: font error"@,
            },
    {
        match e {
            CodeToPdfError::Io(m) => ProcessError::Io(m),
            CodeToPdfError::EmptyInput => ProcessError::Other(copy_str("PDF: Empty input")),
            CodeToPdfError::Font(_) => ProcessError::Other(copy_str("PDF: font error")),
        }
    }
}

/// A normaliser bound to one strategy.
pub struct Processor {
    config: ProcessConfig,
}

impl Processor {
    pub closed spec fn kind(&self) -> ProcessorKind {
        self.config.kind
    }

    pub fn new(config: ProcessConfig) -> (r: Processor)
        ensures
            r.kind() == config.kind,
    {
        Processor { config }
    }

    /// Normalises one source with this processor's strategy.
    pub fn process_sync(&self, input: ProcessInput) -> (r: Result<ExternalSourceInput, ProcessError>)
        ensures
            match normalized_items(self.kind(), files_view(input.files@)) {
                Some(items) => r matches Ok(out) && out.name@ == input.name@ && items_view(
                    out.external_items@,
                ) == items,
                None => r matches Err(ProcessError::NoReadme),
            },
    {
        process(&self.config, input)
    }
}

/// The directories whose contents are never flattened: version-control metadata and build
/// output.
pub open spec fn is_excluded_dir(name: Seq<char>) -> bool {
    name == ".git"@ || name == "target"@
}

/// Whether a directory of this name is skipped by flattening.
pub fn is_excluded_dir_name(name: &str) -> (r: bool)
    ensures
        r == is_excluded_dir(name@),
{
    text_eq(name, ".git") || text_eq(name, "target")
}

/// Some directory on the path (not the file's own name) is an excluded one.
pub open spec fn under_excluded_dir(segments: Seq<Seq<char>>) -> bool {
    exists|i: int| 0 <= i < segments.len() - 1 && is_excluded_dir(#[trigger] segments[i])
}

/// A file that flattening turns into an artifact.
pub open spec fn is_flattened(f: SourceFileView) -> bool {
    f.segments.len() > 0 && !under_excluded_dir(f.segments)
}

/// The longest flattened name, in bytes, that keeps all of its directories.
pub const FLAT_NAME_LIMIT: usize = 180;

/// The length of `s` in UTF-8 bytes.
pub open spec fn byte_len(s: Seq<char>) -> nat {
    encode_utf8(s).len()
}

/// The name made of `segments[from..]`, joined by a double underscore.
pub open spec fn candidate(segments: Seq<Seq<char>>, from: int) -> Seq<char> {
    joined(segments.skip(from))
}

/// The first position, from `from` on, at which the candidate name fits the limit; the
/// file's own name alone when none fits.
pub open spec fn fit_start(segments: Seq<Seq<char>>, from: int) -> int
    decreases segments.len() - from,
{
    if from >= segments.len() - 1 || byte_len(candidate(segments, from)) <= FLAT_NAME_LIMIT {
        from
    } else {
        fit_start(segments, from + 1)
    }
}

/// The flattened name of a file: its path joined by a double underscore, its leading
/// directories dropped one at a time while the name is longer than the limit.
pub open spec fn flat_name(segments: Seq<Seq<char>>) -> Seq<char> {
    candidate(segments, fit_start(segments, 0))
}

/// The artifact that flattening makes of a file.
pub open spec fn item_of(f: SourceFileView) -> ItemView {
    ItemView { filename: flat_name(f.segments), content: f.content }
}

/// How many of `files` flattening turns into artifacts.
pub open spec fn count_flattened(files: Seq<SourceFileView>) -> nat
    decreases files.len(),
{
    if files.len() == 0 {
        0
    } else if is_flattened(files.last()) {
        count_flattened(files.drop_last()) + 1
    } else {
        count_flattened(files.drop_last())
    }
}

/// The artifacts of the flattening strategy: one per flattened file, in order.
pub open spec fn flatten_items(files: Seq<SourceFileView>) -> Seq<ItemView>
    decreases files.len(),
{
    if files.len() == 0 {
        Seq::empty()
    } else {
        let rest = flatten_items(files.drop_last());
        let f = files.last();
        if is_flattened(f) {
            rest.push(item_of(f))
        } else {
            rest
        }
    }
}

fn under_excluded(segments: &Vec<String>) -> (r: bool)
    ensures
        r == under_excluded_dir(views_of(segments@)),
{
    let ghost segs = views_of(segments@);
    let mut i: usize = 0;
    while i < segments.len() && i + 1 < segments.len()
        invariant
            segs == views_of(segments@),
            i <= segments.len(),
            forall|k: int| 0 <= k < i ==> !is_excluded_dir(#[trigger] segs[k]),
        decreases segments.len() - i,
    {
        if is_excluded_dir_name(segments[i].as_str()) {
            assert(is_excluded_dir(segs[i as int]));
            return true;
        }
        i = i + 1;
    }
    false
}

/// The flattened name of a file with this path.
pub fn flatten_name(segments: &Vec<String>) -> (r: String)
    requires
        segments.len() > 0,
    ensures
        r@ == flat_name(views_of(segments@)),
{
    let ghost segs = views_of(segments@);
    let mut from: usize = 0;
    loop
        invariant
            segs == views_of(segments@),
            segments.len() > 0,
            from < segments.len(),
            fit_start(segs, from as int) == fit_start(segs, 0),
        decreases segments.len() - from,
    {
        let name = join_from(segments, from);
        let text = name.as_str();
        let bytes = text.as_bytes().len();
        assert(text.spec_bytes() == encode_utf8(name@));
        assert(bytes == byte_len(candidate(segs, from as int)));
        if bytes <= FLAT_NAME_LIMIT || from >= segments.len() - 1 {
            return name;
        }
        from = from + 1;
    }
}

/// The flattening strategy: each file outside the excluded directories becomes one artifact
/// with its flattened name and its bytes.
pub fn process_flatten_files(input: &ProcessInput) -> (r: ExternalSourceInput)
    ensures
        r.name@ == input.name@,
        items_view(r.external_items@) == flatten_items(files_view(input.files@)),
{
    let ghost files = files_view(input.files@);
    let mut items: Vec<ExternalItemInput> = Vec::new();
    let mut i: usize = 0;
    while i < input.files.len()
        invariant
            files == files_view(input.files@),
            i <= input.files.len(),
            items_view(items@) == flatten_items(files.take(i as int)),
        decreases input.files.len() - i,
    {
        let f = &input.files[i];
        assert(files.take(i + 1).drop_last() =~= files.take(i as int));
        assert(files.take(i + 1).last() == f@);
        if f.segments.len() > 0 && !under_excluded(&f.segments) {
            let ghost before = items_view(items@);
            let item = ExternalItemInput {
                filename: flatten_name(&f.segments),
                content: copy_bytes(&f.content),
            };
            assert(item@ == item_of(f@));
            items.push(item);
            assert(items_view(items@) =~= before.push(item@));
        }
        i = i + 1;
    }
    assert(files.take(input.files.len() as int) =~= files);
    ExternalSourceInput { name: input.name.clone(), external_items: items }
}

/// The smallest size, in bytes, of the placeholder document before its trailer.
pub const PDF_MIN_LEN: usize = 110;

pub open spec fn pdf_header() -> Seq<u8> {
    ascii_bytes("%PDF-1.4\n"@)
}

pub open spec fn pdf_padding() -> Seq<u8> {
    ascii_bytes("This is padding. "@)
}

pub open spec fn pdf_trailer() -> Seq<u8> {
    ascii_bytes("\n%%EOF\n"@)
}

/// How many bytes a document of `n` bytes lacks to reach `PDF_MIN_LEN`.
pub open spec fn shortfall(n: nat) -> nat {
    if n < PDF_MIN_LEN {
        (PDF_MIN_LEN - n) as nat
    } else {
        0
    }
}

/// `b` followed by as many paddings as it takes to reach `PDF_MIN_LEN` bytes.
pub open spec fn padded(b: Seq<u8>) -> Seq<u8>
    decreases shortfall(b.len()),
{
    if b.len() < PDF_MIN_LEN && pdf_padding().len() > 0 {
        padded(b + pdf_padding())
    } else {
        b
    }
}

/// The placeholder document for a readme: a document header, the readme's bytes and a new
/// line, padding up to the minimum size, and the end-of-file trailer.
pub open spec fn placeholder_pdf(doc: Seq<u8>) -> Seq<u8> {
    padded(pdf_header() + doc + ascii_bytes("\n"@)) + pdf_trailer()
}

/// The placeholder document that wraps `doc`.
pub fn render_placeholder_pdf(doc: &Vec<u8>) -> (r: Vec<u8>)
    ensures
        r@ == placeholder_pdf(doc@),
        r@.len() > PDF_MIN_LEN,
{
    let mut out: Vec<u8> = Vec::new();
    push_ascii(&mut out, "%PDF-1.4\n");
    let mut i: usize = 0;
    let ghost head = out@;
    while i < doc.len()
        invariant
            i <= doc.len(),
            out@ == head + doc@.take(i as int),
        decreases doc.len() - i,
    {
        assert(doc@.take(i + 1) =~= doc@.take(i as int).push(doc@[i as int]));
        out.push(doc[i]);
        i = i + 1;
    }
    assert(doc@.take(doc.len() as int) =~= doc@);
    push_ascii(&mut out, "\n");
    let ghost base = out@;
    proof {
        reveal_strlit("This is padding. ");
        reveal_strlit("\n%%EOF\n");
    }
    assert(pdf_padding().len() == 17);
    while out.len() < PDF_MIN_LEN
        invariant
            padded(out@) == padded(base),
            pdf_padding().len() == 17,
        decreases shortfall(out@.len()),
    {
        push_ascii(&mut out, "This is padding. ");
    }
    let ghost body = out@;
    push_ascii(&mut out, "\n%%EOF\n");
    assert(pdf_trailer().len() == 7);
    out
}

/// The designated document: a file named `README.md` directly under the root.
pub open spec fn is_readme(f: SourceFileView) -> bool {
    f.segments == seq!["README.md"@]
}

/// The bytes of the first readme among `files`, if there is one.
pub open spec fn find_readme(files: Seq<SourceFileView>) -> Option<Seq<u8>>
    decreases files.len(),
{
    if files.len() == 0 {
        None
    } else if is_readme(files[0]) {
        Some(files[0].content)
    } else {
        find_readme(files.drop_first())
    }
}

/// What the readme strategy returns for a source of this name and these files: the one
/// artifact `README.pdf` holding the placeholder document of the readme, or `NoReadme`.
pub open spec fn readme_outcome(
    name: Seq<char>,
    files: Seq<SourceFileView>,
    r: Result<ExternalSourceInput, ProcessError>,
) -> bool {
    match find_readme(files) {
        None => r matches Err(ProcessError::NoReadme),
        Some(doc) => r matches Ok(out) && out.name@ == name && items_view(out.external_items@)
            == seq![ItemView { filename: "README.pdf"@, content: placeholder_pdf(doc) }],
    }
}

fn is_readme_file(f: &SourceFile) -> (r: bool)
    ensures
        r == is_readme(f@),
{
    if f.segments.len() == 1 && text_eq(f.segments[0].as_str(), "README.md") {
        assert(f@.segments =~= seq!["README.md"@]);
        true
    } else {
        proof {
            if is_readme(f@) {
                assert(f@.segments.len() == 1);
                assert(f@.segments[0] == "README.md"@);
                assert(f@.segments[0] == f.segments@[0]@);
            }
        }
        false
    }
}

/// The readme strategy: one placeholder document made from the readme.
pub fn process_readme_to_pdf(input: &ProcessInput) -> (r: Result<ExternalSourceInput, ProcessError>)
    ensures
        readme_outcome(input.name@, files_view(input.files@), r),
{
    let ghost files = files_view(input.files@);
    let mut i: usize = 0;
    assert(files.skip(0) =~= files);
    while i < input.files.len()
        invariant
            files == files_view(input.files@),
            i <= input.files.len(),
            find_readme(files.skip(i as int)) == find_readme(files),
        decreases input.files.len() - i,
    {
        assert(files.skip(i as int)[0] == input.files@[i as int]@);
        if is_readme_file(&input.files[i]) {
            let content = render_placeholder_pdf(&input.files[i].content);
            let item = ExternalItemInput { filename: copy_str("README.pdf"), content };
            let mut items: Vec<ExternalItemInput> = Vec::new();
            items.push(item);
            assert(items_view(items@) =~= seq![item@]);
            return Ok(ExternalSourceInput { name: input.name.clone(), external_items: items });
        }
        assert(files.skip(i as int).drop_first() =~= files.skip(i + 1));
        i = i + 1;
    }
    Err(ProcessError::NoReadme)
}

/// The artifacts that a strategy makes of these files; `None` when the readme strategy
/// finds no readme.
pub open spec fn normalized_items(kind: ProcessorKind, files: Seq<SourceFileView>) -> Option<Seq<ItemView>> {
    match kind {
        ProcessorKind::ReadmeToPDF => match find_readme(files) {
            Some(doc) => Some(
                seq![ItemView { filename: "README.pdf"@, content: placeholder_pdf(doc) }],
            ),
            None => None,
        },
        ProcessorKind::FlattenFiles => Some(flatten_items(files)),
    }
}

/// Normalises one source with the configured strategy.
pub fn process(config: &ProcessConfig, input: ProcessInput) -> (r: Result<ExternalSourceInput, ProcessError>)
    ensures
        match normalized_items(config.kind, files_view(input.files@)) {
            Some(items) => r matches Ok(out) && out.name@ == input.name@ && items_view(
                out.external_items@,
            ) == items,
            None => r matches Err(ProcessError::NoReadme),
        },
{
    match config.kind {
        ProcessorKind::ReadmeToPDF => process_readme_to_pdf(&input),
        ProcessorKind::FlattenFiles => Ok(process_flatten_files(&input)),
    }
}

/// `item` is the artifact of one of `files` that lies outside the excluded directories.
pub open spec fn made_from_kept_file(files: Seq<SourceFileView>, item: ItemView) -> bool {
    exists|i: int|
        0 <= i < files.len() && is_flattened(#[trigger] files[i]) && !under_excluded_dir(
            files[i].segments,
        ) && item == item_of(files[i])
}

/// Flattening makes exactly one artifact per file outside the excluded directories: there
/// are as many artifacts as such files, each artifact is made from one of them (so none
/// comes from a file below a `.git` or `target` directory, however deep), and each of them
/// gives an artifact.
pub proof fn lemma_flatten_one_per_file(files: Seq<SourceFileView>)
    ensures
        flatten_items(files).len() == count_flattened(files),
        forall|k: int|
            0 <= k < flatten_items(files).len() ==> made_from_kept_file(
                files,
                #[trigger] flatten_items(files)[k],
            ),
        forall|i: int|
            0 <= i < files.len() && is_flattened(#[trigger] files[i]) ==> exists|k: int|
                0 <= k < flatten_items(files).len() && flatten_items(files)[k] == item_of(
                    files[i],
                ),
    decreases files.len(),
{
    if files.len() > 0 {
        let init = files.drop_last();
        lemma_flatten_one_per_file(init);
        let items = flatten_items(files);
        let before = flatten_items(init);
        assert forall|k: int| 0 <= k < items.len() implies made_from_kept_file(
            files,
            #[trigger] items[k],
        ) by {
            if k < before.len() {
                assert(made_from_kept_file(init, before[k]));
                let i = choose|i: int|
                    0 <= i < init.len() && is_flattened(#[trigger] init[i]) && !under_excluded_dir(
                        init[i].segments,
                    ) && before[k] == item_of(init[i]);
                assert(files[i] == init[i]);
                assert(items[k] == before[k]);
            } else {
                assert(files[files.len() - 1] == files.last());
            }
        }
        assert forall|i: int| 0 <= i < files.len() && is_flattened(#[trigger] files[i]) implies exists|k: int|
            0 <= k < items.len() && items[k] == item_of(files[i]) by {
            if i < files.len() - 1 {
                assert(init[i] == files[i]);
                let k = choose|k: int| 0 <= k < before.len() && before[k] == item_of(init[i]);
                assert(items[k] == before[k]);
            } else {
                assert(items[items.len() - 1] == item_of(files.last()));
            }
        }
    }
}

/// The flattened name always ends with the file's own name, and keeps as many of the
/// directories closest to the file as fit the limit: every name that keeps one more
/// directory is longer than the limit.
pub proof fn lemma_truncation_keeps_trailing(segments: Seq<Seq<char>>)
    requires
        segments.len() > 0,
    ensures
        0 <= fit_start(segments, 0) <= segments.len() - 1,
        flat_name(segments) == joined(segments.skip(fit_start(segments, 0))),
        segments.last().len() <= flat_name(segments).len(),
        flat_name(segments).subrange(
            flat_name(segments).len() - segments.last().len(),
            flat_name(segments).len() as int,
        ) == segments.last(),
        forall|j: int|
            0 <= j < fit_start(segments, 0) ==> byte_len(#[trigger] candidate(segments, j))
                > FLAT_NAME_LIMIT,
        fit_start(segments, 0) < segments.len() - 1 ==> byte_len(flat_name(segments))
            <= FLAT_NAME_LIMIT,
{
    lemma_fit_start(segments, 0);
    let k = fit_start(segments, 0);
    lemma_joined_ends_with_last(segments.skip(k));
    assert(segments.skip(k).last() == segments.last());
}

proof fn lemma_fit_start(segments: Seq<Seq<char>>, from: int)
    requires
        segments.len() > 0,
        0 <= from <= segments.len() - 1,
    ensures
        from <= fit_start(segments, from) <= segments.len() - 1,
        forall|j: int|
            from <= j < fit_start(segments, from) ==> byte_len(#[trigger] candidate(segments, j))
                > FLAT_NAME_LIMIT,
        fit_start(segments, from) < segments.len() - 1 ==> byte_len(
            candidate(segments, fit_start(segments, from)),
        ) <= FLAT_NAME_LIMIT,
    decreases segments.len() - from,
{
    if from < segments.len() - 1 && byte_len(candidate(segments, from)) > FLAT_NAME_LIMIT {
        lemma_fit_start(segments, from + 1);
    }
}

proof fn lemma_joined_ends_with_last(parts: Seq<Seq<char>>)
    requires
        parts.len() > 0,
    ensures
        parts.last().len() <= joined(parts).len(),
        joined(parts).subrange(joined(parts).len() - parts.last().len(), joined(parts).len() as int)
            == parts.last(),
{
    let s = joined(parts);
    let l = parts.last();
    if parts.len() == 1 {
        assert(s.subrange(0, s.len() as int) =~= l);
    } else {
        assert(s.subrange(s.len() - l.len(), s.len() as int) =~= l);
    }
}

/// `s` holds a double underscore at position `i`.
pub open spec fn has_sep_at(s: Seq<char>, i: int) -> bool {
    0 <= i && i + 1 < s.len() && s[i] == '_' && s[i + 1] == '_'
}

/// A path segment that cannot be confused with the double underscore around it: it holds
/// no double underscore and does not start with an underscore.
pub open spec fn is_plain_segment(s: Seq<char>) -> bool {
    &&& (s.len() > 0 ==> s[0] != '_')
    &&& forall|i: int| !has_sep_at(s, i)
}

pub open spec fn all_plain(parts: Seq<Seq<char>>) -> bool {
    forall|i: int| 0 <= i < parts.len() ==> is_plain_segment(#[trigger] parts[i])
}

proof fn lemma_last_sep(a: Seq<char>, l: Seq<char>)
    requires
        is_plain_segment(l),
    ensures
        has_sep_at(a + "__"@ + l, a.len() as int),
        forall|i: int| i > a.len() ==> !has_sep_at(a + "__"@ + l, i),
{
    reveal_strlit("__");
    let s = a + "__"@ + l;
    assert(s[a.len() as int] == '_');
    assert(s[a.len() + 1int] == '_');
    assert forall|i: int| i > a.len() implies !has_sep_at(s, i) by {
        if has_sep_at(s, i) {
            if i == a.len() + 1 {
                assert(s[i + 1] == l[0]);
            } else {
                let j = i - a.len() - 2;
                assert(s[i] == l[j]);
                assert(s[i + 1] == l[j + 1]);
                assert(has_sep_at(l, j));
            }
        }
    }
}

/// Joining plain segments by a double underscore loses nothing: different non-empty lists
/// give different names.
pub proof fn lemma_joined_injective(a: Seq<Seq<char>>, b: Seq<Seq<char>>)
    requires
        a.len() > 0,
        b.len() > 0,
        all_plain(a),
        all_plain(b),
        joined(a) == joined(b),
    ensures
        a == b,
    decreases a.len() + b.len(),
{
    reveal_strlit("__");
    let s = joined(a);
    if a.len() == 1 && b.len() == 1 {
        assert(a =~= b);
    } else if a.len() == 1 {
        let pre = joined(b.drop_last());
        assert(is_plain_segment(b[b.len() - 1]));
        lemma_last_sep(pre, b.last());
        assert(is_plain_segment(a[0]));
        assert(!has_sep_at(a[0], pre.len() as int));
    } else if b.len() == 1 {
        let pre = joined(a.drop_last());
        assert(is_plain_segment(a[a.len() - 1]));
        lemma_last_sep(pre, a.last());
        assert(is_plain_segment(b[0]));
        assert(!has_sep_at(b[0], pre.len() as int));
    } else {
        let pa = joined(a.drop_last());
        let pb = joined(b.drop_last());
        assert(is_plain_segment(a[a.len() - 1]));
        assert(is_plain_segment(b[b.len() - 1]));
        lemma_last_sep(pa, a.last());
        lemma_last_sep(pb, b.last());
        assert(pa.len() == pb.len());
        assert(pa =~= s.subrange(0, pa.len() as int));
        assert(pb =~= s.subrange(0, pb.len() as int));
        assert(a.last() =~= s.subrange(pa.len() + 2int, s.len() as int));
        assert(b.last() =~= s.subrange(pb.len() + 2int, s.len() as int));
        assert(all_plain(a.drop_last()));
        assert(all_plain(b.drop_last()));
        lemma_joined_injective(a.drop_last(), b.drop_last());
        assert(a =~= a.drop_last().push(a.last()));
        assert(b =~= b.drop_last().push(b.last()));
    }
}

/// When the files have distinct paths made of plain segments and every full flattened name
/// fits the limit, the artifacts' names are distinct and none is longer than 255 bytes.
pub proof fn lemma_flatten_names_unique(files: Seq<SourceFileView>)
    requires
        forall|i: int, j: int|
            0 <= i < files.len() && 0 <= j < files.len() && i != j ==> (#[trigger] files[i]).segments
                != (#[trigger] files[j]).segments,
        forall|i: int| 0 <= i < files.len() ==> all_plain((#[trigger] files[i]).segments),
        forall|i: int|
            0 <= i < files.len() ==> byte_len(joined((#[trigger] files[i]).segments))
                <= FLAT_NAME_LIMIT,
    ensures
        forall|k: int|
            0 <= k < flatten_items(files).len() ==> byte_len(
                (#[trigger] flatten_items(files)[k]).filename,
            ) <= 255,
        forall|k1: int, k2: int|
            0 <= k1 < flatten_items(files).len() && 0 <= k2 < flatten_items(files).len() && k1
                != k2 ==> (#[trigger] flatten_items(files)[k1]).filename != (#[trigger] flatten_items(
                files,
            )[k2]).filename,
    decreases files.len(),
{
    if files.len() > 0 {
        let init = files.drop_last();
        assert forall|i: int, j: int|
            0 <= i < init.len() && 0 <= j < init.len() && i != j implies (#[trigger] init[i]).segments
                != (#[trigger] init[j]).segments by {
            assert(init[i] == files[i]);
            assert(init[j] == files[j]);
        }
        assert forall|i: int| 0 <= i < init.len() implies all_plain((#[trigger] init[i]).segments) by {
            assert(init[i] == files[i]);
        }
        assert forall|i: int| 0 <= i < init.len() implies byte_len(joined((#[trigger] init[i]).segments))
            <= FLAT_NAME_LIMIT by {
            assert(init[i] == files[i]);
        }
        lemma_flatten_names_unique(init);
        lemma_flatten_one_per_file(init);
        let items = flatten_items(files);
        let before = flatten_items(init);
        assert forall|i: int| 0 <= i < files.len() && (#[trigger] files[i]).segments.len() > 0 implies flat_name(
            files[i].segments,
        ) == joined(files[i].segments) by {
            assert(files[i].segments.skip(0) =~= files[i].segments);
        }
        let last = files.last();
        assert(files[files.len() - 1] == last);
        assert forall|k: int| 0 <= k < items.len() implies byte_len(
            (#[trigger] items[k]).filename,
        ) <= 255 by {
            if k < before.len() {
                assert(items[k] == before[k]);
            }
        }
        if is_flattened(last) {
            assert forall|k: int| 0 <= k < before.len() implies (#[trigger] before[k]).filename
                != flat_name(last.segments) by {
                assert(made_from_kept_file(init, before[k]));
                let i = choose|i: int|
                    0 <= i < init.len() && is_flattened(#[trigger] init[i]) && !under_excluded_dir(
                        init[i].segments,
                    ) && before[k] == item_of(init[i]);
                assert(init[i] == files[i]);
                if joined(files[i].segments) == joined(last.segments) {
                    lemma_joined_injective(files[i].segments, last.segments);
                }
            }
        }
        assert forall|k1: int, k2: int|
            0 <= k1 < items.len() && 0 <= k2 < items.len() && k1 != k2 implies (#[trigger] items[k1]).filename
                != (#[trigger] items[k2]).filename by {
            if k1 < before.len() && k2 < before.len() {
                assert(items[k1] == before[k1]);
                assert(items[k2] == before[k2]);
            } else if k1 < before.len() {
                assert(items[k1] == before[k1]);
            } else if k2 < before.len() {
                assert(items[k2] == before[k2]);
            }
        }
    }
}

} // verus!
