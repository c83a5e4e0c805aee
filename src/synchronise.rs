//! The synchronisation pipeline as a state machine. The machine decides; its driver
//! performs each action it asks for (listing, deleting, loading a source's files, creating
//! a remote source or item) and hands back what happened. The bucket is cleared first, then
//! each acquired source is normalised, created remotely and uploaded item by item; the
//! first failure ends the run, and a source's report is only added once the server has
//! accepted all of its items.
use vstd::prelude::*;
use vstd::utf8::{decode_utf8, valid_utf8};
use crate::download::DownloadedSource;
use crate::preprocess::{
    files_view, items_view, normalized_items, process, ExternalSourceInput, ItemView,
    ProcessConfig, ProcessError, ProcessInput, ProcessorKind, SourceFile, SourceFileView,
};
use crate::text::{copy_str, text_eq, views_of};

verus! {

/// The text that a byte sequence reads as.
pub uninterp spec fn lossy_text(b: Seq<u8>) -> Seq<char>;

/// Relies on `String::from_utf8_lossy`: the bytes read as UTF-8, each invalid sequence
/// replaced by U+FFFD, so that valid UTF-8 comes back unchanged.
#[verifier::external_body]
fn text_from_bytes(b: &Vec<u8>) -> (r: String)
    ensures
        r@ == lossy_text(b@),
        valid_utf8(b@) ==> r@ == decode_utf8(b@),
{
    String::from_utf8_lossy(b.as_slice()).into_owned()
}

/// The configuration of a synchronisation: how sources are normalised.
#[derive(Debug)]
pub struct SynchroniseConfig {
    pub process: ProcessConfig,
}

/// Where processed sources are uploaded to.
#[derive(Debug)]
pub struct UploadConfig {
    pub bucket_id: i64,
    pub api_key: Option<String>,
}

impl UploadConfig {
    /// The bucket id in the width that source creation takes, if it fits.
    pub fn source_bucket_id(&self) -> (r: Option<i32>)
        ensures
            r == if i32::MIN <= self.bucket_id <= i32::MAX {
                Some(self.bucket_id as i32)
            } else {
                None::<i32>
            },
    {
        if self.bucket_id >= i32::MIN as i64 && self.bucket_id <= i32::MAX as i64 {
            Some(self.bucket_id as i32)
        } else {
            None
        }
    }
}

/// One uploaded item: the server's id for it and its file name.
#[derive(Debug)]
pub struct ExternalItemReport {
    pub item_id: i64,
    pub item_name: String,
}

/// One uploaded source: the server's id and name for it, and its items.
#[derive(Debug)]
pub struct ExternalSourceReport {
    pub source_id: i64,
    pub source_name: String,
    pub items: Vec<ExternalItemReport>,
}

/// What a successful run uploaded, in the order of the manifest.
#[derive(Debug)]
pub struct SynchroniseReport {
    pub sources: Vec<ExternalSourceReport>,
}

pub struct ItemReportView {
    pub item_id: i64,
    pub item_name: Seq<char>,
}

pub struct SourceReportView {
    pub source_id: i64,
    pub source_name: Seq<char>,
    pub items: Seq<ItemReportView>,
}

impl View for ExternalItemReport {
    type V = ItemReportView;

    open spec fn view(&self) -> ItemReportView {
        ItemReportView { item_id: self.item_id, item_name: self.item_name@ }
    }
}

pub open spec fn item_reports_view(v: Seq<ExternalItemReport>) -> Seq<ItemReportView> {
    v.map_values(|r: ExternalItemReport| r@)
}

impl View for ExternalSourceReport {
    type V = SourceReportView;

    open spec fn view(&self) -> SourceReportView {
        SourceReportView {
            source_id: self.source_id,
            source_name: self.source_name@,
            items: item_reports_view(self.items@),
        }
    }
}

pub open spec fn source_reports_view(v: Seq<ExternalSourceReport>) -> Seq<SourceReportView> {
    v.map_values(|r: ExternalSourceReport| r@)
}

/// What the driver reports back after performing an action.
#[derive(Debug)]
#[allow(inconsistent_fields)]
pub enum SyncEvent {
    /// The ids of the sources that the bucket holds.
    Listed(Vec<i32>),
    /// The source was deleted.
    Deleted,
    /// The files of the source to normalise.
    Loaded(Vec<SourceFile>),
    /// The server created the source.
    SourceCreated { id: i32, name: String },
    /// The server created the item and reports its processing state.
    ItemCreated { id: i64, processing_state: String },
    /// The action failed, for the reason given.
    Failed(String),
}

#[allow(inconsistent_fields)]
pub enum SyncEventView {
    Listed(Seq<i32>),
    Deleted,
    Loaded(Seq<SourceFileView>),
    SourceCreated { id: i32, name: Seq<char> },
    ItemCreated { id: i64, processing_state: Seq<char> },
    Failed(Seq<char>),
}

impl View for SyncEvent {
    type V = SyncEventView;

    open spec fn view(&self) -> SyncEventView {
        match self {
            SyncEvent::Listed(ids) => SyncEventView::Listed(ids@),
            SyncEvent::Deleted => SyncEventView::Deleted,
            SyncEvent::Loaded(files) => SyncEventView::Loaded(files_view(files@)),
            SyncEvent::SourceCreated { id, name } => SyncEventView::SourceCreated {
                id: *id,
                name: name@,
            },
            SyncEvent::ItemCreated { id, processing_state } => SyncEventView::ItemCreated {
                id: *id,
                processing_state: processing_state@,
            },
            SyncEvent::Failed(d) => SyncEventView::Failed(d@),
        }
    }
}

/// What the machine asks its driver to do next.
#[derive(Debug)]
#[allow(inconsistent_fields)]
pub enum SyncAction {
    /// List the sources in the bucket.
    ListSources,
    /// Delete the source with this id.
    DeleteSource(i32),
    /// Load the files of the manifest's source at this position.
    Normalize(usize),
    /// Create a remote source.
    CreateSource { name: String, bucket_id: i32 },
    /// Create a remote item in a source, leaving its processing state to the server.
    CreateItem { content: String, url: String, bucket_id: i64, external_source_id: i64 },
    /// Nothing more: the run is over.
    Stop,
}

#[allow(inconsistent_fields)]
pub enum SyncActionView {
    ListSources,
    DeleteSource(i32),
    Normalize(nat),
    CreateSource { name: Seq<char>, bucket_id: i32 },
    CreateItem { content: Seq<char>, url: Seq<char>, bucket_id: i64, external_source_id: i64 },
    Stop,
}

impl View for SyncAction {
    type V = SyncActionView;

    open spec fn view(&self) -> SyncActionView {
        match self {
            SyncAction::ListSources => SyncActionView::ListSources,
            SyncAction::DeleteSource(id) => SyncActionView::DeleteSource(*id),
            SyncAction::Normalize(i) => SyncActionView::Normalize(*i as nat),
            SyncAction::CreateSource { name, bucket_id } => SyncActionView::CreateSource {
                name: name@,
                bucket_id: *bucket_id,
            },
            SyncAction::CreateItem { content, url, bucket_id, external_source_id } =>
                SyncActionView::CreateItem {
                content: content@,
                url: url@,
                bucket_id: *bucket_id,
                external_source_id: *external_source_id,
            },
            SyncAction::Stop => SyncActionView::Stop,
        }
    }
}

/// Where a run stands.
pub enum PhaseView {
    /// The bucket's sources are about to be listed.
    Listing,
    /// These sources remain to be deleted, first one first.
    Clearing { pending: Seq<i32> },
    /// The manifest's source at `index` is about to be loaded and normalised.
    Loading { index: nat },
    /// The source at `index` was normalised into `items` and is about to be created.
    CreatingSource { index: nat, items: Seq<ItemView> },
    /// Item `next` of the source at `index` is about to be uploaded; `done` holds the
    /// items that the server accepted so far.
    Uploading {
        index: nat,
        items: Seq<ItemView>,
        source_id: i32,
        source_name: Seq<char>,
        next: nat,
        done: Seq<ItemReportView>,
    },
    /// Every source was uploaded.
    Done,
    /// The run ended with this error.
    Failed { message: Seq<char> },
}

pub struct SyncView {
    pub names: Seq<Seq<char>>,
    pub kind: ProcessorKind,
    pub bucket_id: i32,
    pub phase: PhaseView,
    pub reports: Seq<SourceReportView>,
}

/// The reports line up with the phase: one per source already finished.
pub open spec fn sync_wf(s: SyncView) -> bool {
    match s.phase {
        PhaseView::Listing => s.reports.len() == 0,
        PhaseView::Clearing { pending } => pending.len() > 0 && s.reports.len() == 0,
        PhaseView::Loading { index } => index < s.names.len() && s.reports.len() == index,
        PhaseView::CreatingSource { index, .. } => index < s.names.len() && s.reports.len()
            == index,
        PhaseView::Uploading { index, items, next, done, .. } => index < s.names.len()
            && s.reports.len() == index && next < items.len() && done.len() == next,
        PhaseView::Done => s.reports.len() == s.names.len(),
        PhaseView::Failed { .. } => true,
    }
}

pub open spec fn clear_failure(d: Seq<char>) -> Seq<char> {
    "Failed to empty bucket before sync: "@ + d
}

pub open spec fn process_failure(d: Seq<char>) -> Seq<char> {
    "Process step failed: "@ + d
}

pub open spec fn create_source_failure(d: Seq<char>) -> Seq<char> {
    "[UPLOAD fail @ create_source]: "@ + d
}

pub open spec fn create_item_failure(file: Seq<char>, d: Seq<char>) -> Seq<char> {
    "[UPLOAD fail @ create_item for file="@ + file + "]: "@ + d
}

pub open spec fn state_failure(file: Seq<char>, state: Seq<char>) -> Seq<char> {
    "[UPLOAD fail @ create_item post-state: file="@ + file
        + "] Uploaded item's processing_state was not 'Submitted': "@ + state
}

pub open spec fn unexpected_event() -> Seq<char> {
    "Unexpected event for the pending step"@
}

pub open spec fn failed(s: SyncView, message: Seq<char>) -> SyncView {
    SyncView { phase: PhaseView::Failed { message }, ..s }
}

/// The phase that follows once the sources before `index` are done.
pub open spec fn source_phase(s: SyncView, index: nat) -> PhaseView {
    if index < s.names.len() {
        PhaseView::Loading { index }
    } else {
        PhaseView::Done
    }
}

/// After `next` items of a source: the next upload, or the source's report and the next
/// source when none is left.
pub open spec fn after_items(
    s: SyncView,
    index: nat,
    items: Seq<ItemView>,
    source_id: i32,
    source_name: Seq<char>,
    next: nat,
    done: Seq<ItemReportView>,
) -> SyncView {
    if next < items.len() {
        SyncView {
            phase: PhaseView::Uploading { index, items, source_id, source_name, next, done },
            ..s
        }
    } else {
        SyncView {
            reports: s.reports.push(
                SourceReportView { source_id: source_id as i64, source_name, items: done },
            ),
            phase: source_phase(s, index + 1),
            ..s
        }
    }
}

/// The state after an event.
pub open spec fn spec_step(s: SyncView, e: SyncEventView) -> SyncView {
    match s.phase {
        PhaseView::Listing => match e {
            SyncEventView::Listed(ids) => if ids.len() > 0 {
                SyncView { phase: PhaseView::Clearing { pending: ids }, ..s }
            } else {
                SyncView { phase: source_phase(s, 0), ..s }
            },
            SyncEventView::Failed(d) => failed(s, clear_failure(d)),
            _ => failed(s, unexpected_event()),
        },
        PhaseView::Clearing { pending } => match e {
            SyncEventView::Deleted => if pending.len() > 1 {
                SyncView { phase: PhaseView::Clearing { pending: pending.drop_first() }, ..s }
            } else {
                SyncView { phase: source_phase(s, 0), ..s }
            },
            SyncEventView::Failed(d) => failed(s, clear_failure(d)),
            _ => failed(s, unexpected_event()),
        },
        PhaseView::Loading { index } => match e {
            SyncEventView::Loaded(files) => match normalized_items(s.kind, files) {
                Some(items) => SyncView {
                    phase: PhaseView::CreatingSource { index, items },
                    ..s
                },
                None => failed(s, process_failure("NoReadme"@)),
            },
            SyncEventView::Failed(d) => failed(s, process_failure(d)),
            _ => failed(s, unexpected_event()),
        },
        PhaseView::CreatingSource { index, items } => match e {
            SyncEventView::SourceCreated { id, name } => after_items(
                s,
                index,
                items,
                id,
                name,
                0,
                Seq::empty(),
            ),
            SyncEventView::Failed(d) => failed(s, create_source_failure(d)),
            _ => failed(s, unexpected_event()),
        },
        PhaseView::Uploading { index, items, source_id, source_name, next, done } => match e {
            SyncEventView::ItemCreated { id, processing_state } => if processing_state
                == "Submitted"@ {
                after_items(
                    s,
                    index,
                    items,
                    source_id,
                    source_name,
                    next + 1,
                    done.push(ItemReportView { item_id: id, item_name: items[next as int].filename }),
                )
            } else {
                failed(s, state_failure(items[next as int].filename, processing_state))
            },
            SyncEventView::Failed(d) => failed(
                s,
                create_item_failure(items[next as int].filename, d),
            ),
            _ => failed(s, unexpected_event()),
        },
        PhaseView::Done => s,
        PhaseView::Failed { .. } => s,
    }
}

/// The action that the state asks for.
pub open spec fn spec_next_action(s: SyncView) -> SyncActionView {
    match s.phase {
        PhaseView::Listing => SyncActionView::ListSources,
        PhaseView::Clearing { pending } => SyncActionView::DeleteSource(pending[0]),
        PhaseView::Loading { index } => SyncActionView::Normalize(index),
        PhaseView::CreatingSource { index, .. } => SyncActionView::CreateSource {
            name: s.names[index as int],
            bucket_id: s.bucket_id,
        },
        PhaseView::Uploading { items, source_id, next, .. } => SyncActionView::CreateItem {
            content: lossy_text(items[next as int].content),
            url: items[next as int].filename,
            bucket_id: s.bucket_id as i64,
            external_source_id: source_id as i64,
        },
        PhaseView::Done => SyncActionView::Stop,
        PhaseView::Failed { .. } => SyncActionView::Stop,
    }
}

/// The state after a sequence of events.
pub open spec fn run_events(s: SyncView, events: Seq<SyncEventView>) -> SyncView
    decreases events.len(),
{
    if events.len() == 0 {
        s
    } else {
        spec_step(run_events(s, events.drop_last()), events.last())
    }
}

enum Phase {
    Listing,
    Clearing { ids: Vec<i32>, next: usize },
    Loading { index: usize },
    CreatingSource { index: usize, normalized: ExternalSourceInput },
    Uploading {
        index: usize,
        normalized: ExternalSourceInput,
        source_id: i32,
        source_name: String,
        next: usize,
        done: Vec<ExternalItemReport>,
    },
    Done,
    Failed { message: String },
}

impl View for Phase {
    type V = PhaseView;

    closed spec fn view(&self) -> PhaseView {
        match self {
            Phase::Listing => PhaseView::Listing,
            Phase::Clearing { ids, next } => PhaseView::Clearing {
                pending: ids@.skip(*next as int),
            },
            Phase::Loading { index } => PhaseView::Loading { index: *index as nat },
            Phase::CreatingSource { index, normalized } => PhaseView::CreatingSource {
                index: *index as nat,
                items: items_view(normalized.external_items@),
            },
            Phase::Uploading { index, normalized, source_id, source_name, next, done } =>
                PhaseView::Uploading {
                index: *index as nat,
                items: items_view(normalized.external_items@),
                source_id: *source_id,
                source_name: source_name@,
                next: *next as nat,
                done: item_reports_view(done@),
            },
            Phase::Done => PhaseView::Done,
            Phase::Failed { message } => PhaseView::Failed { message: message@ },
        }
    }
}

/// A synchronisation run in progress.
pub struct SyncMachine {
    names: Vec<String>,
    config: ProcessConfig,
    bucket_id: i32,
    phase: Phase,
    reports: Vec<ExternalSourceReport>,
}

impl View for SyncMachine {
    type V = SyncView;

    closed spec fn view(&self) -> SyncView {
        SyncView {
            names: views_of(self.names@),
            kind: self.config.kind,
            bucket_id: self.bucket_id,
            phase: self.phase@,
            reports: source_reports_view(self.reports@),
        }
    }
}

fn concat(a: &str, b: &str) -> (r: String)
    ensures
        r@ == a@ + b@,
{
    let mut r = copy_str(a);
    r.push_str(b);
    r
}

impl SyncMachine {
    pub closed spec fn inv(&self) -> bool {
        &&& sync_wf(self@)
        &&& match self.phase {
            Phase::Clearing { ids, next } => next < ids.len(),
            _ => true,
        }
    }

    /// A run over the manifest's sources, normalising with `config` and uploading into the
    /// bucket `bucket_id`. It starts by listing the bucket.
    pub fn new(sources: &Vec<DownloadedSource>, config: ProcessConfig, bucket_id: i32) -> (r: SyncMachine)
        ensures
            r.inv(),
            r@ == (SyncView {
                names: sources@.map_values(|d: DownloadedSource| d.logical_name@),
                kind: config.kind,
                bucket_id,
                phase: PhaseView::Listing,
                reports: Seq::empty(),
            }),
    {
        let mut names: Vec<String> = Vec::new();
        let mut i: usize = 0;
        while i < sources.len()
            invariant
                i <= sources.len(),
                views_of(names@) == sources@.take(i as int).map_values(
                    |d: DownloadedSource| d.logical_name@,
                ),
            decreases sources.len() - i,
        {
            let ghost before = views_of(names@);
            let n = sources[i].logical_name.clone();
            names.push(n);
            assert(views_of(names@) =~= before.push(n@));
            assert(sources@.take(i + 1).map_values(|d: DownloadedSource| d.logical_name@)
                =~= sources@.take(i as int).map_values(|d: DownloadedSource| d.logical_name@).push(
                sources@[i as int].logical_name@,
            ));
            i = i + 1;
        }
        assert(sources@.take(sources.len() as int) =~= sources@);
        let r = SyncMachine { names, config, bucket_id, phase: Phase::Listing, reports: Vec::new() };
        assert(source_reports_view(r.reports@) =~= Seq::<SourceReportView>::empty());
        r
    }

    /// Whether the run is over.
    pub fn is_finished(&self) -> (r: bool)
        ensures
            r == (self@.phase is Done || self@.phase is Failed),
    {
        match self.phase {
            Phase::Done => true,
            Phase::Failed { .. } => true,
            _ => false,
        }
    }

    /// The action that the run asks for now.
    pub fn next_action(&self) -> (r: SyncAction)
        requires
            self.inv(),
        ensures
            r@ == spec_next_action(self@),
    {
        match &self.phase {
            Phase::Listing => SyncAction::ListSources,
            Phase::Clearing { ids, next } => SyncAction::DeleteSource(ids[*next]),
            Phase::Loading { index } => SyncAction::Normalize(*index),
            Phase::CreatingSource { index, .. } => SyncAction::CreateSource {
                name: self.names[*index].clone(),
                bucket_id: self.bucket_id,
            },
            Phase::Uploading { normalized, source_id, next, .. } => {
                let item = &normalized.external_items[*next];
                assert(items_view(normalized.external_items@)[*next as int] == item@);
                SyncAction::CreateItem {
                    content: text_from_bytes(&item.content),
                    url: item.filename.clone(),
                    bucket_id: self.bucket_id as i64,
                    external_source_id: *source_id as i64,
                }
            },
            Phase::Done => SyncAction::Stop,
            Phase::Failed { .. } => SyncAction::Stop,
        }
    }

    fn fail_with(&mut self, message: String)
        ensures
            final(self)@ == failed(old(self)@, message@),
            final(self).inv(),
    {
        self.phase = Phase::Failed { message };
    }

    fn start_sources(&mut self)
        requires
            old(self)@.reports.len() == 0,
        ensures
            final(self)@ == (SyncView { phase: source_phase(old(self)@, 0), ..old(self)@ }),
            final(self).inv(),
    {
        if self.names.len() > 0 {
            self.phase = Phase::Loading { index: 0 };
        } else {
            self.phase = Phase::Done;
        }
    }

    fn continue_items(
        &mut self,
        index: usize,
        normalized: ExternalSourceInput,
        source_id: i32,
        source_name: String,
        next: usize,
        done: Vec<ExternalItemReport>,
    )
        requires
            index < old(self)@.names.len(),
            old(self)@.reports.len() == index,
            next <= normalized.external_items.len(),
            done.len() == next,
        ensures
            final(self)@ == after_items(
                old(self)@,
                index as nat,
                items_view(normalized.external_items@),
                source_id,
                source_name@,
                next as nat,
                item_reports_view(done@),
            ),
            final(self).inv(),
    {
        let count = self.names.len();
        assert(count == old(self)@.names.len());
        if next < normalized.external_items.len() {
            self.phase = Phase::Uploading { index, normalized, source_id, source_name, next, done };
        } else {
            let ghost before = source_reports_view(self.reports@);
            let report = ExternalSourceReport { source_id: source_id as i64, source_name, items: done };
            self.reports.push(report);
            assert(source_reports_view(self.reports@) =~= before.push(report@));
            if index + 1 < count {
                self.phase = Phase::Loading { index: index + 1 };
            } else {
                self.phase = Phase::Done;
            }
        }
    }

    /// Takes in what happened to the pending action.
    pub fn step(&mut self, event: SyncEvent)
        requires
            old(self).inv(),
        ensures
            final(self).inv(),
            final(self)@ == spec_step(old(self)@, event@),
    {
        let ghost s = self@;
        let mut phase = Phase::Done;
        std::mem::swap(&mut self.phase, &mut phase);
        assert(self@ == SyncView { phase: PhaseView::Done, ..s });
        match phase {
            Phase::Listing => match event {
                SyncEvent::Listed(ids) => {
                    if ids.len() > 0 {
                        self.phase = Phase::Clearing { ids, next: 0 };
                        assert(self@.phase == (PhaseView::Clearing { pending: ids@ })) by {
                            assert(ids@.skip(0) =~= ids@);
                        }
                    } else {
                        self.start_sources();
                    }
                },
                SyncEvent::Failed(d) => self.fail_with(
                    concat("Failed to empty bucket before sync: ", d.as_str()),
                ),
                _ => self.fail_with(copy_str("Unexpected event for the pending step")),
            },
            Phase::Clearing { ids, next } => match event {
                SyncEvent::Deleted => {
                    if next + 1 < ids.len() {
                        assert(ids@.skip(next as int).drop_first() =~= ids@.skip(next + 1));
                        self.phase = Phase::Clearing { ids, next: next + 1 };
                    } else {
                        self.start_sources();
                    }
                },
                SyncEvent::Failed(d) => self.fail_with(
                    concat("Failed to empty bucket before sync: ", d.as_str()),
                ),
                _ => self.fail_with(copy_str("Unexpected event for the pending step")),
            },
            Phase::Loading { index } => match event {
                SyncEvent::Loaded(files) => {
                    let input = ProcessInput { name: self.names[index].clone(), files };
                    match process(&self.config, input) {
                        Ok(normalized) => {
                            self.phase = Phase::CreatingSource { index, normalized };
                        },
                        Err(_) => {
                            self.fail_with(concat("Process step failed: ", "NoReadme"));
                        },
                    }
                },
                SyncEvent::Failed(d) => self.fail_with(
                    concat("Process step failed: ", d.as_str()),
                ),
                _ => self.fail_with(copy_str("Unexpected event for the pending step")),
            },
            Phase::CreatingSource { index, normalized } => match event {
                SyncEvent::SourceCreated { id, name } => {
                    let done: Vec<ExternalItemReport> = Vec::new();
                    assert(item_reports_view(done@) =~= Seq::<ItemReportView>::empty());
                    self.continue_items(index, normalized, id, name, 0, done);
                },
                SyncEvent::Failed(d) => self.fail_with(
                    concat("[UPLOAD fail @ create_source]: ", d.as_str()),
                ),
                _ => self.fail_with(copy_str("Unexpected event for the pending step")),
            },
            Phase::Uploading { index, normalized, source_id, source_name, next, done } => {
                let ghost items = items_view(normalized.external_items@);
                assert(items[next as int] == normalized.external_items@[next as int]@);
                assert(items.len() == normalized.external_items.len());
                match event {
                    SyncEvent::ItemCreated { id, processing_state } => {
                        if text_eq(processing_state.as_str(), "Submitted") {
                            let mut done = done;
                            let ghost before = item_reports_view(done@);
                            let entry = ExternalItemReport {
                                item_id: id,
                                item_name: normalized.external_items[next].filename.clone(),
                            };
                            done.push(entry);
                            assert(item_reports_view(done@) =~= before.push(entry@));
                            self.continue_items(
                                index,
                                normalized,
                                source_id,
                                source_name,
                                next + 1,
                                done,
                            );
                        } else {
                            let mut m = copy_str("[UPLOAD fail @ create_item post-state: file=");
                            m.push_str(normalized.external_items[next].filename.as_str());
                            m.push_str("] Uploaded item's processing_state was not 'Submitted': ");
                            m.push_str(processing_state.as_str());
                            self.fail_with(m);
                        }
                    },
                    SyncEvent::Failed(d) => {
                        let mut m = copy_str("[UPLOAD fail @ create_item for file=");
                        m.push_str(normalized.external_items[next].filename.as_str());
                        m.push_str("]: ");
                        m.push_str(d.as_str());
                        self.fail_with(m);
                    },
                    _ => self.fail_with(copy_str("Unexpected event for the pending step")),
                }
            },
            Phase::Done => {
                self.phase = Phase::Done;
            },
            Phase::Failed { message } => {
                self.phase = Phase::Failed { message };
            },
        }
    }

    /// The run's result once it is over: the report when every source was uploaded, the
    /// error otherwise.
    pub fn outcome(self) -> (r: Result<SynchroniseReport, String>)
        requires
            self.inv(),
            self@.phase is Done || self@.phase is Failed,
        ensures
            self@.phase is Done ==> (r matches Ok(report) && source_reports_view(report.sources@)
                == self@.reports),
            self@.phase matches PhaseView::Failed { message } ==> (r matches Err(m) && m@
                == message),
    {
        match self.phase {
            Phase::Failed { message } => Err(message),
            _ => Ok(SynchroniseReport { sources: self.reports }),
        }
    }
}

proof fn lemma_failed_is_final(t: SyncView, events: Seq<SyncEventView>)
    requires
        t.phase is Failed,
    ensures
        run_events(t, events) == t,
    decreases events.len(),
{
    if events.len() > 0 {
        lemma_failed_is_final(t, events.drop_last());
    }
}

/// Fail-fast: when the upload of an item fails, because the server refuses it or reports
/// another processing state than `Submitted`, the run has failed for good. Whatever happens
/// afterwards it asks for nothing more (so no later source is ever loaded, created or
/// uploaded), its reports stay those of the sources finished before this one (none of
/// this source's), and its outcome is the error, never a report.
pub proof fn lemma_fail_fast(s: SyncView, e: SyncEventView, later: Seq<SyncEventView>)
    requires
        sync_wf(s),
        s.phase is Uploading,
        e is Failed || (e matches SyncEventView::ItemCreated { processing_state, .. }
            && processing_state != "Submitted"@),
    ensures
        s.phase matches PhaseView::Uploading { index, .. } && s.reports.len() == index,
        forall|k: int|
            0 <= k <= later.len() ==> (#[trigger] run_events(spec_step(s, e), later.take(k))).phase is Failed,
        forall|k: int|
            0 <= k <= later.len() ==> (#[trigger] run_events(spec_step(s, e), later.take(k))).reports
                == s.reports,
        forall|k: int|
            0 <= k <= later.len() ==> spec_next_action(
                #[trigger] run_events(spec_step(s, e), later.take(k)),
            ) == SyncActionView::Stop,
{
    let t = spec_step(s, e);
    assert(t.phase is Failed);
    assert forall|k: int| 0 <= k <= later.len() implies #[trigger] run_events(t, later.take(k))
        == t by {
        lemma_failed_is_final(t, later.take(k));
    }
}

/// `n` answers that a deletion succeeded.
pub open spec fn deletions(n: nat) -> Seq<SyncEventView> {
    Seq::new(n, |_i: int| SyncEventView::Deleted)
}

proof fn lemma_clearing_progress(s: SyncView, ids: Seq<i32>, k: nat)
    requires
        s.phase is Listing,
        ids.len() > 0,
        k < ids.len(),
    ensures
        run_events(spec_step(s, SyncEventView::Listed(ids)), deletions(k)) == (SyncView {
            phase: PhaseView::Clearing { pending: ids.skip(k as int) },
            ..s
        }),
    decreases k,
{
    let t0 = spec_step(s, SyncEventView::Listed(ids));
    if k == 0 {
        assert(deletions(0) =~= Seq::<SyncEventView>::empty());
        assert(ids.skip(0) =~= ids);
    } else {
        lemma_clearing_progress(s, ids, (k - 1) as nat);
        assert(deletions(k).drop_last() =~= deletions((k - 1) as nat));
        assert(ids.skip(k - 1).drop_first() =~= ids.skip(k as int));
    }
}

/// The bucket is emptied before anything is created: after the listing, the run asks to
/// delete each listed source in turn, in the order listed, and only once every deletion
/// has succeeded does it move on to the first source (or finish, when there is none).
pub proof fn lemma_clear_before_create(s: SyncView, ids: Seq<i32>)
    requires
        sync_wf(s),
        s.phase is Listing,
    ensures
        forall|k: int|
            0 <= k < ids.len() ==> spec_next_action(
                #[trigger] run_events(spec_step(s, SyncEventView::Listed(ids)), deletions(k as nat)),
            ) == SyncActionView::DeleteSource(ids[k]),
        run_events(spec_step(s, SyncEventView::Listed(ids)), deletions(ids.len())) == (SyncView {
            phase: source_phase(s, 0),
            ..s
        }),
{
    let t0 = spec_step(s, SyncEventView::Listed(ids));
    assert forall|k: int| 0 <= k < ids.len() implies spec_next_action(
        #[trigger] run_events(t0, deletions(k as nat)),
    ) == SyncActionView::DeleteSource(ids[k]) by {
        lemma_clearing_progress(s, ids, k as nat);
    }
    if ids.len() == 0 {
        assert(deletions(0) =~= Seq::<SyncEventView>::empty());
    } else {
        lemma_clearing_progress(s, ids, (ids.len() - 1) as nat);
        assert(deletions(ids.len()).drop_last() =~= deletions((ids.len() - 1) as nat));
    }
}

} // verus!
