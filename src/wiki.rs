//! Wiki space extraction: request addresses, the pagination policy with its optional page
//! cap, and the conversion of each page into a flat markdown file.
use vstd::prelude::*;
use crate::text::{
    chars_of, copy_str, decimal, decimal_string, join_from, joined, replace_all, replaced,
    string_of_range, trim_end, trim_end_char, views_of,
};

verus! {

/// How many pages one listing request asks for.
pub const PAGE_BATCH: u64 = 100;

/// The base address without its trailing slashes.
pub open spec fn api_root(base_url: Seq<char>) -> Seq<char> {
    trim_end_char(base_url, '/')
}

/// The address of the space's metadata.
pub open spec fn space_url_of(base_url: Seq<char>, space_key: Seq<char>) -> Seq<char> {
    api_root(base_url) + "/rest/api/space/"@ + space_key
}

/// The address of the page listing that starts at `start`.
pub open spec fn content_url_of(base_url: Seq<char>, space_key: Seq<char>, start: nat) -> Seq<char> {
    api_root(base_url) + "/rest/api/content?spaceKey="@ + space_key + "&limit="@ + decimal(
        PAGE_BATCH as nat,
    ) + "&start="@ + decimal(start) + "&expand=title,body.storage,ancestors"@
}

/// The address of the space's metadata.
pub fn space_url(base_url: &str, space_key: &str) -> (r: String)
    ensures
        r@ == space_url_of(base_url@, space_key@),
{
    let mut r = trim_end(base_url, '/');
    r.push_str("/rest/api/space/");
    r.push_str(space_key);
    r
}

/// The address of the page listing that starts at `start`.
pub fn content_url(base_url: &str, space_key: &str, start: u64) -> (r: String)
    ensures
        r@ == content_url_of(base_url@, space_key@, start as nat),
{
    let mut r = trim_end(base_url, '/');
    r.push_str("/rest/api/content?spaceKey=");
    r.push_str(space_key);
    r.push_str("&limit=");
    r.push_str(decimal_string(PAGE_BATCH).as_str());
    r.push_str("&start=");
    r.push_str(decimal_string(start).as_str());
    r.push_str("&expand=title,body.storage,ancestors");
    r
}

/// One page of a wiki space, as the listing gives it.
#[derive(Debug)]
pub struct WikiPage {
    pub title: String,
    pub body_html: String,
    pub ancestors: Vec<String>,
}

pub struct WikiPageView {
    pub title: Seq<char>,
    pub body_html: Seq<char>,
    pub ancestors: Seq<Seq<char>>,
}

impl View for WikiPage {
    type V = WikiPageView;

    open spec fn view(&self) -> WikiPageView {
        WikiPageView {
            title: self.title@,
            body_html: self.body_html@,
            ancestors: views_of(self.ancestors@),
        }
    }
}

/// The views of a list of pages.
pub open spec fn pages_view(v: Seq<WikiPage>) -> Seq<WikiPageView> {
    v.map_values(|p: WikiPage| p@)
}

/// A character that a page file name cannot hold.
pub open spec fn is_unsafe_title_char(c: char) -> bool {
    c == '/' || c == '\\' || c == ':' || c == '*' || c == '?' || c == '"' || c == '<' || c == '>'
        || c == '|'
}

pub open spec fn title_char(c: char) -> char {
    if is_unsafe_title_char(c) { '_' } else { c }
}

/// `s` with every run of underscores shortened to one underscore.
pub open spec fn collapse_underscores(s: Seq<char>) -> Seq<char>
    decreases s.len(),
{
    if s.len() == 0 {
        s
    } else if s.last() == '_' && s.len() >= 2 && s[s.len() - 2] == '_' {
        collapse_underscores(s.drop_last())
    } else {
        collapse_underscores(s.drop_last()).push(s.last())
    }
}

/// One title as it stands in a page file name.
pub open spec fn clean_title(t: Seq<char>) -> Seq<char> {
    collapse_underscores(t.map_values(|c: char| title_char(c)))
}

pub open spec fn is_edge_char(c: char) -> bool {
    c == '_' || c == '.'
}

/// `s` without its leading underscores and dots.
pub open spec fn strip_start(s: Seq<char>) -> Seq<char>
    decreases s.len(),
{
    if s.len() > 0 && is_edge_char(s[0]) {
        strip_start(s.drop_first())
    } else {
        s
    }
}

/// `s` without its trailing underscores and dots.
pub open spec fn strip_end(s: Seq<char>) -> Seq<char>
    decreases s.len(),
{
    if s.len() > 0 && is_edge_char(s.last()) {
        strip_end(s.drop_last())
    } else {
        s
    }
}

/// The titles of the page's ancestors, outermost first, then its own title.
pub open spec fn title_path(p: WikiPageView) -> Seq<Seq<char>> {
    p.ancestors.push(p.title)
}

/// The titles among `a`, in order.
pub open spec fn present_titles(a: Seq<Option<String>>) -> Seq<Seq<char>>
    decreases a.len(),
{
    if a.len() == 0 {
        Seq::empty()
    } else {
        match a.last() {
            Some(t) => present_titles(a.drop_last()).push(t@),
            None => present_titles(a.drop_last()),
        }
    }
}

/// Each title of `path`, cleaned.
pub open spec fn clean_titles(path: Seq<Seq<char>>) -> Seq<Seq<char>> {
    path.map_values(|t: Seq<char>| clean_title(t))
}

/// The file stem of a page: its title path, each title cleaned, joined by a double
/// underscore, without leading or trailing underscores and dots.
pub open spec fn page_stem(p: WikiPageView) -> Seq<char> {
    strip_end(strip_start(joined(clean_titles(title_path(p)))))
}

/// The name of the markdown file of a page.
pub open spec fn page_file_name(p: WikiPageView) -> Seq<char> {
    page_stem(p) + ".md"@
}

fn clean_title_string(t: &str) -> (r: String)
    ensures
        r@ == clean_title(t@),
{
    let ghost mapped = t@.map_values(|c: char| title_char(c));
    let mut r = String::new();
    let mut prev_underscore = false;
    for c in it: t.chars()
        invariant
            it.seq() == t@,
            mapped == t@.map_values(|c: char| title_char(c)),
            r@ == collapse_underscores(mapped.take(it.index())),
            prev_underscore == (it.index() > 0 && mapped[it.index() - 1] == '_'),
    {
        let ghost k = it.index();
        assert(mapped.take(k + 1).drop_last() =~= mapped.take(k));
        let d = if c == '/' || c == '\\' || c == ':' || c == '*' || c == '?' || c == '"' || c
            == '<' || c == '>' || c == '|' {
            '_'
        } else {
            c
        };
        assert(mapped.take(k + 1).last() == d);
        if !(d == '_' && prev_underscore) {
            r.push(d);
        }
        prev_underscore = d == '_';
    }
    assert(mapped.take(mapped.len() as int) =~= mapped);
    r
}

fn strip_edges(s: &str) -> (r: String)
    ensures
        r@ == strip_end(strip_start(s@)),
{
    let v = chars_of(s);
    let mut lo: usize = 0;
    assert(v@.skip(0) =~= v@);
    while lo < v.len() && (v[lo] == '_' || v[lo] == '.')
        invariant
            v@ == s@,
            lo <= v.len(),
            strip_start(v@.skip(lo as int)) == strip_start(s@),
        decreases v.len() - lo,
    {
        assert(v@.skip(lo as int).drop_first() =~= v@.skip(lo + 1));
        lo = lo + 1;
    }
    let mut hi: usize = v.len();
    assert(v@.subrange(lo as int, hi as int) =~= v@.skip(lo as int));
    while hi > lo && (v[hi - 1] == '_' || v[hi - 1] == '.')
        invariant
            v@ == s@,
            lo <= hi <= v.len(),
            strip_end(v@.subrange(lo as int, hi as int)) == strip_end(strip_start(s@)),
        decreases hi,
    {
        assert(v@.subrange(lo as int, hi as int).drop_last() =~= v@.subrange(
            lo as int,
            hi - 1,
        ));
        hi = hi - 1;
    }
    string_of_range(&v, lo, hi)
}

impl WikiPage {
    /// A page from the fields that the listing may or may not carry: an absent title reads
    /// `untitled`, an absent body is empty, and ancestors without a title are left out.
    pub fn from_fields(title: Option<String>, body: Option<String>, ancestors: Vec<Option<String>>) -> (r: WikiPage)
        ensures
            r.title@ == match title {
                Some(t) => t@,
                None => "untitled"@,
            },
            r.body_html@ == match body {
                Some(b) => b@,
                None => Seq::<char>::empty(),
            },
            views_of(r.ancestors@) == present_titles(ancestors@),
    {
        let mut kept: Vec<String> = Vec::new();
        let mut i: usize = 0;
        while i < ancestors.len()
            invariant
                i <= ancestors.len(),
                views_of(kept@) == present_titles(ancestors@.take(i as int)),
            decreases ancestors.len() - i,
        {
            assert(ancestors@.take(i + 1).drop_last() =~= ancestors@.take(i as int));
            assert(ancestors@.take(i + 1).last() == ancestors@[i as int]);
            match &ancestors[i] {
                Some(t) => {
                    kept.push(t.clone());
                },
                None => {},
            }
            assert(views_of(kept@) =~= present_titles(ancestors@.take(i + 1)));
            i = i + 1;
        }
        assert(ancestors@.take(ancestors.len() as int) =~= ancestors@);
        WikiPage {
            title: match title {
                Some(t) => t,
                None => copy_str("untitled"),
            },
            body_html: match body {
                Some(b) => b,
                None => String::new(),
            },
            ancestors: kept,
        }
    }

    /// The name of this page's markdown file.
    pub fn file_name(&self) -> (r: String)
        ensures
            r@ == page_file_name(self@),
    {
        let ghost path = title_path(self@);
        let mut cleaned: Vec<String> = Vec::new();
        let mut i: usize = 0;
        while i < self.ancestors.len()
            invariant
                i <= self.ancestors.len(),
                path == title_path(self@),
                views_of(cleaned@) == clean_titles(path.take(i as int)),
            decreases self.ancestors.len() - i,
        {
            assert(path[i as int] == self.ancestors@[i as int]@);
            let ghost before = views_of(cleaned@);
            let c = clean_title_string(self.ancestors[i].as_str());
            cleaned.push(c);
            assert(views_of(cleaned@) =~= before.push(c@));
            assert(clean_titles(path.take(i + 1)) =~= clean_titles(path.take(i as int)).push(
                clean_title(path[i as int]),
            ));
            i = i + 1;
        }
        assert(path[i as int] == self.title@);
        assert(path.take(i as int) =~= path.drop_last());
        let ghost before = views_of(cleaned@);
        let c = clean_title_string(self.title.as_str());
        cleaned.push(c);
        assert(views_of(cleaned@) =~= before.push(c@));
        assert(clean_titles(path) =~= clean_titles(path.take(i as int)).push(
            clean_title(path[i as int]),
        ));
        assert(views_of(cleaned@).skip(0) =~= views_of(cleaned@));
        let stem = join_from(&cleaned, 0);
        let mut r = strip_edges(stem.as_str());
        r.push_str(".md");
        r
    }
}

/// `s` from position `j` on holds the end of a markup tag that opens at position 0: a `>`
/// at `j`, with at least one other character between, none of them `>`.
pub open spec fn closes_tag_at(s: Seq<char>, j: int) -> bool {
    &&& 2 <= j < s.len()
    &&& s[j] == '>'
    &&& forall|k: int| 1 <= k < j ==> s[k] != '>'
}

/// `s` without its markup tags: scanning left to right, each `<` that a later `>` closes,
/// with at least one character between and no `>` among them, is removed together with
/// everything up to and including that `>`.
pub open spec fn strip_tags(s: Seq<char>) -> Seq<char>
    decreases s.len(),
{
    if s.len() == 0 {
        s
    } else if s[0] == '<' && exists|j: int| closes_tag_at(s, j) {
        let j = choose|j: int| closes_tag_at(s, j);
        strip_tags(s.skip(j + 1))
    } else {
        seq![s[0]] + strip_tags(s.skip(1))
    }
}

/// Relies on `regex::Regex::new` and `regex::Regex::replace_all`: every non-overlapping
/// match of `<[^>]+>`, leftmost first, is replaced by nothing.
#[verifier::external_body]
fn remove_tags(s: &str) -> (r: String)
    ensures
        r@ == strip_tags(s@),
{
    regex::Regex::new(r"<[^>]+>").unwrap().replace_all(s, "").into_owned()
}

/// The markdown of a page body: headings become `#` runs, paragraphs, line breaks, lists
/// and list items become new lines and bullets, and every other tag is removed.
pub open spec fn markdown_of(html: Seq<char>) -> Seq<char> {
    let s = replaced(html, "<h6>"@, "\n###### "@);
    let s = replaced(s, "</h6>"@, "\n"@);
    let s = replaced(s, "<h5>"@, "\n##### "@);
    let s = replaced(s, "</h5>"@, "\n"@);
    let s = replaced(s, "<h4>"@, "\n#### "@);
    let s = replaced(s, "</h4>"@, "\n"@);
    let s = replaced(s, "<h3>"@, "\n### "@);
    let s = replaced(s, "</h3>"@, "\n"@);
    let s = replaced(s, "<h2>"@, "\n## "@);
    let s = replaced(s, "</h2>"@, "\n"@);
    let s = replaced(s, "<h1>"@, "\n# "@);
    let s = replaced(s, "</h1>"@, "\n"@);
    let s = replaced(s, "<p>"@, "\n\n"@);
    let s = replaced(s, "</p>"@, "\n"@);
    let s = replaced(s, "<br>"@, "\n"@);
    let s = replaced(s, "<br/>"@, "\n"@);
    let s = replaced(s, "<ul>"@, "\n"@);
    let s = replaced(s, "</ul>"@, "\n"@);
    let s = replaced(s, "<ol>"@, "\n"@);
    let s = replaced(s, "</ol>"@, "\n"@);
    let s = replaced(s, "<li>"@, "- "@);
    let s = replaced(s, "</li>"@, "\n"@);
    strip_tags(s)
}

/// The markdown of a page body stored as markup.
pub fn html_to_markdown(html: &str) -> (r: String)
    ensures
        r@ == markdown_of(html@),
{
    let s = replace_all(html, "<h6>", "\n###### ");
    let s = replace_all(s.as_str(), "</h6>", "\n");
    let s = replace_all(s.as_str(), "<h5>", "\n##### ");
    let s = replace_all(s.as_str(), "</h5>", "\n");
    let s = replace_all(s.as_str(), "<h4>", "\n#### ");
    let s = replace_all(s.as_str(), "</h4>", "\n");
    let s = replace_all(s.as_str(), "<h3>", "\n### ");
    let s = replace_all(s.as_str(), "</h3>", "\n");
    let s = replace_all(s.as_str(), "<h2>", "\n## ");
    let s = replace_all(s.as_str(), "</h2>", "\n");
    let s = replace_all(s.as_str(), "<h1>", "\n# ");
    let s = replace_all(s.as_str(), "</h1>", "\n");
    let s = replace_all(s.as_str(), "<p>", "\n\n");
    let s = replace_all(s.as_str(), "</p>", "\n");
    let s = replace_all(s.as_str(), "<br>", "\n");
    let s = replace_all(s.as_str(), "<br/>", "\n");
    let s = replace_all(s.as_str(), "<ul>", "\n");
    let s = replace_all(s.as_str(), "</ul>", "\n");
    let s = replace_all(s.as_str(), "<ol>", "\n");
    let s = replace_all(s.as_str(), "</ol>", "\n");
    let s = replace_all(s.as_str(), "<li>", "- ");
    let s = replace_all(s.as_str(), "</li>", "\n");
    remove_tags(s.as_str())
}

impl WikiPage {
    /// The markdown written for this page.
    pub fn markdown(&self) -> (r: String)
        ensures
            r@ == markdown_of(self@.body_html),
    {
        html_to_markdown(self.body_html.as_str())
    }
}

/// The state of a paginated page listing.
pub struct PageCollector {
    start: u64,
    cap: Option<usize>,
    pages: Vec<WikiPage>,
    finished: bool,
}

pub struct CollectorView {
    pub start: nat,
    pub cap: Option<nat>,
    pub pages: Seq<WikiPageView>,
    pub finished: bool,
}

impl View for PageCollector {
    type V = CollectorView;

    closed spec fn view(&self) -> CollectorView {
        CollectorView {
            start: self.start as nat,
            cap: match self.cap {
                Some(c) => Some(c as nat),
                None => None,
            },
            pages: pages_view(self.pages@),
            finished: self.finished,
        }
    }
}

/// A collection never holds more pages than its cap.
pub open spec fn collector_wf(c: CollectorView) -> bool {
    match c.cap {
        Some(limit) => c.pages.len() <= limit,
        None => true,
    }
}

/// How many pages of the next batch are kept.
pub open spec fn kept_count(c: CollectorView, batch_len: nat) -> nat {
    match c.cap {
        Some(limit) => if c.pages.len() >= limit {
            0
        } else if batch_len <= limit - c.pages.len() {
            batch_len
        } else {
            (limit - c.pages.len()) as nat
        },
        None => batch_len,
    }
}

/// The collection after a batch arrives: the pages that the cap leaves room for are kept;
/// the listing ends when the cap is reached, when the batch is short (the last one), or
/// when the next start would not fit in 64 bits; otherwise the next batch starts
/// `PAGE_BATCH` further on.
pub open spec fn after_batch(c: CollectorView, batch: Seq<WikiPageView>) -> CollectorView {
    let pages = c.pages + batch.take(kept_count(c, batch.len()) as int);
    let capped = match c.cap {
        Some(limit) => pages.len() >= limit,
        None => false,
    };
    let done = capped || batch.len() < PAGE_BATCH || c.start + PAGE_BATCH > u64::MAX;
    CollectorView {
        start: if done { c.start } else { (c.start + PAGE_BATCH) as nat },
        cap: c.cap,
        pages,
        finished: done,
    }
}

impl PageCollector {
    pub open spec fn wf(&self) -> bool {
        collector_wf(self@)
    }

    /// A listing that has fetched nothing yet, with an optional cap on the number of pages.
    pub fn new(cap: Option<usize>) -> (r: PageCollector)
        ensures
            r.wf(),
            r@.start == 0,
            r@.cap == match cap {
                Some(c) => Some(c as nat),
                None => None::<nat>,
            },
            r@.pages.len() == 0,
            !r@.finished,
    {
        PageCollector { start: 0, cap, pages: Vec::new(), finished: false }
    }

    /// Where the next batch starts, or `None` once the listing has ended.
    pub fn next_start(&self) -> (r: Option<u64>)
        ensures
            r is None <==> self@.finished,
            r matches Some(s) ==> s == self@.start,
    {
        if self.finished {
            None
        } else {
            Some(self.start)
        }
    }

    /// Takes in one batch of the listing.
    pub fn receive_batch(&mut self, batch: Vec<WikiPage>)
        requires
            old(self).wf(),
            !old(self)@.finished,
        ensures
            final(self).wf(),
            final(self)@ == after_batch(old(self)@, pages_view(batch@)),
    {
        let ghost before = self@;
        let size = batch.len();
        let mut batch = batch;
        let keep = match self.cap {
            Some(limit) => if self.pages.len() >= limit {
                0
            } else if size <= limit - self.pages.len() {
                size
            } else {
                limit - self.pages.len()
            },
            None => size,
        };
        let ghost whole = batch@;
        batch.truncate(keep);
        assert(batch@ =~= whole.take(keep as int));
        self.pages.append(&mut batch);
        assert(pages_view(self.pages@) =~= before.pages + pages_view(whole).take(keep as int));
        let capped = match self.cap {
            Some(limit) => self.pages.len() >= limit,
            None => false,
        };
        if capped || size < 100 || self.start > u64::MAX - 100 {
            self.finished = true;
        } else {
            self.start = self.start + 100;
        }
    }

    /// Ends the listing after a batch could not be fetched or decoded; the pages gathered so
    /// far are kept.
    pub fn fail(&mut self)
        requires
            old(self).wf(),
        ensures
            final(self).wf(),
            final(self)@ == (CollectorView { finished: true, ..old(self)@ }),
    {
        self.finished = true;
    }

    /// The pages gathered.
    pub fn into_pages(self) -> (r: Vec<WikiPage>)
        ensures
            pages_view(r@) == self@.pages,
    {
        self.pages
    }
}

} // verus!
