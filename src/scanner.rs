use vstd::prelude::*;

use crate::text::{clone_strings, lemma_views_of_len, lemma_views_of_push, str_equal, views_of};

verus! {

// ---------------------------------------------------------------------------
// File names
// ---------------------------------------------------------------------------

/// Index of the last '.' strictly before position `i`, or -1.
pub open spec fn last_dot_before(name: Seq<char>, i: int) -> int
    decreases i,
{
    if i <= 0 {
        -1
    } else if name[i - 1] == '.' {
        i - 1
    } else {
        last_dot_before(name, i - 1)
    }
}

/// The extension of a file name: what follows its last dot, unless that dot
/// starts the name (a hidden file) or there is none.
pub open spec fn extension_of(name: Seq<char>) -> Option<Seq<char>> {
    let d = last_dot_before(name, name.len() as int);
    if d <= 0 {
        None
    } else {
        Some(name.subrange(d + 1, name.len() as int))
    }
}

/// The video container extensions a scan picks up.
pub open spec fn video_extensions() -> Seq<Seq<char>> {
    seq![
        "mp4"@, "mov"@, "flv"@, "mkv"@, "webm"@, "m4v"@, "avi"@, "iso"@, "wmw"@, "mpg"@,
    ]
}

pub open spec fn is_video_name(name: Seq<char>) -> bool {
    match extension_of(name) {
        Some(e) => video_extensions().contains(e),
        None => false,
    }
}

/// `.` and `..`: a directory's references to itself and its parent.
pub open spec fn is_self_ref(name: Seq<char>) -> bool {
    (name.len() == 1 && name[0] == '.') || (name.len() == 2 && name[0] == '.' && name[1] == '.')
}

/// How many levels of subdirectories a library refresh enters.
pub const REFRESH_DEPTH: usize = 4;

/// The marker file whose presence hides a directory subtree from scans.
pub open spec fn marker_name() -> Seq<char> {
    ".nomedia"@
}

pub fn nomedia_marker() -> (r: &'static str)
    ensures
        r@ == marker_name(),
{
    ".nomedia"
}

pub fn video_extension_list() -> (r: Vec<&'static str>)
    ensures
        r@.len() == video_extensions().len(),
        forall|k: int| 0 <= k < r@.len() ==> #[trigger] r@[k]@ == video_extensions()[k],
{
    let r = vec!["mp4", "mov", "flv", "mkv", "webm", "m4v", "avi", "iso", "wmw", "mpg"];
    r
}

/// Whether a file name carries one of the video container extensions.
pub fn has_video_extension(name: &str) -> (r: bool)
    ensures
        r == is_video_name(name@),
{
    let n = name.unicode_len();
    let mut i: usize = n;
    while i > 0 && name.get_char(i - 1) != '.'
        invariant
            n == name@.len(),
            i <= n,
            last_dot_before(name@, n as int) == last_dot_before(name@, i as int),
        decreases i,
    {
        i = i - 1;
    }
    if i <= 1 {
        return false;
    }
    let ext = name.substring_char(i, n);
    assert(extension_of(name@) == Some(ext@));
    let exts = video_extension_list();
    let mut k: usize = 0;
    while k < exts.len()
        invariant
            k <= exts@.len(),
            exts@.len() == video_extensions().len(),
            forall|j: int| 0 <= j < exts@.len() ==> #[trigger] exts@[j]@ == video_extensions()[j],
            forall|j: int| 0 <= j < k ==> video_extensions()[j] != ext@,
            extension_of(name@) == Some(ext@),
        decreases exts.len() - k,
    {
        if str_equal(ext, exts[k]) {
            assert(video_extensions()[k as int] == ext@);
            assert(video_extensions().contains(ext@));
            return true;
        }
        k = k + 1;
    }
    assert(!video_extensions().contains(ext@));
    false
}

/// Whether a name is `.` or `..`.
pub fn is_self_reference(name: &str) -> (r: bool)
    ensures
        r == is_self_ref(name@),
{
    let n = name.unicode_len();
    if n == 1 {
        name.get_char(0) == '.'
    } else if n == 2 {
        name.get_char(0) == '.' && name.get_char(1) == '.'
    } else {
        false
    }
}

// ---------------------------------------------------------------------------
// Listings
// ---------------------------------------------------------------------------

#[derive(Clone, Copy, Debug, PartialEq, Eq, Structural)]
pub enum EntryKind {
    File,
    Directory,
    /// Links and special files: never followed.
    Other,
}

/// One entry of a directory listing, named by its last path component.
#[derive(Clone, Debug)]
pub struct DirEntry {
    pub name: String,
    pub kind: EntryKind,
}

pub struct DirEntryView {
    pub name: Seq<char>,
    pub kind: EntryKind,
}

impl View for DirEntry {
    type V = DirEntryView;

    open spec fn view(&self) -> DirEntryView {
        DirEntryView { name: self.name@, kind: self.kind }
    }
}

pub open spec fn entry_views(es: Seq<DirEntry>) -> Seq<DirEntryView> {
    es.map_values(|e: DirEntry| e@)
}

/// A directory that still has to be listed: its path below the scan root,
/// one component per level, and how many more levels may be entered below it.
#[derive(Clone, Debug)]
pub struct PendingDir {
    pub components: Vec<String>,
    pub depth_left: usize,
}

pub struct PendingView {
    pub components: Seq<Seq<char>>,
    pub depth_left: nat,
}

impl View for PendingDir {
    type V = PendingView;

    open spec fn view(&self) -> PendingView {
        PendingView { components: views_of(self.components@), depth_left: self.depth_left as nat }
    }
}

pub open spec fn pending_views(ps: Seq<PendingDir>) -> Seq<PendingView> {
    ps.map_values(|p: PendingDir| p@)
}

/// What the backend reported for one directory.
#[derive(Clone, Debug)]
pub enum Listing {
    /// The directory holds the marker file: nothing below it is scanned.
    Marked,
    /// The directory's entries.
    Entries(Vec<DirEntry>),
    /// The directory could not be listed; the reason is kept.
    Failed(String),
    /// The library's connection slot was found empty: the scan is abandoned.
    Cancelled,
}

pub enum ListingView {
    Marked,
    Entries(Seq<DirEntryView>),
    Failed(Seq<char>),
    Cancelled,
}

impl View for Listing {
    type V = ListingView;

    open spec fn view(&self) -> ListingView {
        match self {
            Listing::Marked => ListingView::Marked,
            Listing::Entries(es) => ListingView::Entries(entry_views(es@)),
            Listing::Failed(m) => ListingView::Failed(m@),
            Listing::Cancelled => ListingView::Cancelled,
        }
    }
}

/// One result of a scan.
#[derive(Clone, Debug)]
pub enum ScanItem {
    /// A candidate media file: the directory it lies in, below the root, and its name.
    Found { dir: Vec<String>, name: String },
    /// A directory that could not be listed, with the reason.
    Failed(String),
    /// The scan was abandoned because its library was deleted.
    Cancelled,
}

pub enum ScanItemView {
    Found { dir: Seq<Seq<char>>, name: Seq<char> },
    Failed(Seq<char>),
    Cancelled,
}

impl View for ScanItem {
    type V = ScanItemView;

    open spec fn view(&self) -> ScanItemView {
        match self {
            ScanItem::Found { dir, name } => ScanItemView::Found { dir: views_of(dir@), name: name@ },
            ScanItem::Failed(m) => ScanItemView::Failed(m@),
            ScanItem::Cancelled => ScanItemView::Cancelled,
        }
    }
}

pub open spec fn item_views(items: Seq<ScanItem>) -> Seq<ScanItemView> {
    items.map_values(|i: ScanItem| i@)
}

pub open spec fn is_found(i: ScanItemView) -> bool {
    i is Found
}

/// The video files of a listing, in listing order.
pub open spec fn found_in(dir: Seq<Seq<char>>, es: Seq<DirEntryView>) -> Seq<ScanItemView>
    decreases es.len(),
{
    if es.len() == 0 {
        Seq::empty()
    } else {
        let rest = found_in(dir, es.drop_last());
        let e = es.last();
        if e.kind == EntryKind::File && is_video_name(e.name) {
            rest.push(ScanItemView::Found { dir, name: e.name })
        } else {
            rest
        }
    }
}

/// The subdirectories of a listing, each allowed `depth_left` more levels.
pub open spec fn subdirs_in(dir: Seq<Seq<char>>, depth_left: nat, es: Seq<DirEntryView>) -> Seq<
    PendingView,
>
    decreases es.len(),
{
    if es.len() == 0 {
        Seq::empty()
    } else {
        let rest = subdirs_in(dir, depth_left, es.drop_last());
        let e = es.last();
        if e.kind == EntryKind::Directory && !is_self_ref(e.name) {
            rest.push(PendingView { components: dir.push(e.name), depth_left })
        } else {
            rest
        }
    }
}

/// The directories a listing adds to the worklist: none once the depth is used up.
pub open spec fn children_of(d: PendingView, es: Seq<DirEntryView>) -> Seq<PendingView> {
    if d.depth_left == 0 {
        Seq::empty()
    } else {
        subdirs_in(d.components, (d.depth_left - 1) as nat, es)
    }
}

fn found_item(dir: &Vec<String>, name: &String) -> (r: ScanItem)
    ensures
        r@ == (ScanItemView::Found { dir: views_of(dir@), name: name@ }),
{
    ScanItem::Found { dir: clone_strings(dir), name: name.clone() }
}

fn child_dir(dir: &Vec<String>, name: &String, depth_left: usize) -> (r: PendingDir)
    ensures
        r@ == (PendingView { components: views_of(dir@).push(name@), depth_left: depth_left as nat }),
{
    let mut comps = clone_strings(dir);
    let ghost prev = comps@;
    let n = name.clone();
    comps.push(n);
    proof {
        lemma_views_of_push(prev, n);
    }
    PendingDir { components: comps, depth_left }
}

/// Sorts one directory's listing into the video files it holds and the
/// subdirectories still to be scanned.
pub fn classify_listing(dir: &PendingDir, entries: &Vec<DirEntry>) -> (r: (Vec<ScanItem>, Vec<PendingDir>))
    ensures
        item_views(r.0@) == found_in(dir@.components, entry_views(entries@)),
        pending_views(r.1@) == children_of(dir@, entry_views(entries@)),
{
    let mut files: Vec<ScanItem> = Vec::new();
    let mut subdirs: Vec<PendingDir> = Vec::new();
    let mut i: usize = 0;
    while i < entries.len()
        invariant
            i <= entries@.len(),
            item_views(files@) == found_in(dir@.components, entry_views(entries@.subrange(0, i as int))),
            pending_views(subdirs@) == children_of(dir@, entry_views(entries@.subrange(0, i as int))),
        decreases entries.len() - i,
    {
        let e = &entries[i];
        let ghost pre = entry_views(entries@.subrange(0, i as int));
        let ghost cur = entry_views(entries@.subrange(0, i + 1));
        proof {
            assert(cur =~= pre.push(e@));
            assert(cur.drop_last() =~= pre);
        }
        match e.kind {
            EntryKind::File => {
                if has_video_extension(e.name.as_str()) {
                    let item = found_item(&dir.components, &e.name);
                    files.push(item);
                    assert(item_views(files@) =~= found_in(dir@.components, pre).push(item@));
                } else {
                    assert(item_views(files@) =~= found_in(dir@.components, cur));
                }
            },
            EntryKind::Directory => {
                if !is_self_reference(e.name.as_str()) && dir.depth_left > 0 {
                    let child = child_dir(&dir.components, &e.name, dir.depth_left - 1);
                    subdirs.push(child);
                    assert(pending_views(subdirs@) =~= children_of(dir@, pre).push(child@));
                } else {
                    assert(pending_views(subdirs@) =~= pending_views(subdirs@));
                }
            },
            EntryKind::Other => {},
        }
        i = i + 1;
    }
    proof {
        assert(entries@.subrange(0, entries@.len() as int) =~= entries@);
    }
    (files, subdirs)
}

// ---------------------------------------------------------------------------
// The worklist
// ---------------------------------------------------------------------------

/// The scan of one library: directories still to list, directories handed
/// out and not yet reported on, and results not yet drained.
pub struct Scanner {
    pub library: usize,
    pub depth: usize,
    pending: Vec<PendingDir>,
    outstanding: usize,
    items: Vec<ScanItem>,
    cancelled: bool,
}

pub struct ScannerView {
    pub library: nat,
    pub depth: nat,
    pub pending: Seq<PendingView>,
    pub outstanding: nat,
    pub items: Seq<ScanItemView>,
    pub cancelled: bool,
}

impl View for Scanner {
    type V = ScannerView;

    closed spec fn view(&self) -> ScannerView {
        ScannerView {
            library: self.library as nat,
            depth: self.depth as nat,
            pending: pending_views(self.pending@),
            outstanding: self.outstanding as nat,
            items: item_views(self.items@),
            cancelled: self.cancelled,
        }
    }
}

/// The state of a scan of `library` from its root, `depth` levels deep.
pub open spec fn scan_start(library: nat, depth: nat) -> ScannerView {
    ScannerView {
        library,
        depth,
        pending: seq![PendingView { components: Seq::empty(), depth_left: depth }],
        outstanding: 0,
        items: Seq::empty(),
        cancelled: false,
    }
}

/// A directory belongs to a scan when its level below the root and the
/// levels left below it add up to the scan's depth.
pub open spec fn admits(s: ScannerView, d: PendingView) -> bool {
    d.components.len() + d.depth_left == s.depth
}

/// Handing out the next directory to list: the most recently queued one.
pub open spec fn after_request(s: ScannerView) -> ScannerView {
    if s.pending.len() == 0 || s.outstanding >= usize::MAX {
        s
    } else {
        ScannerView { pending: s.pending.drop_last(), outstanding: s.outstanding + 1, ..s }
    }
}

pub open spec fn request_of(s: ScannerView) -> Option<PendingView> {
    if s.pending.len() == 0 || s.outstanding >= usize::MAX {
        None
    } else {
        Some(s.pending.last())
    }
}

pub open spec fn one_less(n: nat) -> nat {
    if n > 0 {
        (n - 1) as nat
    } else {
        0
    }
}

/// Taking in what the backend reported for a directory of the scan. A
/// cancelled scan, or a directory that does not belong to it, changes nothing.
pub open spec fn after_delivery(s: ScannerView, d: PendingView, l: ListingView) -> ScannerView {
    if s.cancelled || !admits(s, d) {
        s
    } else {
        match l {
            ListingView::Marked => ScannerView { outstanding: one_less(s.outstanding), ..s },
            ListingView::Failed(m) => ScannerView {
                outstanding: one_less(s.outstanding),
                items: s.items.push(ScanItemView::Failed(m)),
                ..s
            },
            ListingView::Cancelled => ScannerView {
                pending: Seq::empty(),
                outstanding: 0,
                items: seq![ScanItemView::Cancelled],
                cancelled: true,
                ..s
            },
            ListingView::Entries(es) => ScannerView {
                pending: s.pending + children_of(d, es),
                outstanding: one_less(s.outstanding),
                items: s.items + found_in(d.components, es),
                ..s
            },
        }
    }
}

/// Draining one result: the most recently produced one.
pub open spec fn after_drain(s: ScannerView) -> ScannerView {
    if s.items.len() == 0 {
        s
    } else {
        ScannerView { items: s.items.drop_last(), ..s }
    }
}

pub open spec fn drained_of(s: ScannerView) -> Option<ScanItemView> {
    if s.items.len() == 0 {
        None
    } else {
        Some(s.items.last())
    }
}

pub open spec fn exhausted(s: ScannerView) -> bool {
    s.pending.len() == 0 && s.outstanding == 0 && s.items.len() == 0
}

/// No file found deeper than the scan's depth allows.
pub open spec fn found_within_depth(s: ScannerView) -> bool {
    forall|i: int|
        0 <= i < s.items.len() ==> (#[trigger] s.items[i] matches ScanItemView::Found { dir, .. }
            ==> dir.len() <= s.depth)
}

/// Nothing in the scan refers to files any more.
pub open spec fn holds_no_files(s: ScannerView) -> bool {
    forall|i: int| 0 <= i < s.items.len() ==> !is_found(#[trigger] s.items[i])
}

/// The invariant of a scan.
pub open spec fn scan_wf(s: ScannerView) -> bool {
    &&& forall|i: int| 0 <= i < s.pending.len() ==> admits(s, #[trigger] s.pending[i])
    &&& found_within_depth(s)
    &&& s.cancelled ==> s.pending.len() == 0 && s.outstanding == 0 && holds_no_files(s)
}

pub proof fn lemma_found_in_depth(dir: Seq<Seq<char>>, es: Seq<DirEntryView>)
    ensures
        forall|i: int|
            0 <= i < found_in(dir, es).len() ==> (#[trigger] found_in(dir, es)[i]) == (
            ScanItemView::Found { dir, name: found_in(dir, es)[i]->Found_name }),
    decreases es.len(),
{
    if es.len() > 0 {
        lemma_found_in_depth(dir, es.drop_last());
    }
}

pub proof fn lemma_subdirs_admitted(dir: Seq<Seq<char>>, depth_left: nat, es: Seq<DirEntryView>)
    ensures
        forall|i: int|
            0 <= i < subdirs_in(dir, depth_left, es).len() ==> {
                let p = #[trigger] subdirs_in(dir, depth_left, es)[i];
                p.components.len() == dir.len() + 1 && p.depth_left == depth_left
            },
    decreases es.len(),
{
    if es.len() > 0 {
        let rest = subdirs_in(dir, depth_left, es.drop_last());
        lemma_subdirs_admitted(dir, depth_left, es.drop_last());
        let all = subdirs_in(dir, depth_left, es);
        assert forall|i: int| 0 <= i < all.len() implies {
            let p = #[trigger] all[i];
            p.components.len() == dir.len() + 1 && p.depth_left == depth_left
        } by {
            if i < rest.len() {
                assert(all[i] == rest[i]);
            }
        }
    }
}

pub proof fn lemma_start_wf(library: nat, depth: nat)
    ensures
        scan_wf(scan_start(library, depth)),
{
    let s = scan_start(library, depth);
    assert(admits(s, s.pending[0]));
}

pub proof fn lemma_request_wf(s: ScannerView)
    requires
        scan_wf(s),
    ensures
        scan_wf(after_request(s)),
        request_of(s) matches Some(d) ==> admits(s, d),
{
    let t = after_request(s);
    if s.pending.len() > 0 && s.outstanding < usize::MAX {
        assert forall|i: int| 0 <= i < t.pending.len() implies admits(t, #[trigger] t.pending[i]) by {
            assert(t.pending[i] == s.pending[i]);
        }
        assert(admits(s, s.pending[s.pending.len() - 1]));
    }
}

pub proof fn lemma_delivery_wf(s: ScannerView, d: PendingView, l: ListingView)
    requires
        scan_wf(s),
    ensures
        scan_wf(after_delivery(s, d, l)),
{
    let t = after_delivery(s, d, l);
    if !s.cancelled && admits(s, d) {
        match l {
            ListingView::Failed(m) => {
                assert forall|i: int| 0 <= i < t.items.len() implies (#[trigger] t.items[i] matches ScanItemView::Found { dir, .. } ==> dir.len() <= t.depth) by {
                    if i < s.items.len() {
                        assert(t.items[i] == s.items[i]);
                    }
                }
            },
            ListingView::Cancelled => {
                assert(holds_no_files(t));
            },
            ListingView::Entries(es) => {
                let found = found_in(d.components, es);
                let kids = children_of(d, es);
                lemma_found_in_depth(d.components, es);
                if d.depth_left > 0 {
                    lemma_subdirs_admitted(d.components, (d.depth_left - 1) as nat, es);
                }
                assert forall|i: int| 0 <= i < t.pending.len() implies admits(t, #[trigger] t.pending[i]) by {
                    if i < s.pending.len() {
                        assert(t.pending[i] == s.pending[i]);
                    } else {
                        assert(t.pending[i] == kids[i - s.pending.len()]);
                    }
                }
                assert forall|i: int| 0 <= i < t.items.len() implies (#[trigger] t.items[i] matches ScanItemView::Found { dir, .. } ==> dir.len() <= t.depth) by {
                    if i < s.items.len() {
                        assert(t.items[i] == s.items[i]);
                    } else {
                        assert(t.items[i] == found[i - s.items.len()]);
                    }
                }
            },
            ListingView::Marked => {},
        }
    }
}

pub proof fn lemma_drain_wf(s: ScannerView)
    requires
        scan_wf(s),
    ensures
        scan_wf(after_drain(s)),
        drained_of(s) matches Some(ScanItemView::Found { dir, .. }) ==> dir.len() <= s.depth,
{
    let t = after_drain(s);
    if s.items.len() > 0 {
        assert forall|i: int| 0 <= i < t.items.len() implies (#[trigger] t.items[i] matches ScanItemView::Found { dir, .. } ==> dir.len() <= t.depth) by {
            assert(t.items[i] == s.items[i]);
        }
        assert(s.items.last() == s.items[s.items.len() - 1]);
        if s.cancelled {
            assert forall|i: int| 0 <= i < t.items.len() implies !is_found(#[trigger] t.items[i]) by {
                assert(t.items[i] == s.items[i]);
            }
        }
    }
}

pub open spec fn item_view_of(r: Option<ScanItem>) -> Option<ScanItemView> {
    match r {
        Some(i) => Some(i@),
        None => None,
    }
}

pub open spec fn pending_view_of(r: Option<PendingDir>) -> Option<PendingView> {
    match r {
        Some(d) => Some(d@),
        None => None,
    }
}

impl Scanner {
    /// A scan of `library` from its root, entering at most `depth` levels of
    /// subdirectories.
    pub fn new(library: usize, depth: usize) -> (r: Scanner)
        ensures
            r@ == scan_start(library as nat, depth as nat),
            scan_wf(r@),
    {
        let root = PendingDir { components: Vec::new(), depth_left: depth };
        let r = Scanner {
            library,
            depth,
            pending: vec![root],
            outstanding: 0,
            items: Vec::new(),
            cancelled: false,
        };
        proof {
            assert(views_of(Seq::<String>::empty()) =~= Seq::<Seq<char>>::empty());
            assert(r@.pending =~= scan_start(library as nat, depth as nat).pending);
            assert(r@.items =~= Seq::<ScanItemView>::empty());
            lemma_start_wf(library as nat, depth as nat);
        }
        r
    }

    /// The next directory to list, if any; it counts as outstanding until
    /// its listing is delivered.
    pub fn next_request(&mut self) -> (r: Option<PendingDir>)
        requires
            scan_wf(old(self)@),
        ensures
            final(self)@ == after_request(old(self)@),
            pending_view_of(r) == request_of(old(self)@),
            scan_wf(final(self)@),
    {
        proof {
            lemma_request_wf(self@);
        }
        if self.outstanding == usize::MAX {
            return None;
        }
        let ghost before = self.pending@;
        match self.pending.pop() {
            Some(d) => {
                self.outstanding = self.outstanding + 1;
                proof {
                    assert(self.pending@ == before.drop_last());
                    assert(pending_views(self.pending@) =~= pending_views(before).drop_last());
                }
                Some(d)
            },
            None => None,
        }
    }

    /// Takes in what the backend reported for `dir`. Returns whether the
    /// report was taken: a cancelled scan, or a directory outside this scan,
    /// ignores it.
    pub fn deliver(&mut self, dir: &PendingDir, listing: Listing) -> (accepted: bool)
        requires
            scan_wf(old(self)@),
        ensures
            final(self)@ == after_delivery(old(self)@, dir@, listing@),
            accepted == (!old(self)@.cancelled && admits(old(self)@, dir@)),
            scan_wf(final(self)@),
    {
        proof {
            lemma_delivery_wf(self@, dir@, listing@);
            lemma_views_of_len(dir.components@);
        }
        if self.cancelled || dir.depth_left > self.depth
            || self.depth - dir.depth_left != dir.components.len() {
            return false;
        }
        let left = if self.outstanding > 0 { self.outstanding - 1 } else { 0 };
        match listing {
            Listing::Marked => {
                self.outstanding = left;
            },
            Listing::Failed(m) => {
                self.outstanding = left;
                let ghost before = self.items@;
                self.items.push(ScanItem::Failed(m));
                proof {
                    assert(item_views(self.items@) =~= item_views(before).push(ScanItemView::Failed(m@)));
                }
            },
            Listing::Cancelled => {
                self.pending = Vec::new();
                self.outstanding = 0;
                self.items = vec![ScanItem::Cancelled];
                self.cancelled = true;
                proof {
                    assert(pending_views(self.pending@) =~= Seq::<PendingView>::empty());
                    assert(item_views(self.items@) =~= seq![ScanItemView::Cancelled]);
                }
            },
            Listing::Entries(es) => {
                let (mut files, mut subdirs) = classify_listing(dir, &es);
                let ghost p0 = self.pending@;
                let ghost i0 = self.items@;
                let ghost f0 = files@;
                let ghost s0 = subdirs@;
                self.pending.append(&mut subdirs);
                self.items.append(&mut files);
                self.outstanding = left;
                proof {
                    assert(pending_views(self.pending@) =~= pending_views(p0) + pending_views(s0));
                    assert(item_views(self.items@) =~= item_views(i0) + item_views(f0));
                }
            },
        }
        true
    }

    /// The next result of the scan, if one is ready.
    pub fn next_item(&mut self) -> (r: Option<ScanItem>)
        requires
            scan_wf(old(self)@),
        ensures
            final(self)@ == after_drain(old(self)@),
            item_view_of(r) == drained_of(old(self)@),
            scan_wf(final(self)@),
            r matches Some(ScanItem::Found { dir, .. }) ==> dir@.len() <= old(self)@.depth,
    {
        proof {
            lemma_drain_wf(self@);
        }
        let ghost before = self.items@;
        let r = self.items.pop();
        proof {
            if before.len() > 0 {
                assert(item_views(self.items@) =~= item_views(before).drop_last());
                if r is Some && r->Some_0 is Found {
                    lemma_views_of_len(r->Some_0->Found_dir@);
                }
            }
        }
        r
    }

    /// Whether the scan has nothing left to list, to wait for or to drain.
    pub fn is_exhausted(&self) -> (r: bool)
        ensures
            r == exhausted(self@),
    {
        self.pending.len() == 0 && self.outstanding == 0 && self.items.len() == 0
    }

    /// Bounds on the number of results still to come: at least those ready,
    /// and exactly those once nothing is left to list or wait for.
    pub fn size_hint(&self) -> (r: (usize, Option<usize>))
        ensures
            r.0 == self@.items.len(),
            r.1 == if self@.pending.len() == 0 && self@.outstanding == 0 {
                Some(self@.items.len() as usize)
            } else {
                None::<usize>
            },
    {
        let ready = self.items.len();
        if self.pending.len() == 0 && self.outstanding == 0 {
            (ready, Some(ready))
        } else {
            (ready, None)
        }
    }

    /// Whether the scan was abandoned because its library went away.
    pub fn is_cancelled(&self) -> (r: bool)
        ensures
            r == self@.cancelled,
    {
        self.cancelled
    }
}

// ---------------------------------------------------------------------------
// Runs of a scan
// ---------------------------------------------------------------------------

/// One thing that can happen to a scan.
pub enum ScanStep {
    Request,
    Deliver(PendingView, ListingView),
    Drain,
}

pub open spec fn scan_step(s: ScannerView, step: ScanStep) -> ScannerView {
    match step {
        ScanStep::Request => after_request(s),
        ScanStep::Deliver(d, l) => after_delivery(s, d, l),
        ScanStep::Drain => after_drain(s),
    }
}

/// The state after a sequence of steps.
pub open spec fn scan_run(s: ScannerView, steps: Seq<ScanStep>) -> ScannerView
    decreases steps.len(),
{
    if steps.len() == 0 {
        s
    } else {
        scan_step(scan_run(s, steps.drop_last()), steps.last())
    }
}

pub proof fn lemma_run_wf(s: ScannerView, steps: Seq<ScanStep>)
    requires
        scan_wf(s),
    ensures
        scan_wf(scan_run(s, steps)),
        scan_run(s, steps).depth == s.depth,
        scan_run(s, steps).library == s.library,
    decreases steps.len(),
{
    if steps.len() > 0 {
        lemma_run_wf(s, steps.drop_last());
        let t = scan_run(s, steps.drop_last());
        match steps.last() {
            ScanStep::Request => lemma_request_wf(t),
            ScanStep::Deliver(d, l) => lemma_delivery_wf(t, d, l),
            ScanStep::Drain => lemma_drain_wf(t),
        }
    }
}

/// Whatever happens to a scan of depth `depth`, every file it yields lies
/// in a directory at most `depth` levels below the root; with depth 0, only
/// files directly in the root are yielded.
pub proof fn law_scan_depth_bound(library: nat, depth: nat, steps: Seq<ScanStep>)
    ensures
        scan_wf(scan_run(scan_start(library, depth), steps)),
        drained_of(scan_run(scan_start(library, depth), steps)) matches Some(
            ScanItemView::Found { dir, .. },
        ) ==> dir.len() <= depth,
        depth == 0 ==> (drained_of(scan_run(scan_start(library, depth), steps)) matches Some(
            ScanItemView::Found { dir, .. },
        ) ==> dir.len() == 0),
{
    lemma_start_wf(library, depth);
    lemma_run_wf(scan_start(library, depth), steps);
    lemma_drain_wf(scan_run(scan_start(library, depth), steps));
}

/// When the root of a scan holds the marker file, the scan ends with no
/// result at all, whatever its depth: nothing is left to list, to wait for
/// or to yield.
pub proof fn law_marked_root_yields_nothing(library: nat, depth: nat)
    ensures
        ({
            let s0 = scan_start(library, depth);
            let root = request_of(s0);
            &&& root == Some(PendingView { components: Seq::empty(), depth_left: depth })
            &&& exhausted(after_delivery(after_request(s0), root->Some_0, ListingView::Marked))
            &&& request_of(after_delivery(after_request(s0), root->Some_0, ListingView::Marked))
                is None
            &&& drained_of(after_delivery(after_request(s0), root->Some_0, ListingView::Marked))
                is None
        }),
{
    let s0 = scan_start(library, depth);
    assert(s0.pending.drop_last() =~= Seq::<PendingView>::empty());
}

/// A cancelled scan stays over: once the library's slot is reported empty,
/// no later step queues a directory or yields a file.
pub proof fn lemma_cancelled_stays_empty(s: ScannerView, steps: Seq<ScanStep>)
    requires
        scan_wf(s),
        s.cancelled,
    ensures
        scan_run(s, steps).cancelled,
        scan_run(s, steps).pending.len() == 0,
        holds_no_files(scan_run(s, steps)),
    decreases steps.len(),
{
    lemma_run_wf(s, steps);
    if steps.len() > 0 {
        lemma_cancelled_stays_empty(s, steps.drop_last());
    }
}

/// Deleting a library while its scan is in flight ends the scan: the report
/// of the empty slot leaves a single cancellation notice and no file, and
/// whatever happens afterwards, the scan never queues a directory or yields
/// a file of that library again.
pub proof fn law_deleted_library_ends_scan(
    s: ScannerView,
    d: PendingView,
    steps: Seq<ScanStep>,
)
    requires
        scan_wf(s),
        !s.cancelled,
        admits(s, d),
    ensures
        after_delivery(s, d, ListingView::Cancelled).items == seq![ScanItemView::Cancelled],
        scan_run(after_delivery(s, d, ListingView::Cancelled), steps).pending.len() == 0,
        holds_no_files(scan_run(after_delivery(s, d, ListingView::Cancelled), steps)),
        drained_of(scan_run(after_delivery(s, d, ListingView::Cancelled), steps)) matches Some(i)
            ==> !is_found(i),
{
    let t = after_delivery(s, d, ListingView::Cancelled);
    lemma_delivery_wf(s, d, ListingView::Cancelled);
    lemma_cancelled_stays_empty(t, steps);
    let u = scan_run(t, steps);
    if u.items.len() > 0 {
        assert(u.items.last() == u.items[u.items.len() - 1]);
    }
}

} // verus!
