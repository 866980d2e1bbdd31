//! The download queue: which downloads exist, where each stands, and which one
//! runs next. Transfers happen outside; every decision about a download's state
//! is taken here.

use vstd::prelude::*;
use crate::models::{DownloadStatus, EpisodeInfo};
use crate::outside::new_download_id;
use crate::text::{append, decimal2, lemma_lex_antisym, lemma_lex_total, lemma_lex_trans, lex_le, lex_le_exec, own, push_decimal2, str_eq, chars_of};
use crate::models::{copy_opt, DownloadRequest};

verus! {

/// How far a download has got, as far as the queue decides it: at the start,
/// somewhere in the transfer (the transfer reports the figure), or done.
#[derive(Debug, Clone, Copy, PartialEq, Eq, Structural)]
pub enum Progress {
    Start,
    Running,
    Done,
}

/// One download as the queue records it.
#[derive(Debug, Clone)]
pub struct QueueItem {
    pub id: String,
    pub anime_title: String,
    pub episode_label: String,
    pub episode: EpisodeInfo,
    pub status: DownloadStatus,
    pub progress: Progress,
    pub speed: String,
    pub output_path: Option<String>,
    pub error: Option<String>,
    pub updated_at: u64,
}

/// A download with the two requests that can be pending on it.
#[derive(Debug, Clone)]
pub struct QueueEntry {
    pub item: QueueItem,
    pub cancelled: bool,
    pub paused: bool,
}

/// The downloads, in the order they were added, and the number that may run at once.
pub struct DownloadManager {
    entries: Vec<QueueEntry>,
    max_concurrent: u32,
}

/// No two entries share an id.
pub open spec fn unique_ids(s: Seq<QueueEntry>) -> bool {
    forall|i: int, j: int|
        0 <= i < s.len() && 0 <= j < s.len() && i != j ==> #[trigger] s[i].item.id@
            != #[trigger] s[j].item.id@
}

/// Some entry has the id `id`.
pub open spec fn has_id(s: Seq<QueueEntry>, id: Seq<char>) -> bool {
    exists|i: int| 0 <= i < s.len() && #[trigger] s[i].item.id@ == id
}

/// The position of the entry with id `id` (meaningful when `has_id`).
pub open spec fn index_of(s: Seq<QueueEntry>, id: Seq<char>) -> int {
    choose|i: int| 0 <= i < s.len() && #[trigger] s[i].item.id@ == id
}

/// `b` is `a` with at most the entry at `i` changed.
pub open spec fn only_at(a: Seq<QueueEntry>, b: Seq<QueueEntry>, i: int) -> bool {
    &&& a.len() == b.len()
    &&& forall|j: int| 0 <= j < a.len() && j != i ==> #[trigger] b[j] == a[j]
}

/// Whether a download in this state can be cancelled.
pub open spec fn cancellable(st: DownloadStatus) -> bool {
    st == DownloadStatus::Downloading || st == DownloadStatus::Queued || st == DownloadStatus::Paused
}

/// Whether a download in this state can be paused.
pub open spec fn pausable(st: DownloadStatus) -> bool {
    st == DownloadStatus::Downloading || st == DownloadStatus::Queued
}

/// Whether a download in this state can be tried again.
pub open spec fn retryable(st: DownloadStatus) -> bool {
    st == DownloadStatus::Failed || st == DownloadStatus::Cancelled
}

/// A download that the worker may start: queued, with no cancel or pause pending.
pub open spec fn runnable(e: QueueEntry) -> bool {
    e.item.status == DownloadStatus::Queued && !e.cancelled && !e.paused
}

/// `b` is `a` cancelled at time `now`.
pub open spec fn cancelled_from(a: QueueEntry, b: QueueEntry, now: u64) -> bool {
    b == QueueEntry {
        item: QueueItem { status: DownloadStatus::Cancelled, updated_at: now, ..a.item },
        cancelled: true,
        paused: false,
    }
}

/// `b` is `a` paused at time `now`.
pub open spec fn paused_from(a: QueueEntry, b: QueueEntry, now: u64) -> bool {
    &&& b.item.speed@ == Seq::<char>::empty()
    &&& b == QueueEntry {
        item: QueueItem {
            status: DownloadStatus::Paused,
            speed: b.item.speed,
            updated_at: now,
            ..a.item
        },
        paused: true,
        ..a
    }
}

/// `b` is `a` put back in the queue at time `now`, with its result cleared and
/// no request pending.
pub open spec fn requeued_from(a: QueueEntry, b: QueueEntry, now: u64) -> bool {
    &&& b.item.speed@ == Seq::<char>::empty()
    &&& b == QueueEntry {
        item: QueueItem {
            status: DownloadStatus::Queued,
            progress: Progress::Start,
            error: None,
            output_path: None,
            speed: b.item.speed,
            updated_at: now,
            ..a.item
        },
        cancelled: false,
        paused: false,
    }
}

impl View for DownloadManager {
    type V = Seq<QueueEntry>;

    closed spec fn view(&self) -> Seq<QueueEntry> {
        self.entries@
    }
}

/// `n` brought into the range the queue accepts, 1 to 10.
pub open spec fn clamp_limit(n: u32) -> u32 {
    if n < 1 {
        1
    } else if n > 10 {
        10
    } else {
        n
    }
}

pub proof fn lemma_index_of(s: Seq<QueueEntry>, i: int)
    requires
        unique_ids(s),
        0 <= i < s.len(),
    ensures
        has_id(s, s[i].item.id@),
        index_of(s, s[i].item.id@) == i,
{
    let id = s[i].item.id@;
    assert(s[i].item.id@ == id);
    let j = index_of(s, id);
    assert(s[j].item.id@ == id);
}

/// Replacing an entry by one with the same id keeps ids unique.
pub proof fn lemma_update_unique(s: Seq<QueueEntry>, i: int, e: QueueEntry)
    requires
        unique_ids(s),
        0 <= i < s.len(),
        e.item.id@ == s[i].item.id@,
    ensures
        unique_ids(s.update(i, e)),
{
    let t = s.update(i, e);
    assert forall|a: int, b: int|
        0 <= a < t.len() && 0 <= b < t.len() && a != b implies #[trigger] t[a].item.id@
        != #[trigger] t[b].item.id@ by {
        assert(s[a].item.id@ != s[b].item.id@);
    }
}

/// A change that the worker makes to one download as its transfer goes on.
#[derive(Debug, Clone)]
pub enum ItemUpdate {
    /// The transfer begins: the stream is being resolved.
    Begin,
    /// The file at the given path is complete.
    Complete(String),
    /// The transfer failed with the given message.
    Fail(String),
    /// A new status line.
    Speed(String),
    /// The transfer moved on; a new status line.
    Progress(String),
}

/// The status line shown while a stream is resolved.
pub open spec fn resolving_label() -> Seq<char> {
    "Resolvendo link do vídeo..."@
}

/// `b` is `a` after `u` at time `now`.
pub open spec fn applied(a: QueueEntry, b: QueueEntry, u: ItemUpdate, now: u64) -> bool {
    match u {
        ItemUpdate::Begin => {
            &&& b.item.speed@ == resolving_label()
            &&& b == QueueEntry {
                item: QueueItem {
                    status: DownloadStatus::Downloading,
                    progress: Progress::Start,
                    speed: b.item.speed,
                    updated_at: now,
                    ..a.item
                },
                ..a
            }
        },
        ItemUpdate::Complete(path) => b == QueueEntry {
            item: QueueItem {
                status: DownloadStatus::Completed,
                progress: Progress::Done,
                output_path: Some(path),
                updated_at: now,
                ..a.item
            },
            ..a
        },
        ItemUpdate::Fail(msg) => b == QueueEntry {
            item: QueueItem { status: DownloadStatus::Failed, error: Some(msg), updated_at: now, ..a.item },
            ..a
        },
        ItemUpdate::Speed(line) => b == QueueEntry {
            item: QueueItem { speed: line, updated_at: now, ..a.item },
            ..a
        },
        ItemUpdate::Progress(line) => b == QueueEntry {
            item: QueueItem { progress: Progress::Running, speed: line, updated_at: now, ..a.item },
            ..a
        },
    }
}

/// What a stopped transfer leaves: paused when only a pause is pending,
/// cancelled when a cancel is, and unchanged (`None`) otherwise.
pub open spec fn stopped_from(a: QueueEntry, b: QueueEntry, now: u64) -> bool {
    if a.paused && !a.cancelled {
        &&& b.item.speed@ == Seq::<char>::empty()
        &&& b == QueueEntry {
            item: QueueItem {
                status: DownloadStatus::Paused,
                progress: Progress::Start,
                speed: b.item.speed,
                updated_at: now,
                ..a.item
            },
            ..a
        }
    } else {
        &&& b.item.speed@ == Seq::<char>::empty()
        &&& b == QueueEntry {
            item: QueueItem {
                status: DownloadStatus::Cancelled,
                speed: b.item.speed,
                updated_at: now,
                ..a.item
            },
            ..a
        }
    }
}

/// A cancel pending on a download survives the stop of its transfer: the
/// stopped download is cancelled, whatever else was pending; with only a pause
/// pending it is paused instead.
pub proof fn law_stop_honours_requests(a: QueueEntry, b: QueueEntry, now: u64)
    requires
        stopped_from(a, b, now),
    ensures
        a.cancelled ==> b.item.status == DownloadStatus::Cancelled && b.cancelled,
        a.paused && !a.cancelled ==> b.item.status == DownloadStatus::Paused,
        b.item.id == a.item.id,
{
}

/// Cancelling a download and then stopping its transfer leaves it cancelled.
pub proof fn law_cancel_then_stop(a: QueueEntry, b: QueueEntry, c: QueueEntry, t1: u64, t2: u64)
    requires
        cancelled_from(a, b, t1),
        stopped_from(b, c, t2),
    ensures
        c.item.status == DownloadStatus::Cancelled,
        c.cancelled,
{
}

/// The label of an episode in the queue: `S01E02 - Title`.
pub open spec fn episode_label(ep: EpisodeInfo) -> Seq<char> {
    "S"@ + decimal2(ep.season as nat) + "E"@ + decimal2(ep.number as nat) + " - "@ + ep.title@
}

/// `e` is a new download `id` of `ep` of the anime `title`, queued at `now`.
pub open spec fn fresh_entry(e: QueueEntry, id: Seq<char>, title: Seq<char>, ep: EpisodeInfo, now: u64) -> bool {
    &&& e.item.id@ == id
    &&& e.item.anime_title@ == title
    &&& e.item.episode_label@ == episode_label(ep)
    &&& e.item.episode == ep
    &&& e.item.status == DownloadStatus::Queued
    &&& e.item.progress == Progress::Start
    &&& e.item.speed@ == Seq::<char>::empty()
    &&& e.item.output_path is None
    &&& e.item.error is None
    &&& e.item.updated_at == now
    &&& !e.cancelled
    &&& !e.paused
}

/// Every id that none of the first `k` of `ids` names has the same entry, or
/// none, in `b` as in `a`.
pub open spec fn kept_outside(a: Seq<QueueEntry>, b: Seq<QueueEntry>, ids: Seq<String>, k: int) -> bool {
    forall|id: Seq<char>|
        (forall|j: int| 0 <= j < k ==> ids[j]@ != id) ==> (#[trigger] has_id(b, id) == has_id(a, id)
            && (has_id(a, id) ==> b[index_of(b, id)] == a[index_of(a, id)]))
}

/// `s` with `e` in place of the entry of the same id, or added at the end.
pub open spec fn upsert(s: Seq<QueueEntry>, e: QueueEntry) -> Seq<QueueEntry> {
    if has_id(s, e.item.id@) {
        s.update(index_of(s, e.item.id@), e)
    } else {
        s.push(e)
    }
}

/// Putting `e` in keeps ids unique, adds its id, and leaves every other id's
/// entry as it was.
pub proof fn lemma_upsert(s: Seq<QueueEntry>, e: QueueEntry)
    requires
        unique_ids(s),
    ensures
        unique_ids(upsert(s, e)),
        has_id(upsert(s, e), e.item.id@),
        upsert(s, e)[index_of(upsert(s, e), e.item.id@)] == e,
        forall|id: Seq<char>| id != e.item.id@ ==> (has_id(upsert(s, e), id) == has_id(s, id)),
        forall|id: Seq<char>|
            id != e.item.id@ && has_id(s, id) ==> upsert(s, e)[index_of(upsert(s, e), id)] == s[index_of(s, id)],
{
    let t = upsert(s, e);
    let n = t.len() - 1;
    if has_id(s, e.item.id@) {
        let i = index_of(s, e.item.id@);
        lemma_update_unique(s, i, e);
        lemma_index_of(t, i);
    } else {
        assert forall|a: int, b: int|
            0 <= a < t.len() && 0 <= b < t.len() && a != b implies #[trigger] t[a].item.id@
            != #[trigger] t[b].item.id@ by {
            if a < s.len() && b < s.len() {
                assert(s[a].item.id@ != s[b].item.id@);
            } else if a < s.len() {
                assert(s[a].item.id@ != e.item.id@);
            } else if b < s.len() {
                assert(s[b].item.id@ != e.item.id@);
            }
        }
        lemma_index_of(t, n);
    }
    assert forall|id: Seq<char>| id != e.item.id@ implies (has_id(t, id) == has_id(s, id)) by {
        if has_id(s, id) {
            let j = index_of(s, id);
            assert(t[j].item.id@ == id);
        }
        if has_id(t, id) {
            let j = index_of(t, id);
            assert(s[j].item.id@ == id);
        }
    }
    assert forall|id: Seq<char>| id != e.item.id@ && has_id(s, id) implies t[index_of(t, id)] == s[index_of(s, id)] by {
        let j = index_of(s, id);
        assert(t[j].item.id@ == id);
        lemma_index_of(t, j);
    }
}

/// What can be done to every download of one anime at once.
#[derive(Debug, Clone, Copy, PartialEq, Eq, Structural)]
pub enum TitleAction {
    Pause,
    Resume,
    Cancel,
}

/// Whether `act` applies to a download in state `st`.
pub open spec fn acts_on(act: TitleAction, st: DownloadStatus) -> bool {
    match act {
        TitleAction::Pause => pausable(st),
        TitleAction::Resume => st == DownloadStatus::Paused,
        TitleAction::Cancel => cancellable(st),
    }
}

/// `b` is `a` after `act` at time `now`.
pub open spec fn acted(act: TitleAction, a: QueueEntry, b: QueueEntry, now: u64) -> bool {
    match act {
        TitleAction::Pause => paused_from(a, b, now),
        TitleAction::Resume => requeued_from(a, b, now),
        TitleAction::Cancel => cancelled_from(a, b, now),
    }
}

/// Whether `act` applies to entry `e` of the anime `title`.
pub open spec fn selected(e: QueueEntry, title: Seq<char>, act: TitleAction) -> bool {
    e.item.anime_title@ == title && acts_on(act, e.item.status)
}

/// The entries among the first `n` of `s` to which `act` on `title` applies.
pub open spec fn title_count(s: Seq<QueueEntry>, title: Seq<char>, act: TitleAction, n: int) -> nat
    decreases n,
{
    if n <= 0 {
        0
    } else {
        title_count(s, title, act, n - 1) + if selected(s[n - 1], title, act) {
            1nat
        } else {
            0nat
        }
    }
}

/// At most `n` entries are counted among the first `n`.
pub proof fn lemma_title_count_le(s: Seq<QueueEntry>, title: Seq<char>, act: TitleAction, n: int)
    ensures
        title_count(s, title, act, n) <= if n < 0 { 0 } else { n },
    decreases n,
{
    if n > 0 {
        lemma_title_count_le(s, title, act, n - 1);
    }
}

/// `b` is `a` with `act` done to every entry of the anime `title` that it
/// applies to, and every other entry unchanged.
pub open spec fn applied_to_title(
    a: Seq<QueueEntry>,
    b: Seq<QueueEntry>,
    title: Seq<char>,
    act: TitleAction,
    now: u64,
) -> bool {
    &&& a.len() == b.len()
    &&& forall|i: int|
        0 <= i < a.len() ==> if selected(a[i], title, act) {
            acted(act, a[i], #[trigger] b[i], now)
        } else {
            b[i] == a[i]
        }
}

/// The message left on a download that was running when the app closed.
pub open spec fn interrupted_message() -> Seq<char> {
    "Download interrompido ao fechar o app"@
}

/// The message left on a finished download whose file is gone.
pub open spec fn missing_file_message() -> Seq<char> {
    "Arquivo não encontrado no disco"@
}

/// `b` is the saved download `a` as the queue takes it back at start-up:
/// what was queued or running failed, and a finished download whose file is
/// no longer on disk (`on_disk` false) failed too; a paused one stays paused.
pub open spec fn restored_from(a: QueueItem, b: QueueItem, on_disk: bool) -> bool {
    if a.status == DownloadStatus::Paused {
        b == a
    } else if a.status == DownloadStatus::Downloading || a.status == DownloadStatus::Queued {
        &&& b.speed@ == Seq::<char>::empty()
        &&& b.error matches Some(m) && m@ == interrupted_message()
        &&& b == QueueItem {
            status: DownloadStatus::Failed,
            progress: Progress::Start,
            error: b.error,
            speed: b.speed,
            ..a
        }
    } else if a.status == DownloadStatus::Completed && a.output_path is Some && !on_disk {
        &&& b.error matches Some(m) && m@ == missing_file_message()
        &&& b == QueueItem { status: DownloadStatus::Failed, error: b.error, output_path: None, ..a }
    } else {
        b == a
    }
}

/// `s` with `item` in place of the item of the same id (its pending requests
/// kept), or added at the end with none pending.
pub open spec fn put(s: Seq<QueueEntry>, item: QueueItem) -> Seq<QueueEntry> {
    if has_id(s, item.id@) {
        s.update(index_of(s, item.id@), QueueEntry { item, ..s[index_of(s, item.id@)] })
    } else {
        s.push(QueueEntry { item, cancelled: false, paused: false })
    }
}

/// The order of the download list: most recently updated first, then by
/// anime title, season and episode.
pub open spec fn list_le(a: QueueItem, b: QueueItem) -> bool {
    if a.updated_at != b.updated_at {
        a.updated_at > b.updated_at
    } else if a.anime_title@ != b.anime_title@ {
        lex_le(a.anime_title@, b.anime_title@)
    } else if a.episode.season != b.episode.season {
        a.episode.season < b.episode.season
    } else {
        a.episode.number <= b.episode.number
    }
}

/// The list order is total.
pub proof fn lemma_list_total(a: QueueItem, b: QueueItem)
    ensures
        list_le(a, b) || list_le(b, a),
{
    lemma_lex_total(a.anime_title@, b.anime_title@);
}

/// The list order is transitive.
pub proof fn lemma_list_trans(a: QueueItem, b: QueueItem, c: QueueItem)
    requires
        list_le(a, b),
        list_le(b, c),
    ensures
        list_le(a, c),
{
    if a.updated_at == b.updated_at && b.updated_at == c.updated_at {
        if a.anime_title@ != b.anime_title@ && b.anime_title@ != c.anime_title@ {
            lemma_lex_trans(a.anime_title@, b.anime_title@, c.anime_title@);
            if a.anime_title@ == c.anime_title@ {
                lemma_lex_antisym(a.anime_title@, b.anime_title@);
            }
        }
    }
}

/// `dst` lists the items of `src` in list order: `dst[k]` is the item of
/// `src[p[k]]` for a permutation `p`.
pub open spec fn listed(src: Seq<QueueEntry>, dst: Seq<QueueItem>) -> bool {
    exists|p: Seq<int>|
        {
            &&& p.len() == src.len()
            &&& dst.len() == src.len()
            &&& forall|k: int| 0 <= k < p.len() ==> 0 <= #[trigger] p[k] < src.len()
            &&& forall|k: int| 0 <= k < p.len() ==> #[trigger] dst[k] == src[p[k]].item
            &&& forall|k: int, l: int| 0 <= k < l < p.len() ==> p[k] != p[l]
            &&& forall|k: int, l: int| 0 <= k < l < dst.len() ==> list_le(dst[k], dst[l])
        }
}

impl QueueItem {
    /// A copy of this item.
    pub fn copied(&self) -> (r: Self)
        ensures
            r == *self,
    {
        QueueItem {
            id: self.id.clone(),
            anime_title: self.anime_title.clone(),
            episode_label: self.episode_label.clone(),
            episode: self.episode.copied(),
            status: self.status,
            progress: self.progress,
            speed: self.speed.clone(),
            output_path: copy_opt(&self.output_path),
            error: copy_opt(&self.error),
            updated_at: self.updated_at,
        }
    }
}

/// Whether `a` comes before or level with `b` in the list.
fn list_precedes(a: &QueueItem, a_title: &Vec<char>, b: &QueueItem, b_title: &Vec<char>) -> (r: bool)
    requires
        a_title@ == a.anime_title@,
        b_title@ == b.anime_title@,
    ensures
        r == list_le(*a, *b),
{
    if a.updated_at != b.updated_at {
        a.updated_at > b.updated_at
    } else if !str_eq(a.anime_title.as_str(), b.anime_title.as_str()) {
        lex_le_exec(a_title, b_title)
    } else if a.episode.season != b.episode.season {
        a.episode.season < b.episode.season
    } else {
        a.episode.number <= b.episode.number
    }
}

/// The saved download `item` as the queue takes it back at start-up;
/// `on_disk` tells whether its output file still exists.
pub fn restored(item: QueueItem, on_disk: bool) -> (r: QueueItem)
    ensures
        restored_from(item, r, on_disk),
{
    let mut it = item;
    if it.status == DownloadStatus::Paused {
        return it;
    }
    if it.status == DownloadStatus::Downloading || it.status == DownloadStatus::Queued {
        it.status = DownloadStatus::Failed;
        it.error = Some(own("Download interrompido ao fechar o app"));
        it.progress = Progress::Start;
        it.speed = String::new();
        return it;
    }
    if it.status == DownloadStatus::Completed && it.output_path.is_some() && !on_disk {
        it.status = DownloadStatus::Failed;
        it.error = Some(own("Arquivo não encontrado no disco"));
        it.output_path = None;
    }
    it
}

impl DownloadManager {
    /// The number of downloads that may run at once.
    pub closed spec fn limit(&self) -> u32 {
        self.max_concurrent
    }

    /// The queue's invariant: ids are unique and the limit is between 1 and 10.
    pub open spec fn wf(&self) -> bool {
        &&& unique_ids(self@)
        &&& 1 <= self.limit() <= 10
    }

    /// An empty queue running at most three downloads at once.
    pub fn new() -> (r: Self)
        ensures
            r.wf(),
            r@ == Seq::<QueueEntry>::empty(),
            r.limit() == 3,
    {
        DownloadManager { entries: Vec::new(), max_concurrent: 3 }
    }

    /// The number of downloads that may run at once.
    pub fn max_concurrent(&self) -> (r: u32)
        ensures
            r == self.limit(),
    {
        self.max_concurrent
    }

    /// The number of downloads.
    pub fn len(&self) -> (r: usize)
        ensures
            r == self@.len(),
    {
        self.entries.len()
    }

    /// The download at position `i`.
    pub fn entry(&self, i: usize) -> (r: &QueueEntry)
        requires
            i < self@.len(),
        ensures
            *r == self@[i as int],
    {
        &self.entries[i]
    }

    /// Sets the limit to `max` brought into 1..=10, and gives how many more
    /// downloads may now run than before (0 when the limit went down).
    pub fn set_max_concurrent(&mut self, max: u32) -> (added: u32)
        requires
            old(self).wf(),
        ensures
            final(self).wf(),
            final(self)@ == old(self)@,
            final(self).limit() == clamp_limit(max),
            added == if clamp_limit(max) > old(self).limit() {
                (clamp_limit(max) - old(self).limit()) as u32
            } else {
                0u32
            },
    {
        let m: u32 = if max < 1 {
            1
        } else if max > 10 {
            10
        } else {
            max
        };
        let previous = self.max_concurrent;
        self.max_concurrent = m;
        if m > previous {
            m - previous
        } else {
            0
        }
    }

    /// The position of the download with id `id`.
    pub fn find(&self, id: &str) -> (r: Option<usize>)
        requires
            self.wf(),
        ensures
            r is Some <==> has_id(self@, id@),
            r matches Some(i) ==> i < self@.len() && i == index_of(self@, id@)
                && self@[i as int].item.id@ == id@,
    {
        let mut i: usize = 0;
        while i < self.entries.len()
            invariant
                self.wf(),
                i <= self.entries@.len(),
                forall|k: int| 0 <= k < i ==> #[trigger] self.entries@[k].item.id@ != id@,
            decreases self.entries@.len() - i,
        {
            if str_eq(self.entries[i].item.id.as_str(), id) {
                proof {
                    lemma_index_of(self@, i as int);
                }
                return Some(i);
            }
            i += 1;
        }
        None
    }

    /// Pauses the download `id` when it is queued or running; gives its
    /// position when it changed.
    pub fn pause(&mut self, id: &str, now: u64) -> (r: Option<usize>)
        requires
            old(self).wf(),
        ensures
            final(self).wf(),
            final(self).limit() == old(self).limit(),
            r is Some <==> has_id(old(self)@, id@) && pausable(
                old(self)@[index_of(old(self)@, id@)].item.status,
            ),
            r matches Some(i) ==> i == index_of(old(self)@, id@) && only_at(
                old(self)@,
                final(self)@,
                i as int,
            ) && paused_from(old(self)@[i as int], final(self)@[i as int], now),
            r is None ==> final(self)@ == old(self)@,
    {
        match self.find(id) {
            None => None,
            Some(i) => {
                let st = self.entries[i].item.status;
                if st == DownloadStatus::Downloading || st == DownloadStatus::Queued {
                    self.pause_at(i, now);
                    Some(i)
                } else {
                    None
                }
            },
        }
    }

    /// Puts entry `i` back in the queue: no request pending, result cleared.
    fn requeue_at(&mut self, i: usize, now: u64)
        requires
            old(self).wf(),
            i < old(self)@.len(),
        ensures
            final(self).wf(),
            final(self).limit() == old(self).limit(),
            only_at(old(self)@, final(self)@, i as int),
            requeued_from(old(self)@[i as int], final(self)@[i as int], now),
    {
        let ghost before = self@;
        let e = &mut self.entries[i];
        e.paused = false;
        e.cancelled = false;
        e.item.status = DownloadStatus::Queued;
        e.item.progress = Progress::Start;
        e.item.error = None;
        e.item.output_path = None;
        e.item.speed = String::new();
        e.item.updated_at = now;
        proof {
            lemma_update_unique(before, i as int, self@[i as int]);
        }
    }

    /// Resumes the paused download `id`: it goes back in the queue from the start.
    pub fn resume(&mut self, id: &str, now: u64) -> (r: Result<usize, String>)
        requires
            old(self).wf(),
        ensures
            final(self).wf(),
            final(self).limit() == old(self).limit(),
            r is Ok <==> has_id(old(self)@, id@) && old(self)@[index_of(
                old(self)@,
                id@,
            )].item.status == DownloadStatus::Paused,
            r matches Ok(i) ==> i == index_of(old(self)@, id@) && only_at(
                old(self)@,
                final(self)@,
                i as int,
            ) && requeued_from(old(self)@[i as int], final(self)@[i as int], now),
            r matches Err(msg) ==> final(self)@ == old(self)@ && msg@ == if !has_id(
                old(self)@,
                id@,
            ) {
                "Download não encontrado"@
            } else {
                "Só é possível retomar downloads pausados"@
            },
    {
        match self.find(id) {
            None => Err(own("Download não encontrado")),
            Some(i) => {
                if self.entries[i].item.status != DownloadStatus::Paused {
                    return Err(own("Só é possível retomar downloads pausados"));
                }
                self.requeue_at(i, now);
                Ok(i)
            },
        }
    }

    /// Tries the failed or cancelled download `id` again, after setting the
    /// limit from `max_concurrent` as every new request does.
    pub fn retry(&mut self, id: &str, max_concurrent: u32, now: u64) -> (r: Result<usize, String>)
        requires
            old(self).wf(),
        ensures
            final(self).wf(),
            final(self).limit() == clamp_limit(max_concurrent),
            r is Ok <==> has_id(old(self)@, id@) && retryable(
                old(self)@[index_of(old(self)@, id@)].item.status,
            ),
            r matches Ok(i) ==> i == index_of(old(self)@, id@) && only_at(
                old(self)@,
                final(self)@,
                i as int,
            ) && requeued_from(old(self)@[i as int], final(self)@[i as int], now),
            r matches Err(msg) ==> final(self)@ == old(self)@ && msg@ == if !has_id(
                old(self)@,
                id@,
            ) {
                "Download não encontrado"@
            } else {
                "Só é possível tentar novamente downloads com falha ou cancelados"@
            },
    {
        self.set_max_concurrent(max_concurrent);
        match self.find(id) {
            None => Err(own("Download não encontrado")),
            Some(i) => {
                let st = self.entries[i].item.status;
                if st != DownloadStatus::Failed && st != DownloadStatus::Cancelled {
                    return Err(
                        own("Só é possível tentar novamente downloads com falha ou cancelados"),
                    );
                }
                self.requeue_at(i, now);
                Ok(i)
            },
        }
    }

    /// Removes the download `id`; tells whether there was one.
    pub fn delete(&mut self, id: &str) -> (r: bool)
        requires
            old(self).wf(),
        ensures
            final(self).wf(),
            final(self).limit() == old(self).limit(),
            r == has_id(old(self)@, id@),
            r ==> final(self)@ == old(self)@.remove(index_of(old(self)@, id@)),
            !r ==> final(self)@ == old(self)@,
    {
        match self.find(id) {
            None => false,
            Some(i) => {
                let ghost before = self@;
                self.entries.remove(i);
                proof {
                    let t = self@;
                    assert(t == before.remove(i as int));
                    assert forall|a: int, b: int|
                        0 <= a < t.len() && 0 <= b < t.len() && a != b implies #[trigger] t[a].item.id@
                        != #[trigger] t[b].item.id@ by {
                        let a0 = if a < i { a } else { a + 1 };
                        let b0 = if b < i { b } else { b + 1 };
                        assert(t[a] == before[a0]);
                        assert(t[b] == before[b0]);
                        assert(before[a0].item.id@ != before[b0].item.id@);
                    }
                }
                true
            },
        }
    }

    /// Applies `u` to the download `id`, stamping it with `now`; gives its
    /// position, or `None` when there is no such download.
    pub fn update_item(&mut self, id: &str, u: ItemUpdate, now: u64) -> (r: Option<usize>)
        requires
            old(self).wf(),
        ensures
            final(self).wf(),
            final(self).limit() == old(self).limit(),
            r is Some <==> has_id(old(self)@, id@),
            r matches Some(i) ==> i == index_of(old(self)@, id@) && only_at(
                old(self)@,
                final(self)@,
                i as int,
            ) && applied(old(self)@[i as int], final(self)@[i as int], u, now),
            r is None ==> final(self)@ == old(self)@,
    {
        match self.find(id) {
            None => None,
            Some(i) => {
                let ghost before = self@;
                let e = &mut self.entries[i];
                match u {
                    ItemUpdate::Begin => {
                        e.item.status = DownloadStatus::Downloading;
                        e.item.progress = Progress::Start;
                        e.item.speed = own("Resolvendo link do vídeo...");
                    },
                    ItemUpdate::Complete(path) => {
                        e.item.status = DownloadStatus::Completed;
                        e.item.progress = Progress::Done;
                        e.item.output_path = Some(path);
                    },
                    ItemUpdate::Fail(msg) => {
                        e.item.status = DownloadStatus::Failed;
                        e.item.error = Some(msg);
                    },
                    ItemUpdate::Speed(line) => {
                        e.item.speed = line;
                    },
                    ItemUpdate::Progress(line) => {
                        e.item.progress = Progress::Running;
                        e.item.speed = line;
                    },
                }
                e.item.updated_at = now;
                proof {
                    lemma_update_unique(before, i as int, self@[i as int]);
                }
                Some(i)
            },
        }
    }

    /// Records how a stopped transfer ends: paused when only a pause is
    /// pending, cancelled when a cancel is; gives the position when it changed.
    pub fn handle_stop(&mut self, id: &str, now: u64) -> (r: Option<usize>)
        requires
            old(self).wf(),
        ensures
            final(self).wf(),
            final(self).limit() == old(self).limit(),
            r is Some <==> has_id(old(self)@, id@) && (old(self)@[index_of(
                old(self)@,
                id@,
            )].paused || old(self)@[index_of(old(self)@, id@)].cancelled),
            r matches Some(i) ==> i == index_of(old(self)@, id@) && only_at(
                old(self)@,
                final(self)@,
                i as int,
            ) && stopped_from(old(self)@[i as int], final(self)@[i as int], now),
            r is None ==> final(self)@ == old(self)@,
    {
        match self.find(id) {
            None => None,
            Some(i) => {
                let paused = self.entries[i].paused;
                let cancelled = self.entries[i].cancelled;
                if !paused && !cancelled {
                    return None;
                }
                let ghost before = self@;
                let e = &mut self.entries[i];
                if paused && !cancelled {
                    e.item.status = DownloadStatus::Paused;
                    e.item.progress = Progress::Start;
                } else {
                    e.item.status = DownloadStatus::Cancelled;
                }
                e.item.speed = String::new();
                e.item.updated_at = now;
                proof {
                    lemma_update_unique(before, i as int, self@[i as int]);
                }
                Some(i)
            },
        }
    }

    /// Whether the transfer of `id` should stop: a cancel or pause is pending
    /// on it, or its own stop signal (`stop_signal`) is set.
    pub fn is_stopped(&self, id: &str, stop_signal: bool) -> (r: bool)
        requires
            self.wf(),
        ensures
            r == (stop_signal || (has_id(self@, id@) && (self@[index_of(self@, id@)].cancelled
                || self@[index_of(self@, id@)].paused))),
    {
        match self.find(id) {
            None => stop_signal,
            Some(i) => self.entries[i].cancelled || self.entries[i].paused || stop_signal,
        }
    }

    /// Whether some download may be started.
    pub fn has_runnable_jobs(&self) -> (r: bool)
        ensures
            r == exists|i: int| 0 <= i < self@.len() && #[trigger] runnable(self@[i]),
    {
        let mut i: usize = 0;
        while i < self.entries.len()
            invariant
                i <= self.entries@.len(),
                forall|k: int| 0 <= k < i ==> !#[trigger] runnable(self.entries@[k]),
            decreases self.entries@.len() - i,
        {
            let e = &self.entries[i];
            if e.item.status == DownloadStatus::Queued && !e.cancelled && !e.paused {
                assert(runnable(self@[i as int]));
                return true;
            }
            i += 1;
        }
        false
    }

    /// The download to start next: of those that may start, one that has
    /// waited longest (the smallest `updated_at`).
    pub fn next_runnable_job(&self) -> (r: Option<usize>)
        ensures
            r is Some <==> exists|i: int| 0 <= i < self@.len() && #[trigger] runnable(self@[i]),
            r matches Some(i) ==> i < self@.len() && runnable(self@[i as int]) && forall|j: int|
                0 <= j < self@.len() && #[trigger] runnable(self@[j])
                    ==> self@[i as int].item.updated_at <= self@[j].item.updated_at,
    {
        let mut best: Option<usize> = None;
        let mut i: usize = 0;
        while i < self.entries.len()
            invariant
                i <= self.entries@.len(),
                best is None ==> forall|k: int| 0 <= k < i ==> !#[trigger] runnable(self.entries@[k]),
                best matches Some(b) ==> b < i && runnable(self.entries@[b as int]) && forall|k: int|
                    0 <= k < i && #[trigger] runnable(self.entries@[k])
                        ==> self.entries@[b as int].item.updated_at <= self.entries@[k].item.updated_at,
            decreases self.entries@.len() - i,
        {
            let e = &self.entries[i];
            if e.item.status == DownloadStatus::Queued && !e.cancelled && !e.paused {
                match best {
                    None => {
                        best = Some(i);
                    },
                    Some(b) => {
                        if e.item.updated_at < self.entries[b].item.updated_at {
                            best = Some(i);
                        }
                    },
                }
            }
            i += 1;
        }
        best
    }

    /// Puts `e` in: in place of the download with the same id, or at the end.
    fn upsert(&mut self, e: QueueEntry)
        requires
            old(self).wf(),
        ensures
            final(self).wf(),
            final(self).limit() == old(self).limit(),
            final(self)@ == upsert(old(self)@, e),
    {
        proof {
            lemma_upsert(self@, e);
        }
        match self.find(e.item.id.as_str()) {
            Some(i) => {
                self.entries.set(i, e);
            },
            None => {
                self.entries.push(e);
            },
        }
    }

    /// Queues one download per episode of `request`, the `k`-th under the id
    /// `ids[k]`, at time `now`. An id already in the queue replaces that
    /// download, as a later one in `ids` replaces an earlier one.
    pub fn enqueue(&mut self, request: &DownloadRequest, ids: &Vec<String>, now: u64)
        requires
            old(self).wf(),
            ids@.len() == request.episodes@.len(),
        ensures
            final(self).wf(),
            final(self).limit() == old(self).limit(),
            forall|k: int| 0 <= k < ids@.len() ==> has_id(final(self)@, #[trigger] ids@[k]@),
            forall|k: int|
                0 <= k < ids@.len() && (forall|l: int| k < l < ids@.len() ==> ids@[l]@ != ids@[k]@)
                    ==> fresh_entry(
                    final(self)@[index_of(final(self)@, #[trigger] ids@[k]@)],
                    ids@[k]@,
                    request.anime_title@,
                    request.episodes@[k],
                    now,
                ),
            kept_outside(old(self)@, final(self)@, ids@, ids@.len() as int),
    {
        let n = ids.len();
        let mut k: usize = 0;
        while k < n
            invariant
                self.wf(),
                self.limit() == old(self).limit(),
                n == ids@.len(),
                ids@.len() == request.episodes@.len(),
                0 <= k <= n,
                forall|j: int| 0 <= j < k ==> has_id(self@, #[trigger] ids@[j]@),
                forall|j: int|
                    0 <= j < k && (forall|l: int| j < l < k ==> ids@[l]@ != ids@[j]@) ==> fresh_entry(
                        self@[index_of(self@, #[trigger] ids@[j]@)],
                        ids@[j]@,
                        request.anime_title@,
                        request.episodes@[j],
                        now,
                    ),
                kept_outside(old(self)@, self@, ids@, k as int),
            decreases n - k,
        {
            let ep = &request.episodes[k];
            let mut label = own("S");
            push_decimal2(&mut label, ep.season);
            append(&mut label, "E");
            push_decimal2(&mut label, ep.number);
            append(&mut label, " - ");
            append(&mut label, ep.title.as_str());
            let e = QueueEntry {
                item: QueueItem {
                    id: ids[k].clone(),
                    anime_title: request.anime_title.clone(),
                    episode_label: label,
                    episode: ep.copied(),
                    status: DownloadStatus::Queued,
                    progress: Progress::Start,
                    speed: String::new(),
                    output_path: None,
                    error: None,
                    updated_at: now,
                },
                cancelled: false,
                paused: false,
            };
            assert(e.item.episode_label@ =~= episode_label(request.episodes@[k as int]));
            let ghost before = self@;
            self.upsert(e);
            proof {
                lemma_upsert(before, e);
                let after = self@;
                assert forall|j: int| 0 <= j < k + 1 implies has_id(after, #[trigger] ids@[j]@) by {
                    if j < k && ids@[j]@ != e.item.id@ {
                        assert(has_id(before, ids@[j]@));
                    }
                }
                assert forall|j: int|
                    0 <= j < k + 1 && (forall|l: int| j < l < k + 1 ==> ids@[l]@ != ids@[j]@) implies fresh_entry(
                    after[index_of(after, #[trigger] ids@[j]@)],
                    ids@[j]@,
                    request.anime_title@,
                    request.episodes@[j],
                    now,
                ) by {
                    if j < k {
                        assert(ids@[k as int]@ != ids@[j]@);
                        assert(forall|l: int| j < l < k ==> ids@[l]@ != ids@[j]@);
                        assert(has_id(before, ids@[j]@));
                    }
                }
                assert forall|id: Seq<char>|
                    (forall|j: int| 0 <= j < k + 1 ==> ids@[j]@ != id) implies (#[trigger] has_id(after, id)
                    == has_id(old(self)@, id) && (has_id(old(self)@, id) ==> after[index_of(after, id)]
                    == old(self)@[index_of(old(self)@, id)])) by {
                    assert(ids@[k as int]@ != id);
                    assert(forall|j: int| 0 <= j < k ==> ids@[j]@ != id);
                    assert(has_id(before, id) == has_id(old(self)@, id));
                    if has_id(old(self)@, id) {
                        assert(before[index_of(before, id)] == old(self)@[index_of(old(self)@, id)]);
                    }
                }
                assert(kept_outside(old(self)@, after, ids@, k + 1));
            }
            k += 1;
        }
    }

    /// Queues every episode of `request` under fresh random ids, after setting
    /// the limit from `max_concurrent`; gives the ids in the order of the episodes.
    pub fn start(&mut self, request: &DownloadRequest, max_concurrent: u32, now: u64) -> (r: Vec<String>)
        requires
            old(self).wf(),
        ensures
            final(self).wf(),
            final(self).limit() == clamp_limit(max_concurrent),
            r@.len() == request.episodes@.len(),
            forall|k: int| 0 <= k < r@.len() ==> has_id(final(self)@, #[trigger] r@[k]@),
            forall|k: int|
                0 <= k < r@.len() && (forall|l: int| k < l < r@.len() ==> r@[l]@ != r@[k]@)
                    ==> fresh_entry(
                    final(self)@[index_of(final(self)@, #[trigger] r@[k]@)],
                    r@[k]@,
                    request.anime_title@,
                    request.episodes@[k],
                    now,
                ),
            kept_outside(old(self)@, final(self)@, r@, r@.len() as int),
    {
        self.set_max_concurrent(max_concurrent);
        let mut ids: Vec<String> = Vec::new();
        let mut k: usize = 0;
        while k < request.episodes.len()
            invariant
                k <= request.episodes@.len(),
                ids@.len() == k,
            decreases request.episodes@.len() - k,
        {
            ids.push(new_download_id());
            k += 1;
        }
        self.enqueue(request, &ids, now);
        ids
    }

    /// Pauses entry `i`.
    fn pause_at(&mut self, i: usize, now: u64)
        requires
            old(self).wf(),
            i < old(self)@.len(),
        ensures
            final(self).wf(),
            final(self).limit() == old(self).limit(),
            only_at(old(self)@, final(self)@, i as int),
            paused_from(old(self)@[i as int], final(self)@[i as int], now),
    {
        let ghost before = self@;
        let e = &mut self.entries[i];
        e.paused = true;
        e.item.status = DownloadStatus::Paused;
        e.item.speed = String::new();
        e.item.updated_at = now;
        proof {
            lemma_update_unique(before, i as int, self@[i as int]);
        }
    }

    /// Cancels entry `i`.
    fn cancel_at(&mut self, i: usize, now: u64)
        requires
            old(self).wf(),
            i < old(self)@.len(),
        ensures
            final(self).wf(),
            final(self).limit() == old(self).limit(),
            only_at(old(self)@, final(self)@, i as int),
            cancelled_from(old(self)@[i as int], final(self)@[i as int], now),
    {
        let ghost before = self@;
        let e = &mut self.entries[i];
        e.cancelled = true;
        e.paused = false;
        e.item.status = DownloadStatus::Cancelled;
        e.item.updated_at = now;
        proof {
            lemma_update_unique(before, i as int, self@[i as int]);
        }
    }

    /// Does `act` to every download of the anime `title` it applies to.
    fn act_on_title(&mut self, title: &str, act: TitleAction, now: u64) -> (r: u32)
        requires
            old(self).wf(),
            old(self)@.len() <= u32::MAX,
        ensures
            final(self).wf(),
            final(self).limit() == old(self).limit(),
            applied_to_title(old(self)@, final(self)@, title@, act, now),
            r == title_count(old(self)@, title@, act, old(self)@.len() as int),
    {
        let ghost start = self@;
        let mut count: u32 = 0;
        let mut i: usize = 0;
        while i < self.entries.len()
            invariant
                self.wf(),
                self.limit() == old(self).limit(),
                start == old(self)@,
                start.len() <= u32::MAX,
                i <= self@.len(),
                self@.len() == start.len(),
                forall|k: int| i <= k < start.len() ==> #[trigger] self@[k] == start[k],
                forall|k: int|
                    0 <= k < i ==> if selected(start[k], title@, act) {
                        acted(act, start[k], #[trigger] self@[k], now)
                    } else {
                        self@[k] == start[k]
                    },
                count == title_count(start, title@, act, i as int),
            decreases start.len() - i,
        {
            let st = self.entries[i].item.status;
            let applies = match act {
                TitleAction::Pause => st == DownloadStatus::Downloading || st == DownloadStatus::Queued,
                TitleAction::Resume => st == DownloadStatus::Paused,
                TitleAction::Cancel => st == DownloadStatus::Downloading || st == DownloadStatus::Queued
                    || st == DownloadStatus::Paused,
            };
            let same = str_eq(self.entries[i].item.anime_title.as_str(), title);
            proof {
                lemma_title_count_le(start, title@, act, i as int);
            }
            if same && applies {
                match act {
                    TitleAction::Pause => self.pause_at(i, now),
                    TitleAction::Resume => self.requeue_at(i, now),
                    TitleAction::Cancel => self.cancel_at(i, now),
                }
                count = count + 1;
            }
            i += 1;
        }
        count
    }

    /// Pauses every queued or running download of the anime `title`; gives how many.
    pub fn pause_anime(&mut self, title: &str, now: u64) -> (r: u32)
        requires
            old(self).wf(),
            old(self)@.len() <= u32::MAX,
        ensures
            final(self).wf(),
            final(self).limit() == old(self).limit(),
            applied_to_title(old(self)@, final(self)@, title@, TitleAction::Pause, now),
            r == title_count(old(self)@, title@, TitleAction::Pause, old(self)@.len() as int),
    {
        self.act_on_title(title, TitleAction::Pause, now)
    }

    /// Resumes every paused download of the anime `title`; gives how many.
    pub fn resume_anime(&mut self, title: &str, now: u64) -> (r: u32)
        requires
            old(self).wf(),
            old(self)@.len() <= u32::MAX,
        ensures
            final(self).wf(),
            final(self).limit() == old(self).limit(),
            applied_to_title(old(self)@, final(self)@, title@, TitleAction::Resume, now),
            r == title_count(old(self)@, title@, TitleAction::Resume, old(self)@.len() as int),
    {
        self.act_on_title(title, TitleAction::Resume, now)
    }

    /// Cancels every queued, running or paused download of the anime `title`;
    /// gives how many.
    pub fn cancel_anime(&mut self, title: &str, now: u64) -> (r: u32)
        requires
            old(self).wf(),
            old(self)@.len() <= u32::MAX,
        ensures
            final(self).wf(),
            final(self).limit() == old(self).limit(),
            applied_to_title(old(self)@, final(self)@, title@, TitleAction::Cancel, now),
            r == title_count(old(self)@, title@, TitleAction::Cancel, old(self)@.len() as int),
    {
        self.act_on_title(title, TitleAction::Cancel, now)
    }

    /// Puts `item` in, in place of the item of the same id (whose pending
    /// requests stay) or at the end with none pending.
    fn put_item(&mut self, item: QueueItem)
        requires
            old(self).wf(),
        ensures
            final(self).wf(),
            final(self).limit() == old(self).limit(),
            exists|e: QueueEntry| e.item == item && #[trigger] upsert(old(self)@, e) == final(self)@,
    {
        let (cancelled, paused) = match self.find(item.id.as_str()) {
            Some(i) => (self.entries[i].cancelled, self.entries[i].paused),
            None => (false, false),
        };
        let e = QueueEntry { item, cancelled, paused };
        let ghost ge = e;
        self.upsert(e);
        assert(upsert(old(self)@, ge) == self@);
    }

    /// Takes back the saved downloads `items` at start-up, each as `restored`
    /// gives it; `on_disk[k]` tells whether the output file of `items[k]`
    /// exists. A later item replaces an earlier one of the same id.
    pub fn restore(&mut self, items: Vec<QueueItem>, on_disk: &Vec<bool>)
        requires
            old(self).wf(),
            on_disk@.len() == items@.len(),
        ensures
            final(self).wf(),
            final(self).limit() == old(self).limit(),
            forall|k: int| 0 <= k < items@.len() ==> has_id(final(self)@, #[trigger] items@[k].id@),
            forall|k: int|
                0 <= k < items@.len() && (forall|l: int| k < l < items@.len() ==> items@[l].id@ != items@[k].id@)
                    ==> restored_from(
                    items@[k],
                    final(self)@[index_of(final(self)@, #[trigger] items@[k].id@)].item,
                    on_disk@[k],
                ),
            kept_outside(
                old(self)@,
                final(self)@,
                items@.map_values(|it: QueueItem| it.id),
                items@.len() as int,
            ),
    {
        let ghost ids = items@.map_values(|it: QueueItem| it.id);
        let n = items.len();
        let mut k: usize = 0;
        while k < n
            invariant
                self.wf(),
                self.limit() == old(self).limit(),
                n == items@.len(),
                on_disk@.len() == n,
                ids == items@.map_values(|it: QueueItem| it.id),
                0 <= k <= n,
                forall|j: int| 0 <= j < k ==> has_id(self@, #[trigger] items@[j].id@),
                forall|j: int|
                    0 <= j < k && (forall|l: int| j < l < k ==> items@[l].id@ != items@[j].id@)
                        ==> restored_from(
                        items@[j],
                        self@[index_of(self@, #[trigger] items@[j].id@)].item,
                        on_disk@[j],
                    ),
                kept_outside(old(self)@, self@, ids, k as int),
            decreases n - k,
        {
            let it = restored(items[k].copied(), on_disk[k]);
            let ghost before = self@;
            self.put_item(it);
            proof {
                let e = choose|e: QueueEntry| e.item == it && #[trigger] upsert(before, e) == self@;
                lemma_upsert(before, e);
                let after = self@;
                assert(ids[k as int] == items@[k as int].id);
                assert forall|j: int| 0 <= j < k + 1 implies has_id(after, #[trigger] items@[j].id@) by {
                    if j < k && items@[j].id@ != e.item.id@ {
                        assert(has_id(before, items@[j].id@));
                    }
                }
                assert forall|j: int|
                    0 <= j < k + 1 && (forall|l: int| j < l < k + 1 ==> items@[l].id@ != items@[j].id@) implies restored_from(
                    items@[j],
                    after[index_of(after, #[trigger] items@[j].id@)].item,
                    on_disk@[j],
                ) by {
                    if j < k {
                        assert(items@[k as int].id@ != items@[j].id@);
                        assert(forall|l: int| j < l < k ==> items@[l].id@ != items@[j].id@);
                        assert(has_id(before, items@[j].id@));
                    }
                }
                assert forall|id: Seq<char>|
                    (forall|j: int| 0 <= j < k + 1 ==> ids[j]@ != id) implies (#[trigger] has_id(after, id)
                    == has_id(old(self)@, id) && (has_id(old(self)@, id) ==> after[index_of(after, id)]
                    == old(self)@[index_of(old(self)@, id)])) by {
                    assert(ids[k as int]@ != id);
                    assert(forall|j: int| 0 <= j < k ==> ids[j]@ != id);
                    assert(has_id(before, id) == has_id(old(self)@, id));
                    if has_id(old(self)@, id) {
                        assert(before[index_of(before, id)] == old(self)@[index_of(old(self)@, id)]);
                    }
                }
                assert(kept_outside(old(self)@, after, ids, k + 1));
            }
            k += 1;
        }
    }

    /// Every download, most recently updated first, then by anime title,
    /// season and episode.
    pub fn list(&self) -> (r: Vec<QueueItem>)
        ensures
            listed(self@, r@),
    {
        let ghost src = self@;
        let n = self.entries.len();
        let mut out: Vec<QueueItem> = Vec::new();
        let mut titles: Vec<Vec<char>> = Vec::new();
        let ghost mut perm: Seq<int> = Seq::empty();
        let mut i: usize = 0;
        while i < n
            invariant
                n == src.len(),
                src == self@,
                i <= n,
                out@.len() == i,
                titles@.len() == i,
                perm.len() == i,
                forall|k: int| 0 <= k < i ==> #[trigger] titles@[k]@ == out@[k].anime_title@,
                forall|k: int| 0 <= k < i ==> 0 <= #[trigger] perm[k] < i,
                forall|k: int| 0 <= k < i ==> #[trigger] out@[k] == src[perm[k]].item,
                forall|k: int, l: int| 0 <= k < l < i ==> perm[k] != perm[l],
                forall|k: int, l: int| 0 <= k < l < i ==> list_le(out@[k], out@[l]),
            decreases n - i,
        {
            let it = self.entries[i].item.copied();
            let title = chars_of(it.anime_title.as_str());
            let mut pos: usize = 0;
            while pos < out.len() && list_precedes(&out[pos], &titles[pos], &it, &title)
                invariant
                    pos <= out@.len(),
                    titles@.len() == out@.len(),
                    forall|k: int| 0 <= k < out@.len() ==> #[trigger] titles@[k]@ == out@[k].anime_title@,
                    title@ == it.anime_title@,
                    forall|j: int| 0 <= j < pos ==> list_le(out@[j], it),
                decreases out@.len() - pos,
            {
                pos += 1;
            }
            proof {
                assert forall|j: int| pos <= j < out@.len() implies list_le(it, out@[j]) by {
                    let xp = out@[pos as int];
                    let xj = out@[j];
                    assert(!list_le(xp, it));
                    lemma_list_total(xp, it);
                    if j > pos {
                        assert(list_le(xp, xj));
                        if !list_le(it, xj) {
                            lemma_list_total(it, xj);
                            lemma_list_trans(xp, xj, it);
                        }
                    }
                }
            }
            let ghost old_out = out@;
            let ghost old_titles = titles@;
            let ghost old_perm = perm;
            out.insert(pos, it);
            titles.insert(pos, title);
            proof {
                perm = perm.insert(pos as int, i as int);
                old_out.insert_ensures(pos as int, it);
                old_titles.insert_ensures(pos as int, title);
                old_perm.insert_ensures(pos as int, i as int);
                assert forall|k: int| 0 <= k < i + 1 implies #[trigger] titles@[k]@ == out@[k].anime_title@ by {
                    if k > pos {
                        assert(titles@[k] == old_titles[k - 1]);
                        assert(out@[k] == old_out[k - 1]);
                    }
                }
                assert forall|k: int| 0 <= k < i + 1 implies 0 <= #[trigger] perm[k] < i + 1 by {
                    if k > pos {
                        assert(perm[k] == old_perm[k - 1]);
                    }
                }
                assert forall|k: int| 0 <= k < i + 1 implies #[trigger] out@[k] == src[perm[k]].item by {
                    if k > pos {
                        assert(perm[k] == old_perm[k - 1]);
                        assert(out@[k] == old_out[k - 1]);
                    }
                }
                assert forall|k: int, l: int| 0 <= k < l < i + 1 implies perm[k] != perm[l] by {
                    let ok = if k < pos { k } else { k - 1 };
                    let ol = if l < pos { l } else { l - 1 };
                    if k != pos && l != pos {
                        assert(perm[k] == old_perm[ok]);
                        assert(perm[l] == old_perm[ol]);
                    } else if k == pos {
                        assert(perm[l] == old_perm[ol]);
                    } else {
                        assert(perm[k] == old_perm[ok]);
                    }
                }
                assert forall|k: int, l: int| 0 <= k < l < i + 1 implies list_le(out@[k], out@[l]) by {
                    let ok = if k < pos { k } else { k - 1 };
                    let ol = if l < pos { l } else { l - 1 };
                    if k != pos && l != pos {
                        assert(out@[k] == old_out[ok]);
                        assert(out@[l] == old_out[ol]);
                    } else if k == pos {
                        assert(out@[l] == old_out[ol]);
                    } else {
                        assert(out@[k] == old_out[ok]);
                    }
                }
            }
            i += 1;
        }
        assert(forall|k: int| 0 <= k < perm.len() ==> 0 <= #[trigger] perm[k] < src.len());
        out
    }

    /// Cancels the download `id` when it is queued, running or paused; gives
    /// its position when it changed.
    pub fn cancel(&mut self, id: &str, now: u64) -> (r: Option<usize>)
        requires
            old(self).wf(),
        ensures
            final(self).wf(),
            final(self).limit() == old(self).limit(),
            r is Some <==> has_id(old(self)@, id@) && cancellable(
                old(self)@[index_of(old(self)@, id@)].item.status,
            ),
            r matches Some(i) ==> i == index_of(old(self)@, id@) && only_at(
                old(self)@,
                final(self)@,
                i as int,
            ) && cancelled_from(old(self)@[i as int], final(self)@[i as int], now),
            r is None ==> final(self)@ == old(self)@,
    {
        match self.find(id) {
            None => None,
            Some(i) => {
                let st = self.entries[i].item.status;
                if st == DownloadStatus::Downloading || st == DownloadStatus::Queued || st
                    == DownloadStatus::Paused {
                    self.cancel_at(i, now);
                    Some(i)
                } else {
                    None
                }
            },
        }
    }
}

/// Pausing a queued or running download and then resuming it puts the same
/// download back in the queue, ready to start again from the beginning.
pub proof fn law_pause_then_resume(a: QueueEntry, b: QueueEntry, c: QueueEntry, t1: u64, t2: u64)
    requires
        pausable(a.item.status),
        paused_from(a, b, t1),
        requeued_from(b, c, t2),
    ensures
        b.item.status == DownloadStatus::Paused,
        runnable(c),
        c.item.progress == Progress::Start,
        c.item.id == a.item.id,
        c.item.anime_title == a.item.anime_title,
        c.item.episode == a.item.episode,
{
}

/// A cancelled download never starts, cannot be paused or resumed, and can
/// only be tried again.
pub proof fn law_cancelled_is_final(a: QueueEntry, b: QueueEntry, t: u64)
    requires
        cancelled_from(a, b, t),
    ensures
        !runnable(b),
        !pausable(b.item.status),
        b.item.status != DownloadStatus::Paused,
        !cancellable(b.item.status),
        retryable(b.item.status),
{
}

/// After a cancel or a pause of a download, its transfer is told to stop.
pub proof fn law_request_stops_transfer(s: Seq<QueueEntry>, i: int, e: QueueEntry, t: u64)
    requires
        unique_ids(s),
        0 <= i < s.len(),
        cancelled_from(s[i], e, t) || paused_from(s[i], e, t),
    ensures
        has_id(s.update(i, e), s[i].item.id@),
        s.update(i, e)[index_of(s.update(i, e), s[i].item.id@)].cancelled || s.update(i, e)[index_of(
            s.update(i, e),
            s[i].item.id@,
        )].paused,
{
    lemma_update_unique(s, i, e);
    lemma_index_of(s.update(i, e), i);
}

/// Downloads taken back at start-up are never running or queued: what was
/// interrupted has failed.
pub proof fn law_restore_stops_everything(a: QueueItem, b: QueueItem, on_disk: bool)
    requires
        restored_from(a, b, on_disk),
    ensures
        b.status != DownloadStatus::Downloading,
        b.status != DownloadStatus::Queued,
        b.id == a.id,
{
}

/// After an action on every download of an anime, none of that anime's
/// downloads is left that the action applies to.
pub proof fn law_title_action_complete(
    a: Seq<QueueEntry>,
    b: Seq<QueueEntry>,
    title: Seq<char>,
    act: TitleAction,
    t: u64,
)
    requires
        applied_to_title(a, b, title, act, t),
    ensures
        forall|i: int| 0 <= i < b.len() && b[i].item.anime_title@ == title ==> !acts_on(act, #[trigger] b[i].item.status),
{
    assert forall|i: int| 0 <= i < b.len() && b[i].item.anime_title@ == title implies !acts_on(
        act,
        #[trigger] b[i].item.status,
    ) by {
        if selected(a[i], title, act) {
            assert(acted(act, a[i], b[i], t));
        } else {
            assert(b[i] == a[i]);
        }
    }
}

/// The limit is always between 1 and 10, and setting it twice to the same
/// value is the same as setting it once.
pub proof fn law_limit_clamped(n: u32)
    ensures
        1 <= clamp_limit(n) <= 10,
        clamp_limit(clamp_limit(n)) == clamp_limit(n),
        1 <= n <= 10 ==> clamp_limit(n) == n,
{
}

/// A download that failed or was cancelled and is tried again is queued from
/// the start with no result and no request pending.
pub proof fn law_retry_requeues(a: QueueEntry, b: QueueEntry, t: u64)
    requires
        retryable(a.item.status),
        requeued_from(a, b, t),
    ensures
        runnable(b),
        b.item.error is None,
        b.item.output_path is None,
        b.item.progress == Progress::Start,
        b.item.updated_at == t,
{
}

} // verus!
