//! One run of copying playlists and their media: which media items are still
//! to copy, what a success or a failure changes, the counters behind the
//! progress messages and the summary, and the failures to log. The file
//! operations themselves are performed by the caller, which reports their
//! outcome here.
use vstd::prelude::*;
use crate::error_tracker::{ErrorTracker, FailureRecord};
use crate::logger::decimal;
use crate::media_file_info::MediaFileInfo;
use crate::media_set::{keys_of, path_in, union_keys, MediaKey, MediaSet, PlaylistEntry};
use crate::text::views;

verus! {

/// What the run was asked to do.
pub struct CommandOptions {
    pub verbose: bool,
    pub copy_lyrics: bool,
    pub keep_going: bool,
}

impl CommandOptions {
    /// Whether a playlist that cannot be read ends the run before anything
    /// is copied: it does without keep-going.
    pub fn stops_on_unreadable_playlist(&self) -> (r: bool)
        ensures
            r == !self.keep_going,
    {
        !self.keep_going
    }
}

/// Where the copies go.
pub struct RetryContext {
    pub dest_dir: String,
}

/// The media items of the run: all of them, those copied, those that failed.
pub struct MediaContext {
    pub media_files_map: MediaSet,
    pub copied_files: MediaSet,
    pub failed_files: MediaSet,
}

/// The counters of the run.
pub struct ProgressContext {
    pub current_playlist_num: usize,
    pub total_playlists: usize,
    pub successful_playlists: usize,
    pub total_media_files: usize,
    pub successful_media_files: usize,
}

/// The media items of a playlist still to copy, in the order the playlist
/// names them, each once: those of the run not yet copied or failed.
pub open spec fn pending_keys(
    base: Seq<char>,
    media: Seq<Seq<char>>,
    all: Set<MediaKey>,
    done: Set<MediaKey>,
) -> Seq<MediaKey>
    decreases media.len(),
{
    if media.len() == 0 {
        seq![]
    } else {
        let prev = pending_keys(base, media.drop_last(), all, done);
        let k = (base, media.last());
        if all.contains(k) && !done.contains(k) && !prev.contains(k) {
            prev.push(k)
        } else {
            prev
        }
    }
}

/// The items copied after each playlist in turn has had all its pending
/// items copied, starting from `done`.
pub open spec fn copied_after(
    es: Seq<(Seq<char>, Seq<Seq<char>>)>,
    all: Set<MediaKey>,
    done: Set<MediaKey>,
) -> Set<MediaKey>
    decreases es.len(),
{
    if es.len() == 0 {
        done
    } else {
        let d = copied_after(es.drop_last(), all, done);
        d.union(pending_keys(es.last().0, es.last().1, all, d).to_set())
    }
}

/// The keys of a sequence of media items.
pub open spec fn item_keys(v: Seq<MediaFileInfo>) -> Seq<MediaKey> {
    v.map_values(|m: MediaFileInfo| m@)
}

/// What is pending is exactly the playlist's items of the run that are not
/// done, each once.
pub proof fn lemma_pending(
    base: Seq<char>,
    media: Seq<Seq<char>>,
    all: Set<MediaKey>,
    done: Set<MediaKey>,
)
    ensures
        pending_keys(base, media, all, done).no_duplicates(),
        forall|k: MediaKey| #[trigger]
            pending_keys(base, media, all, done).contains(k) <==> (keys_of(base, media).contains(k)
                && all.contains(k) && !done.contains(k)),
    decreases media.len(),
{
    if media.len() > 0 {
        let m0 = media.drop_last();
        lemma_pending(base, m0, all, done);
        let prev = pending_keys(base, m0, all, done);
        let k = (base, media.last());
        assert forall|x: Seq<char>| media.contains(x) <==> (m0.contains(x) || x == media.last()) by {
            if media.contains(x) {
                let j = choose|j: int| 0 <= j < media.len() && media[j] == x;
                if j < m0.len() {
                    assert(m0[j] == x);
                }
            }
            if m0.contains(x) {
                let j = choose|j: int| 0 <= j < m0.len() && m0[j] == x;
                assert(media[j] == x);
            }
        }
        if all.contains(k) && !done.contains(k) && !prev.contains(k) {
            assert forall|j: int| 0 <= j < prev.len() implies prev[j] != k by {
                if prev[j] == k {
                    assert(prev.contains(k));
                }
            }
            assert forall|x: MediaKey| #[trigger] prev.push(k).contains(x) <==> (prev.contains(x)
                || x == k) by {
                if prev.push(k).contains(x) {
                    let j = choose|j: int| 0 <= j < prev.len() + 1 && prev.push(k)[j] == x;
                    if j < prev.len() {
                        assert(prev[j] == x);
                    }
                }
                if prev.contains(x) {
                    let j = choose|j: int| 0 <= j < prev.len() && prev[j] == x;
                    assert(prev.push(k)[j] == x);
                }
                if x == k {
                    assert(prev.push(k)[prev.len() as int] == x);
                }
            }
        }
    }
}

/// Each media item is handed out for copying at most once: no item repeats
/// within a playlist's pending items, and once the items pending for one
/// playlist are done, none of them is pending for the next.
pub proof fn lemma_copy_at_most_once(
    b1: Seq<char>,
    m1: Seq<Seq<char>>,
    b2: Seq<char>,
    m2: Seq<Seq<char>>,
    all: Set<MediaKey>,
    done: Set<MediaKey>,
)
    ensures
        pending_keys(b1, m1, all, done).no_duplicates(),
        forall|k: MediaKey| #[trigger]
            pending_keys(b1, m1, all, done).contains(k) ==> !pending_keys(
                b2,
                m2,
                all,
                done.union(pending_keys(b1, m1, all, done).to_set()),
            ).contains(k),
{
    lemma_pending(b1, m1, all, done);
    lemma_pending(b2, m2, all, done.union(pending_keys(b1, m1, all, done).to_set()));
}

/// Where every copy succeeds, the items copied over all the playlists are
/// their union, so the number of successful copies is the size of the union
/// of their (base directory, relative path) pairs and not the sum of the
/// playlists' lengths.
pub proof fn lemma_dedup_count(es: Seq<(Seq<char>, Seq<Seq<char>>)>)
    ensures
        copied_after(es, union_keys(es), Set::empty()) == union_keys(es),
        copied_after(es, union_keys(es), Set::empty()).len() == union_keys(es).len(),
{
    lemma_copied_after(es, union_keys(es));
}

/// The union over playlists holds each playlist's items.
proof fn lemma_union_keys_grow(es: Seq<(Seq<char>, Seq<Seq<char>>)>)
    ensures
        es.len() > 0 ==> union_keys(es.drop_last()).subset_of(union_keys(es)),
        es.len() > 0 ==> keys_of(es.last().0, es.last().1).subset_of(union_keys(es)),
{
}

/// Copying every pending item of each playlist in turn copies their union.
proof fn lemma_copied_after(es: Seq<(Seq<char>, Seq<Seq<char>>)>, all: Set<MediaKey>)
    requires
        union_keys(es).subset_of(all),
    ensures
        copied_after(es, all, Set::empty()) == union_keys(es),
    decreases es.len(),
{
    if es.len() > 0 {
        lemma_union_keys_grow(es);
        lemma_copied_after(es.drop_last(), all);
        let d = copied_after(es.drop_last(), all, Set::empty());
        let (b, m) = es.last();
        lemma_pending(b, m, all, d);
        assert(copied_after(es, all, Set::empty()) =~= union_keys(es));
    }
}

/// A media item that was copied and then logged (by a run that failed later
/// on something else) reads back from its log line as an item that names
/// the same file, so a retry finds it copied: `is_copied` holds of it.
pub proof fn lemma_logged_copy_is_copied(copied: Set<MediaKey>, b: Seq<char>, r: Seq<char>)
    requires
        copied.contains((b, r)),
        crate::error_tracker::path_safe(FailureRecord::Media(b, r)),
    ensures
        crate::error_tracker::parse_line(
            crate::error_tracker::record_line(FailureRecord::Media(b, r)),
        ) matches Some(FailureRecord::Media(b2, r2)) && path_in(
            copied,
            crate::paths::join(b2, r2),
        ),
{
    crate::error_tracker::lemma_record_path(FailureRecord::Media(b, r));
}

/// What follows the copy of a playlist.
pub enum PlaylistStep {
    /// Copy these media items of the playlist.
    CopyMedia(Vec<MediaFileInfo>),
    /// The playlist failed; go on with the next one.
    Next,
    /// The playlist failed and the run ends.
    Abort,
}

/// A run in progress.
pub struct Session {
    options: CommandOptions,
    target: RetryContext,
    media: MediaContext,
    progress: ProgressContext,
    tracker: Option<ErrorTracker>,
}

impl Session {
    /// All the media items of the run.
    pub closed spec fn all(&self) -> Set<MediaKey> {
        self.media.media_files_map@
    }

    /// The media items copied so far.
    pub closed spec fn copied(&self) -> Set<MediaKey> {
        self.media.copied_files@
    }

    /// The media items whose copy failed so far.
    pub closed spec fn failed(&self) -> Set<MediaKey> {
        self.media.failed_files@
    }

    /// Successful media copies so far.
    pub closed spec fn successful_media(&self) -> nat {
        self.progress.successful_media_files as nat
    }

    /// The number of media items of the run, fixed when it starts.
    pub closed spec fn total_media(&self) -> nat {
        self.progress.total_media_files as nat
    }

    /// Playlists handled so far, copied or failed.
    pub closed spec fn playlists_done(&self) -> nat {
        self.progress.current_playlist_num as nat
    }

    /// Playlists copied so far.
    pub closed spec fn successful_playlists(&self) -> nat {
        self.progress.successful_playlists as nat
    }

    /// The number of playlists of the run.
    pub closed spec fn total_playlists(&self) -> nat {
        self.progress.total_playlists as nat
    }

    /// The failures recorded so far, where failures are recorded.
    pub closed spec fn failures(&self) -> Option<Seq<FailureRecord>> {
        match self.tracker {
            Some(t) => Some(t@),
            None => None,
        }
    }

    /// The run's options.
    pub closed spec fn opts(&self) -> (bool, bool, bool) {
        (self.options.verbose, self.options.copy_lyrics, self.options.keep_going)
    }

    /// Whether failures are recorded and skipped rather than ending the run.
    pub open spec fn keeps_going(&self) -> bool {
        self.opts().2
    }

    /// The destination directory.
    pub closed spec fn dest(&self) -> Seq<char> {
        self.target.dest_dir@
    }

    /// Whether `k` may still be copied: it belongs to the run and is neither
    /// copied nor failed.
    pub open spec fn eligible(&self, k: MediaKey) -> bool {
        self.all().contains(k) && !self.copied().contains(k) && !self.failed().contains(k)
    }

    /// The counters agree with the sets they count, and copied and failed
    /// items are disjoint items of the run.
    pub closed spec fn wf(&self) -> bool {
        &&& self.media.media_files_map.wf()
        &&& self.media.copied_files.wf()
        &&& self.media.failed_files.wf()
        &&& self.copied().subset_of(self.all())
        &&& self.failed().subset_of(self.all())
        &&& self.copied().disjoint(self.failed())
        &&& self.successful_media() == self.copied().len()
        &&& self.total_media() == self.all().len()
        &&& self.successful_playlists() <= self.playlists_done() <= self.total_playlists()
    }

    /// A run over `total_playlists` playlists whose media items are `all`;
    /// failures are recorded where `track_failures`.
    pub fn new(
        options: CommandOptions,
        dest_dir: String,
        total_playlists: usize,
        all: MediaSet,
        track_failures: bool,
    ) -> (r: Self)
        requires
            all.wf(),
        ensures
            r.wf(),
            r.all() == all@,
            r.copied() == Set::<MediaKey>::empty(),
            r.failed() == Set::<MediaKey>::empty(),
            r.successful_media() == 0,
            r.total_media() == all@.len(),
            r.playlists_done() == 0,
            r.successful_playlists() == 0,
            r.total_playlists() == total_playlists,
            r.failures() == (if track_failures {
                Some(Seq::<FailureRecord>::empty())
            } else {
                None
            }),
            r.opts() == (options.verbose, options.copy_lyrics, options.keep_going),
            r.dest() == dest_dir@,
    {
        let total: usize = all.len();
        let copied = MediaSet::new();
        let failed = MediaSet::new();
        let tracker = if track_failures {
            Some(ErrorTracker::new())
        } else {
            None
        };
        proof {
            assert(Set::<MediaKey>::empty().len() == 0);
        }
        Session {
            options,
            target: RetryContext { dest_dir },
            media: MediaContext { media_files_map: all, copied_files: copied, failed_files: failed },
            progress: ProgressContext {
                current_playlist_num: 0,
                total_playlists,
                successful_playlists: 0,
                total_media_files: total,
                successful_media_files: 0,
            },
            tracker,
        }
    }

    /// The options of the run.
    pub fn options(&self) -> (r: &CommandOptions)
        ensures
            (r.verbose, r.copy_lyrics, r.keep_going) == self.opts(),
    {
        &self.options
    }

    /// The destination directory.
    pub fn dest_dir(&self) -> (r: &String)
        ensures
            r@ == self.dest(),
    {
        &self.target.dest_dir
    }

    /// Whether `item` was copied in this run.
    pub fn is_copied(&self, item: &MediaFileInfo) -> (r: bool)
        ensures
            r == path_in(self.copied(), crate::media_file_info::source_of(item@)),
            self.copied().contains(item@) ==> r,
    {
        let path = item.source_path();
        self.media.copied_files.contains_path(&path)
    }

    /// The media items of the playlist at `base` naming `media` that are
    /// still to copy, in order, each once.
    pub fn pending_media(&self, base: &String, media: &Vec<String>) -> (r: Vec<MediaFileInfo>)
        requires
            self.wf(),
        ensures
            item_keys(r@) == pending_keys(
                base@,
                views(media@),
                self.all(),
                self.copied().union(self.failed()),
            ),
    {
        let ghost done = self.copied().union(self.failed());
        let mut seen = MediaSet::new();
        let mut r: Vec<MediaFileInfo> = Vec::new();
        let mut i: usize = 0;
        while i < media.len()
            invariant
                i <= media.len(),
                seen.wf(),
                done == self.copied().union(self.failed()),
                item_keys(r@) == pending_keys(base@, views(media@).take(i as int), self.all(), done),
                seen@ == item_keys(r@).to_set(),
            decreases media.len() - i,
        {
            let item = MediaFileInfo::new(base.clone(), media[i].clone());
            let ghost k = item@;
            let ghost prev = item_keys(r@);
            proof {
                let t = views(media@).take(i + 1);
                assert(t.drop_last() =~= views(media@).take(i as int));
                assert(t.last() == media@[i as int]@);
            }
            if self.media.media_files_map.contains(&item) && !self.media.copied_files.contains(&item)
                && !self.media.failed_files.contains(&item) && !seen.contains(&item) {
                seen.insert(item.duplicate());
                r.push(item);
                proof {
                    assert(item_keys(r@) =~= prev + seq![k]);
                    Seq::lemma_to_set_insert_commutes(prev, k);
                }
            }
            i = i + 1;
        }
        assert(views(media@).take(i as int) =~= views(media@));
        r
    }

    /// A media item was copied. Where it was still to copy it now counts as
    /// copied, and the result is its number among the run's successful
    /// copies: one more than before, and never above the run's total.
    /// Otherwise nothing changes.
    pub fn record_media_copied(&mut self, item: &MediaFileInfo) -> (r: Option<usize>)
        requires
            old(self).wf(),
        ensures
            final(self).wf(),
            r is Some <==> old(self).eligible(item@),
            r matches Some(k) ==> {
                &&& k == old(self).successful_media() + 1
                &&& k <= final(self).total_media()
                &&& final(self).successful_media() == k
                &&& final(self).copied() == old(self).copied().insert(item@)
            },
            r is None ==> final(self).copied() == old(self).copied(),
            r is None ==> final(self).successful_media() == old(self).successful_media(),
            final(self).all() == old(self).all(),
            final(self).failed() == old(self).failed(),
            final(self).total_media() == old(self).total_media(),
            final(self).playlists_done() == old(self).playlists_done(),
            final(self).successful_playlists() == old(self).successful_playlists(),
            final(self).total_playlists() == old(self).total_playlists(),
            final(self).failures() == old(self).failures(),
            final(self).opts() == old(self).opts(),
            final(self).dest() == old(self).dest(),
    {
        if !self.media.media_files_map.contains(item) || self.media.copied_files.contains(item)
            || self.media.failed_files.contains(item) {
            return None;
        }
        proof {
            self.media.copied_files.lemma_finite();
            self.media.media_files_map.lemma_finite();
            vstd::set_lib::lemma_len_subset(self.copied().insert(item@), self.all());
        }
        self.media.copied_files.insert(item.duplicate());
        self.progress.successful_media_files = self.progress.successful_media_files + 1;
        Some(self.progress.successful_media_files)
    }

    /// A media item failed to copy. Without keep-going the run ends (the
    /// result is false) and nothing changes. With it, an item still to copy
    /// counts as failed and is recorded, where failures are recorded.
    pub fn record_media_failed(&mut self, item: &MediaFileInfo) -> (r: bool)
        requires
            old(self).wf(),
        ensures
            final(self).wf(),
            r == old(self).keeps_going(),
            final(self).failed() == (if r && old(self).eligible(item@) {
                old(self).failed().insert(item@)
            } else {
                old(self).failed()
            }),
            final(self).failures() == (if r && old(self).eligible(item@) {
                match old(self).failures() {
                    Some(fs) => Some(fs.push(FailureRecord::Media(item@.0, item@.1))),
                    None => None,
                }
            } else {
                old(self).failures()
            }),
            final(self).all() == old(self).all(),
            final(self).copied() == old(self).copied(),
            final(self).successful_media() == old(self).successful_media(),
            final(self).total_media() == old(self).total_media(),
            final(self).playlists_done() == old(self).playlists_done(),
            final(self).successful_playlists() == old(self).successful_playlists(),
            final(self).total_playlists() == old(self).total_playlists(),
            final(self).opts() == old(self).opts(),
            final(self).dest() == old(self).dest(),
    {
        if !self.options.keep_going {
            return false;
        }
        if !self.media.media_files_map.contains(item) || self.media.copied_files.contains(item)
            || self.media.failed_files.contains(item) {
            return true;
        }
        self.media.failed_files.insert(item.duplicate());
        match &mut self.tracker {
            Some(t) => {
                t.add_failed_media_file(item.src_basedir.clone(), item.file.clone());
            },
            None => {},
        }
        true
    }

    /// Whether a playlist is left to handle.
    pub fn has_playlists_left(&self) -> (r: bool)
        ensures
            r == (self.playlists_done() < self.total_playlists()),
    {
        self.progress.current_playlist_num < self.progress.total_playlists
    }

    /// The number of the next playlist, counting from one.
    pub fn next_playlist_number(&self) -> (r: usize)
        requires
            self.playlists_done() < self.total_playlists(),
        ensures
            r == self.playlists_done() + 1,
    {
        self.progress.current_playlist_num + 1
    }

    /// The next playlist was copied.
    pub fn record_playlist_copied(&mut self)
        requires
            old(self).wf(),
            old(self).playlists_done() < old(self).total_playlists(),
        ensures
            final(self).wf(),
            final(self).playlists_done() == old(self).playlists_done() + 1,
            final(self).successful_playlists() == old(self).successful_playlists() + 1,
            final(self).total_playlists() == old(self).total_playlists(),
            final(self).all() == old(self).all(),
            final(self).copied() == old(self).copied(),
            final(self).failed() == old(self).failed(),
            final(self).successful_media() == old(self).successful_media(),
            final(self).total_media() == old(self).total_media(),
            final(self).failures() == old(self).failures(),
            final(self).opts() == old(self).opts(),
            final(self).dest() == old(self).dest(),
    {
        self.progress.current_playlist_num = self.progress.current_playlist_num + 1;
        self.progress.successful_playlists = self.progress.successful_playlists + 1;
    }

    /// The next playlist failed: it is recorded where failures are recorded,
    /// and the result says whether the run goes on (keep-going).
    pub fn record_playlist_failed(&mut self, playlist: String) -> (r: bool)
        requires
            old(self).wf(),
            old(self).playlists_done() < old(self).total_playlists(),
        ensures
            final(self).wf(),
            r == old(self).keeps_going(),
            final(self).playlists_done() == old(self).playlists_done() + 1,
            final(self).successful_playlists() == old(self).successful_playlists(),
            final(self).failures() == match old(self).failures() {
                Some(fs) => Some(fs.push(FailureRecord::Playlist(playlist@))),
                None => None,
            },
            final(self).total_playlists() == old(self).total_playlists(),
            final(self).all() == old(self).all(),
            final(self).copied() == old(self).copied(),
            final(self).failed() == old(self).failed(),
            final(self).successful_media() == old(self).successful_media(),
            final(self).total_media() == old(self).total_media(),
            final(self).opts() == old(self).opts(),
            final(self).dest() == old(self).dest(),
    {
        self.progress.current_playlist_num = self.progress.current_playlist_num + 1;
        match &mut self.tracker {
            Some(t) => {
                t.add_failed_playlist(playlist);
            },
            None => {},
        }
        self.options.keep_going
    }

    /// The next playlist's copy was attempted (`copied` tells how it went)
    /// and its entries read where `entry` is given. Where both succeeded it
    /// counts as copied and its pending media items come back; otherwise it
    /// counts as failed, is recorded where failures are recorded, and the run
    /// goes on only with keep-going.
    pub fn playlist_step(
        &mut self,
        playlist: String,
        copied: bool,
        entry: Option<&PlaylistEntry>,
    ) -> (r: PlaylistStep)
        requires
            old(self).wf(),
            old(self).playlists_done() < old(self).total_playlists(),
        ensures
            final(self).wf(),
            final(self).playlists_done() == old(self).playlists_done() + 1,
            copied && entry is Some ==> {
                &&& final(self).successful_playlists() == old(self).successful_playlists() + 1
                &&& final(self).failures() == old(self).failures()
                &&& r matches PlaylistStep::CopyMedia(v) && item_keys(v@) == pending_keys(
                    entry->0.base_dir@,
                    views(entry->0.media@),
                    old(self).all(),
                    old(self).copied().union(old(self).failed()),
                )
            },
            !(copied && entry is Some) ==> {
                &&& final(self).successful_playlists() == old(self).successful_playlists()
                &&& final(self).failures() == match old(self).failures() {
                    Some(fs) => Some(fs.push(FailureRecord::Playlist(playlist@))),
                    None => None,
                }
                &&& r == if old(self).keeps_going() {
                    PlaylistStep::Next
                } else {
                    PlaylistStep::Abort
                }
            },
            final(self).total_playlists() == old(self).total_playlists(),
            final(self).all() == old(self).all(),
            final(self).copied() == old(self).copied(),
            final(self).failed() == old(self).failed(),
            final(self).successful_media() == old(self).successful_media(),
            final(self).total_media() == old(self).total_media(),
            final(self).opts() == old(self).opts(),
            final(self).dest() == old(self).dest(),
    {
        match entry {
            Some(e) => {
                if copied {
                    let pending = self.pending_media(&e.base_dir, &e.media);
                    self.record_playlist_copied();
                    return PlaylistStep::CopyMedia(pending);
                }
            },
            None => {},
        }
        if self.record_playlist_failed(playlist) {
            PlaylistStep::Next
        } else {
            PlaylistStep::Abort
        }
    }

    /// Whether a failed lyrics copy ends the run: it does without
    /// keep-going, and is never recorded.
    pub fn lyrics_failure_is_fatal(&self) -> (r: bool)
        ensures
            r == !self.keeps_going(),
    {
        !self.options.keep_going
    }

    /// The counters: successful and total playlists, successful and total
    /// media items.
    pub fn counters(&self) -> (r: (usize, usize, usize, usize))
        requires
            self.wf(),
        ensures
            r.0 <= r.1,
            r.2 <= r.3,
            r.0 == self.successful_playlists(),
            r.1 == self.total_playlists(),
            r.2 == self.successful_media(),
            r.3 == self.total_media(),
    {
        proof {
            self.media.copied_files.lemma_finite();
            self.media.media_files_map.lemma_finite();
            vstd::set_lib::lemma_len_subset(self.copied(), self.all());
        }
        (
            self.progress.successful_playlists,
            self.progress.total_playlists,
            self.progress.successful_media_files,
            self.progress.total_media_files,
        )
    }

    /// The two summary lines: "(s/t) playlist copied" and
    /// "(s/t) media files copied".
    pub fn summary(&self) -> (r: (String, String))
        ensures
            r.0@ == seq!['('] + decimal(self.successful_playlists()) + seq!['/'] + decimal(
                self.total_playlists(),
            ) + seq![')'] + summary_playlists(),
            r.1@ == seq!['('] + decimal(self.successful_media()) + seq!['/'] + decimal(
                self.total_media(),
            ) + seq![')'] + summary_media(),
    {
        let mut a = String::new();
        crate::text::push_char(&mut a, '(');
        crate::logger::push_decimal(&mut a, self.progress.successful_playlists);
        crate::text::push_char(&mut a, '/');
        crate::logger::push_decimal(&mut a, self.progress.total_playlists);
        crate::text::push_char(&mut a, ')');
        crate::text::push_str(&mut a, " playlist copied");
        let mut b = String::new();
        crate::text::push_char(&mut b, '(');
        crate::logger::push_decimal(&mut b, self.progress.successful_media_files);
        crate::text::push_char(&mut b, '/');
        crate::logger::push_decimal(&mut b, self.progress.total_media_files);
        crate::text::push_char(&mut b, ')');
        crate::text::push_str(&mut b, " media files copied");
        proof {
            reveal_strlit(" playlist copied");
            reveal_strlit(" media files copied");
        }
        (a, b)
    }

    /// The failures recorded, where failures are recorded.
    pub fn into_tracker(self) -> (r: Option<ErrorTracker>)
        ensures
            match r {
                Some(t) => self.failures() == Some(t@),
                None => self.failures() is None,
            },
    {
        self.tracker
    }
}

/// " playlist copied".
pub open spec fn summary_playlists() -> Seq<char> {
    seq![' ', 'p', 'l', 'a', 'y', 'l', 'i', 's', 't', ' ', 'c', 'o', 'p', 'i', 'e', 'd']
}

/// " media files copied".
pub open spec fn summary_media() -> Seq<char> {
    seq![
        ' ',
        'm',
        'e',
        'd',
        'i',
        'a',
        ' ',
        'f',
        'i',
        'l',
        'e',
        's',
        ' ',
        'c',
        'o',
        'p',
        'i',
        'e',
        'd',
    ]
}

/// The logged media items that name no file already named by one of the
/// playlists' items.
pub open spec fn new_logged(logged: Seq<MediaKey>, listed: Set<MediaKey>) -> Set<MediaKey> {
    Set::new(|k: MediaKey| logged.contains(k) && !path_in(listed, crate::paths::join(k.0, k.1)))
}

/// The media items of a retry run: those of the retried playlists, and the
/// logged media items whose file none of those already names.
pub fn retry_media_set(playlists: &Vec<PlaylistEntry>, media: &Vec<(String, String)>) -> (r:
    MediaSet)
    ensures
        r.wf(),
        r@ == union_keys(crate::media_set::entry_views(playlists@)).union(
            new_logged(
                media@.map_values(|m: (String, String)| (m.0@, m.1@)),
                union_keys(crate::media_set::entry_views(playlists@)),
            ),
        ),
{
    let listed = crate::media_set::collect_media(playlists);
    let mut set = crate::media_set::collect_media(playlists);
    let ghost base = set@;
    let ghost mv = media@.map_values(|m: (String, String)| (m.0@, m.1@));
    let mut i: usize = 0;
    while i < media.len()
        invariant
            i <= media.len(),
            set.wf(),
            listed@ == base,
            mv == media@.map_values(|m: (String, String)| (m.0@, m.1@)),
            set@ == base.union(new_logged(mv.take(i as int), base)),
        decreases media.len() - i,
    {
        let item = MediaFileInfo::new(media[i].0.clone(), media[i].1.clone());
        let ghost k = item@;
        let path = item.source_path();
        let named = listed.contains_path(&path);
        if !named {
            set.insert(item);
        }
        proof {
            let prev = mv.take(i as int);
            let next = mv.take(i + 1);
            assert(next =~= prev.push(k));
            assert forall|x: MediaKey| next.contains(x) <==> (prev.contains(x) || x == k) by {
                if next.contains(x) {
                    let j = choose|j: int| 0 <= j < next.len() && next[j] == x;
                    if j < prev.len() {
                        assert(prev[j] == x);
                    }
                }
                if prev.contains(x) {
                    let j = choose|j: int| 0 <= j < prev.len() && prev[j] == x;
                    assert(next[j] == x);
                }
                if x == k {
                    assert(next[i as int] == x);
                }
            }
            assert(set@ =~= base.union(new_logged(next, base)));
        }
        i = i + 1;
    }
    assert(mv.take(i as int) =~= mv);
    set
}

} // verus!
