//! Sets of media items without duplicates, and the resolution of parsed
//! playlists into the set of all the media items they name.
use vstd::prelude::*;
use crate::media_file_info::MediaFileInfo;
use crate::playlist_scanner::entries;
use crate::text::views;

verus! {

/// The identity of a media item: base directory and relative path.
pub type MediaKey = (Seq<char>, Seq<char>);

/// Whether some item of `s` has `p` as its base and relative path joined.
pub open spec fn path_in(s: Set<MediaKey>, p: Seq<char>) -> bool {
    exists|k: MediaKey| #[trigger] s.contains(k) && crate::paths::join(k.0, k.1) == p
}

/// A set of media items, each held once, in the order they were added.
pub struct MediaSet {
    items: Vec<MediaFileInfo>,
}

impl MediaSet {
    /// The keys of the items, in order.
    pub closed spec fn keys(&self) -> Seq<MediaKey> {
        self.items@.map_values(|m: MediaFileInfo| m@)
    }

    /// No item is held twice.
    pub closed spec fn wf(&self) -> bool {
        self.keys().no_duplicates()
    }
}

impl View for MediaSet {
    type V = Set<MediaKey>;

    closed spec fn view(&self) -> Set<MediaKey> {
        self.keys().to_set()
    }
}

impl MediaSet {
    /// An empty set.
    pub fn new() -> (r: Self)
        ensures
            r.wf(),
            r@ == Set::<MediaKey>::empty(),
    {
        let r = MediaSet { items: Vec::new() };
        assert(r.keys() =~= Seq::<MediaKey>::empty());
        assert(r@ =~= Set::<MediaKey>::empty());
        r
    }

    /// Whether the set holds `item`.
    pub fn contains(&self, item: &MediaFileInfo) -> (r: bool)
        ensures
            r == self@.contains(item@),
    {
        let mut i: usize = 0;
        while i < self.items.len()
            invariant
                i <= self.items.len(),
                forall|j: int| 0 <= j < i ==> self.keys()[j] != item@,
            decreases self.items.len() - i,
        {
            let m = &self.items[i];
            if m.src_basedir == item.src_basedir && m.file == item.file {
                assert(self.keys()[i as int] == item@);
                return true;
            }
            i = i + 1;
        }
        proof {
            if self.keys().to_set().contains(item@) {
                let j = self.keys().index_of(item@);
                self.keys().index_of_first_ensures(item@);
            }
        }
        false
    }

    /// Adds `item`; returns whether it was new.
    pub fn insert(&mut self, item: MediaFileInfo) -> (r: bool)
        requires
            old(self).wf(),
        ensures
            final(self).wf(),
            final(self)@ == old(self)@.insert(item@),
            r == !old(self)@.contains(item@),
    {
        if self.contains(&item) {
            assert(self@.insert(item@) =~= self@);
            return false;
        }
        let ghost k = item@;
        let ghost before = self.keys();
        self.items.push(item);
        proof {
            assert(self.keys() =~= before + seq![k]);
            assert(!before.contains(k));
            Seq::lemma_to_set_insert_commutes(before, k);
        }
        true
    }

    /// Whether some item of the set names the file at `path`: its base and
    /// relative path joined are `path`.
    pub fn contains_path(&self, path: &String) -> (r: bool)
        ensures
            r == path_in(self@, path@),
    {
        let mut i: usize = 0;
        while i < self.items.len()
            invariant
                i <= self.items.len(),
                forall|j: int|
                    0 <= j < i ==> crate::paths::join(#[trigger] self.keys()[j].0, self.keys()[j].1)
                        != path@,
            decreases self.items.len() - i,
        {
            let m = &self.items[i];
            let full = crate::paths::join_path(m.src_basedir.as_str(), m.file.as_str());
            if full == *path {
                proof {
                    let k = self.keys()[i as int];
                    assert(self.keys().contains(k));
                    assert(self@.contains(k));
                }
                return true;
            }
            i = i + 1;
        }
        proof {
            if path_in(self@, path@) {
                let k = choose|k: MediaKey| #[trigger] self@.contains(k) && crate::paths::join(k.0, k.1)
                    == path@;
                let j = self.keys().index_of(k);
                self.keys().index_of_first_ensures(k);
            }
        }
        false
    }

    /// The set is finite.
    pub proof fn lemma_finite(&self)
        ensures
            self@.finite(),
    {
        vstd::seq_lib::seq_to_set_is_finite(self.keys());
    }

    /// The number of items.
    pub fn len(&self) -> (r: usize)
        requires
            self.wf(),
        ensures
            r == self@.len(),
            self@.finite(),
    {
        proof {
            self.keys().unique_seq_to_set();
        }
        self.items.len()
    }
}

/// A playlist that was read: its path, the directory its entries are
/// relative to (the playlist's own directory), and its media paths in order.
pub struct PlaylistEntry {
    pub path: String,
    pub base_dir: String,
    pub media: Vec<String>,
}

impl View for PlaylistEntry {
    type V = (Seq<char>, Seq<Seq<char>>);

    open spec fn view(&self) -> (Seq<char>, Seq<Seq<char>>) {
        (self.base_dir@, views(self.media@))
    }
}

/// The media items that one playlist names.
pub open spec fn keys_of(base: Seq<char>, media: Seq<Seq<char>>) -> Set<MediaKey> {
    Set::new(|k: MediaKey| k.0 == base && media.contains(k.1))
}

/// The media items that a sequence of playlists name, all together.
pub open spec fn union_keys(es: Seq<(Seq<char>, Seq<Seq<char>>)>) -> Set<MediaKey>
    decreases es.len(),
{
    if es.len() == 0 {
        Set::empty()
    } else {
        union_keys(es.drop_last()).union(keys_of(es.last().0, es.last().1))
    }
}

/// The views of a sequence of playlist entries.
pub open spec fn entry_views(es: Seq<PlaylistEntry>) -> Seq<(Seq<char>, Seq<Seq<char>>)> {
    es.map_values(|e: PlaylistEntry| e@)
}

/// A playlist at `path` with the given lines: its directory and its entries.
pub fn resolve_playlist(path: &str, lines: &Vec<String>) -> (r: PlaylistEntry)
    ensures
        r.path@ == path@,
        r.base_dir@ == crate::paths::dir_part(path@),
        views(r.media@) == entries(views(lines@)),
{
    let base_dir = crate::paths::parent_dir(path);
    let media = crate::playlist_scanner::read_playlist(lines);
    let mut p = String::new();
    crate::text::push_str(&mut p, path);
    PlaylistEntry { path: p, base_dir, media }
}

/// Adds the items of one playlist to `set`.
pub fn add_playlist_media(set: &mut MediaSet, base: &String, media: &Vec<String>)
    requires
        old(set).wf(),
    ensures
        final(set).wf(),
        final(set)@ == old(set)@.union(keys_of(base@, views(media@))),
{
    let mut i: usize = 0;
    while i < media.len()
        invariant
            i <= media.len(),
            set.wf(),
            set@ == old(set)@.union(keys_of(base@, views(media@).take(i as int))),
        decreases media.len() - i,
    {
        let item = MediaFileInfo::new(base.clone(), media[i].clone());
        let ghost k = item@;
        set.insert(item);
        proof {
            let prev = views(media@).take(i as int);
            let next = views(media@).take(i + 1);
            assert(next =~= prev.push(media@[i as int]@));
            assert forall|x: Seq<char>| next.contains(x) <==> (prev.contains(x) || x == k.1) by {
                if next.contains(x) {
                    let j = choose|j: int| 0 <= j < next.len() && next[j] == x;
                    if j < prev.len() {
                        assert(prev[j] == x);
                    }
                }
                if prev.contains(x) {
                    let j = choose|j: int| 0 <= j < prev.len() && prev[j] == x;
                    assert(next[j] == x);
                }
                if x == k.1 {
                    assert(next[i as int] == x);
                }
            }
            assert(set@ =~= old(set)@.union(keys_of(base@, next)));
        }
        i = i + 1;
    }
    assert(views(media@).take(i as int) =~= views(media@));
}

/// All the media items that the playlists name, each once: the set whose
/// size is the total of a run.
pub fn collect_media(playlists: &Vec<PlaylistEntry>) -> (r: MediaSet)
    ensures
        r.wf(),
        r@ == union_keys(entry_views(playlists@)),
{
    let mut set = MediaSet::new();
    let mut i: usize = 0;
    while i < playlists.len()
        invariant
            i <= playlists.len(),
            set.wf(),
            set@ == union_keys(entry_views(playlists@).take(i as int)),
        decreases playlists.len() - i,
    {
        add_playlist_media(&mut set, &playlists[i].base_dir, &playlists[i].media);
        proof {
            let es = entry_views(playlists@).take(i + 1);
            assert(es.drop_last() =~= entry_views(playlists@).take(i as int));
            assert(es.last() == playlists@[i as int]@);
        }
        i = i + 1;
    }
    assert(entry_views(playlists@).take(i as int) =~= entry_views(playlists@));
    set
}

} // verus!
