//! The ordered record of failures in a run, its text form (one line per
//! record, "P <playlist>" or "M <media path>"), and reading that text back.
use vstd::prelude::*;
use crate::paths::{dir_part, file_part, join};
use crate::text::{is_ws, lines_of, occurs_at, find, find_from, trim, views};

verus! {

/// A failure as the log records it.
pub enum FailureRecord {
    Playlist(Seq<char>),
    Media(Seq<char>, Seq<char>),
}

/// One failed operation: a playlist path, or a media item as base directory
/// and relative path.
#[derive(Debug)]
pub enum FailureType {
    Playlist(String),
    MediaFile(String, String),
}

impl View for FailureType {
    type V = FailureRecord;

    open spec fn view(&self) -> FailureRecord {
        match self {
            FailureType::Playlist(p) => FailureRecord::Playlist(p@),
            FailureType::MediaFile(b, f) => FailureRecord::Media(b@, f@),
        }
    }
}

/// The views of a sequence of failures.
pub open spec fn failure_views(v: Seq<FailureType>) -> Seq<FailureRecord> {
    v.map_values(|f: FailureType| f@)
}

/// The library root that the log's media paths are split at.
pub open spec fn marker() -> Seq<char> {
    seq!['/', 'M', 'U', 'S', 'I', 'C', '/']
}

/// The line that records one failure, without its newline.
pub open spec fn record_line(f: FailureRecord) -> Seq<char> {
    match f {
        FailureRecord::Playlist(p) => seq!['P', ' '] + p,
        FailureRecord::Media(b, r) => seq!['M', ' '] + join(b, r),
    }
}

/// The text of a log: each record's line followed by a newline.
pub open spec fn serialize(fs: Seq<FailureRecord>) -> Seq<char>
    decreases fs.len(),
{
    if fs.len() == 0 {
        seq![]
    } else {
        record_line(fs[0]) + seq!['\n'] + serialize(fs.drop_first())
    }
}

/// The media item that a logged media path stands for: at the first
/// "/MUSIC/", the base is everything up to and including that segment and
/// the relative path is what follows it; without one, the path is split at
/// its last '/'. A path that leaves no relative part names nothing. Either
/// way base and relative path join back into the logged path (see
/// `lemma_media_path`), which is how a retry recognises a file already
/// copied under another split.
pub open spec fn media_from_path(p: Seq<char>) -> Option<FailureRecord> {
    let i = find(p, marker());
    if i >= 0 {
        let rel = p.skip(i + 7);
        if rel.len() == 0 {
            None
        } else {
            Some(FailureRecord::Media(p.take(i + 7), rel))
        }
    } else {
        let name = file_part(p);
        if name.len() == 0 {
            None
        } else {
            Some(FailureRecord::Media(dir_part(p), name))
        }
    }
}

/// The record that one log line holds, if any.
pub open spec fn parse_line(l: Seq<char>) -> Option<FailureRecord> {
    if l.len() >= 2 && l[0] == 'P' && l[1] == ' ' {
        Some(FailureRecord::Playlist(trim(l.skip(2))))
    } else if l.len() >= 2 && l[0] == 'M' && l[1] == ' ' {
        media_from_path(trim(l.skip(2)))
    } else {
        None
    }
}

/// The records that a sequence of log lines hold, in order.
pub open spec fn parse_lines(ls: Seq<Seq<char>>) -> Seq<FailureRecord>
    decreases ls.len(),
{
    if ls.len() == 0 {
        seq![]
    } else {
        match parse_line(ls[0]) {
            Some(f) => seq![f] + parse_lines(ls.drop_first()),
            None => parse_lines(ls.drop_first()),
        }
    }
}

/// The records of a log text, in order.
pub open spec fn parse_log(text: Seq<char>) -> Seq<FailureRecord> {
    parse_lines(lines_of(text))
}

/// The playlist paths among the records, in order.
pub open spec fn playlists_of(fs: Seq<FailureRecord>) -> Seq<Seq<char>>
    decreases fs.len(),
{
    if fs.len() == 0 {
        seq![]
    } else {
        playlists_of(fs.drop_last()) + match fs.last() {
            FailureRecord::Playlist(p) => seq![p],
            FailureRecord::Media(_, _) => seq![],
        }
    }
}

/// The media items among the records, in order.
pub open spec fn media_of(fs: Seq<FailureRecord>) -> Seq<(Seq<char>, Seq<char>)>
    decreases fs.len(),
{
    if fs.len() == 0 {
        seq![]
    } else {
        media_of(fs.drop_last()) + match fs.last() {
            FailureRecord::Playlist(_) => seq![],
            FailureRecord::Media(b, r) => seq![(b, r)],
        }
    }
}

/// No newline inside, no whitespace at either end.
pub open spec fn line_safe(s: Seq<char>) -> bool {
    &&& !s.contains('\n')
    &&& (s.len() == 0 || (!is_ws(s[0]) && !is_ws(s.last())))
}

/// A media item whose logged path leads back to the same base directory and
/// relative path: either the base ends in the one "/MUSIC/" it holds, or the
/// path holds no "/MUSIC/" and the relative part is a bare file name.
pub open spec fn recoverable(b: Seq<char>, r: Seq<char>) -> bool {
    let full = join(b, r);
    &&& line_safe(full)
    &&& r.len() > 0
    &&& {
        ||| (b.len() >= 7 && b.skip(b.len() - 7) == marker() && r[0] != '/' && forall|j: int|
            0 <= j < b.len() - 7 ==> !#[trigger] occurs_at(b, marker(), j))
        ||| (!r.contains('/') && (b.len() == 0 || b == seq!['/'] || b.last() != '/')
            && forall|j: int| !#[trigger] occurs_at(full, marker(), j))
    }
}

/// A record that its line gives back unchanged.
pub open spec fn record_safe(f: FailureRecord) -> bool {
    match f {
        FailureRecord::Playlist(p) => line_safe(p),
        FailureRecord::Media(b, r) => recoverable(b, r),
    }
}

/// Writing one more record appends its line and a newline.
pub proof fn lemma_serialize_push(fs: Seq<FailureRecord>, f: FailureRecord)
    ensures
        serialize(fs.push(f)) == serialize(fs) + record_line(f) + seq!['\n'],
    decreases fs.len(),
{
    if fs.len() == 0 {
        assert(serialize(fs.push(f).drop_first()) == Seq::<char>::empty()) by {
            assert(fs.push(f).drop_first() =~= Seq::<FailureRecord>::empty());
        }
        assert(serialize(fs.push(f)) =~= record_line(f) + seq!['\n']);
        assert(serialize(fs) + record_line(f) + seq!['\n'] =~= record_line(f) + seq!['\n']);
    } else {
        lemma_serialize_push(fs.drop_first(), f);
        assert(fs.push(f).drop_first() =~= fs.drop_first().push(f));
        assert(serialize(fs.push(f)) =~= serialize(fs) + record_line(f) + seq!['\n']);
    }
}

/// Reading one more line appends the record it holds, if any.
pub proof fn lemma_parse_lines_push(ls: Seq<Seq<char>>, l: Seq<char>)
    ensures
        parse_lines(ls.push(l)) == parse_lines(ls) + match parse_line(l) {
            Some(f) => seq![f],
            None => seq![],
        },
    decreases ls.len(),
{
    if ls.len() == 0 {
        assert(ls.push(l).drop_first() =~= Seq::<Seq<char>>::empty());
        assert(parse_lines(Seq::<Seq<char>>::empty()) == Seq::<FailureRecord>::empty());
        assert(parse_lines(ls) == Seq::<FailureRecord>::empty());
        assert(ls.push(l)[0] == l);
        match parse_line(l) {
            Some(f) => {
                assert(parse_lines(ls.push(l)) =~= parse_lines(ls) + seq![f]);
            },
            None => {
                assert(parse_lines(ls.push(l)) =~= parse_lines(ls) + Seq::<FailureRecord>::empty());
            },
        }
    } else {
        lemma_parse_lines_push(ls.drop_first(), l);
        assert(ls.push(l).drop_first() =~= ls.drop_first().push(l));
        assert(ls.push(l)[0] == ls[0]);
        match parse_line(l) {
            Some(f) => {
                assert(parse_lines(ls.push(l)) =~= parse_lines(ls) + seq![f]);
            },
            None => {
                assert(parse_lines(ls.push(l)) =~= parse_lines(ls) + Seq::<FailureRecord>::empty());
            },
        }
    }
}

/// A recoverable media item is split back into its own base and path.
pub proof fn lemma_media_line(b: Seq<char>, r: Seq<char>)
    requires
        recoverable(b, r),
    ensures
        media_from_path(join(b, r)) == Some(FailureRecord::Media(b, r)),
{
    let full = join(b, r);
    let m = marker();
    if b.len() >= 7 && b.skip(b.len() - 7) == m && r[0] != '/' && forall|j: int|
        0 <= j < b.len() - 7 ==> !#[trigger] occurs_at(b, m, j) {
        assert(b.last() == b.skip(b.len() - 7)[6]);
        assert(full == b + r);
        let k = b.len() - 7;
        assert forall|j: int| 0 <= j < k implies !occurs_at(full, m, j) by {
            assert(full.subrange(j, j + 7) =~= b.subrange(j, j + 7));
            assert(!occurs_at(b, m, j));
        }
        assert(full.subrange(k, k + 7) =~= b.skip(k));
        crate::text::lemma_find_from(full, m, 0, k);
        assert(full.take(k + 7) =~= b);
        assert(full.skip(k + 7) =~= r);
        assert(media_from_path(full) == Some(FailureRecord::Media(b, r)));
    } else {
        crate::text::lemma_find_from(full, m, 0, full.len() as int);
        assert forall|j: int| 0 <= j < r.len() implies r[j] != '/' by {
            if r[j] == '/' {
                assert(r.contains('/'));
            }
        }
        if b.len() == 0 {
            assert(b =~= Seq::<char>::empty());
            assert(full == r);
            crate::paths::lemma_last_of(full, '/', -1);
            assert(full.skip(0) =~= full);
            assert(media_from_path(full) == Some(FailureRecord::Media(b, r)));
        } else if b == seq!['/'] {
            assert(full =~= seq!['/'] + r);
            assert forall|j: int| 0 < j < full.len() implies full[j] != '/' by {
                assert(full[j] == r[j - 1]);
            }
            crate::paths::lemma_last_of(full, '/', 0);
            assert(full.skip(1) =~= r);
            assert(media_from_path(full) == Some(FailureRecord::Media(b, r)));
        } else {
            assert(full =~= b + seq!['/'] + r);
            assert forall|j: int| b.len() < j < full.len() implies full[j] != '/' by {
                assert(full[j] == r[j - b.len() - 1]);
            }
            crate::paths::lemma_last_of(full, '/', b.len() as int);
            assert(full.skip(b.len() as int + 1) =~= r);
            assert(full.take(b.len() as int) =~= b);
            assert(media_from_path(full) == Some(FailureRecord::Media(b, r)));
        }
    }
}

/// A safe record's line holds no newline and reads back as the record.
pub proof fn lemma_record_line(f: FailureRecord)
    requires
        record_safe(f),
    ensures
        !record_line(f).contains('\n'),
        crate::text::strip_cr(record_line(f)) == record_line(f),
        parse_line(record_line(f)) == Some(f),
{
    let l = record_line(f);
    let body = match f {
        FailureRecord::Playlist(p) => p,
        FailureRecord::Media(b, r) => join(b, r),
    };
    assert(l =~= seq![l[0], ' '] + body);
    assert(l.skip(2) =~= body);
    crate::text::lemma_trim_unchanged(body);
    if l.contains('\n') {
        let j = choose|j: int| 0 <= j < l.len() && l[j] == '\n';
        assert(body[j - 2] == '\n');
    }
    if body.len() > 0 {
        assert(l.last() == body.last());
    }
    match f {
        FailureRecord::Playlist(p) => {},
        FailureRecord::Media(b, r) => {
            lemma_media_line(b, r);
        },
    }
}

/// A log read back gives the records that were written, in order, for
/// records whose paths hold no newline or edge whitespace and whose media
/// paths can be split back into base directory and relative path.
pub proof fn lemma_log_round_trip(fs: Seq<FailureRecord>)
    requires
        forall|i: int| 0 <= i < fs.len() ==> record_safe(#[trigger] fs[i]),
    ensures
        parse_log(serialize(fs)) == fs,
    decreases fs.len(),
{
    if fs.len() > 0 {
        let rest = fs.drop_first();
        assert forall|i: int| 0 <= i < rest.len() implies record_safe(#[trigger] rest[i]) by {
            assert(rest[i] == fs[i + 1]);
        }
        lemma_log_round_trip(rest);
        assert(record_safe(fs[0]));
        lemma_record_line(fs[0]);
        crate::text::lemma_lines_cons(record_line(fs[0]), serialize(rest));
        let ls = lines_of(serialize(fs));
        assert(ls == seq![record_line(fs[0])] + lines_of(serialize(rest)));
        assert(ls.drop_first() =~= lines_of(serialize(rest)));
        assert(parse_lines(ls) =~= seq![fs[0]] + rest);
        assert(seq![fs[0]] + rest =~= fs);
    } else {
        assert(serialize(fs) =~= Seq::<char>::empty());
    }
}

/// No two '/' in a row.
pub open spec fn no_double_slash(p: Seq<char>) -> bool {
    forall|j: int| 0 <= j < p.len() - 1 && #[trigger] p[j] == '/' ==> p[j + 1] != '/'
}

/// The path that a record names: a playlist's, or a media item's base and
/// relative path joined.
pub open spec fn record_path(f: FailureRecord) -> Seq<char> {
    match f {
        FailureRecord::Playlist(p) => p,
        FailureRecord::Media(b, r) => join(b, r),
    }
}

/// Whether two records are of the same kind.
pub open spec fn same_kind(f: FailureRecord, g: FailureRecord) -> bool {
    (f is Playlist) == (g is Playlist)
}

/// A record whose path fits on one log line: no newline, no whitespace at
/// its ends; a media path is moreover not empty, does not end in '/' and
/// has no empty component.
pub open spec fn path_safe(f: FailureRecord) -> bool {
    let p = record_path(f);
    &&& line_safe(p)
    &&& (f is Media ==> p.len() > 0 && p.last() != '/' && no_double_slash(p))
}

/// A search that finds something finds an occurrence.
pub proof fn lemma_find_found(s: Seq<char>, pat: Seq<char>, i: int)
    ensures
        find_from(s, pat, i) >= 0 ==> occurs_at(s, pat, find_from(s, pat, i)),
    decreases s.len() + 1 - i,
{
    if i >= 0 && i + pat.len() <= s.len() && !occurs_at(s, pat, i) {
        lemma_find_found(s, pat, i + 1);
    }
}

/// The last `c` is at `last_of`, and none follows it.
pub proof fn lemma_last_of_bounds(s: Seq<char>, c: char)
    ensures
        -1 <= crate::paths::last_of(s, c) < s.len(),
        crate::paths::last_of(s, c) >= 0 ==> s[crate::paths::last_of(s, c)] == c,
        forall|j: int| crate::paths::last_of(s, c) < j < s.len() ==> s[j] != c,
    decreases s.len(),
{
    if s.len() > 0 && s.last() != c {
        lemma_last_of_bounds(s.drop_last(), c);
        assert forall|j: int| crate::paths::last_of(s, c) < j < s.len() implies s[j] != c by {
            if j < s.len() - 1 {
                assert(s[j] == s.drop_last()[j]);
            }
        }
    }
}

/// A media path read from the log is split into a base and a relative path
/// that join back into the same path.
pub proof fn lemma_media_path(p: Seq<char>)
    requires
        p.len() > 0,
        p.last() != '/',
        no_double_slash(p),
    ensures
        media_from_path(p) matches Some(FailureRecord::Media(b, r)) && join(b, r) == p,
{
    let m = marker();
    let i = find(p, m);
    if i >= 0 {
        lemma_find_found(p, m, 0);
        assert(p[i + 6] == p.subrange(i, i + 7)[6]);
        assert(p[i + 5] == p.subrange(i, i + 7)[5]);
        let r = p.skip(i + 7);
        let b = p.take(i + 7);
        if r.len() == 0 {
            assert(p.last() == p[i + 6]);
        } else {
            assert(r[0] == p[i + 7]);
            assert(b.last() == p[i + 6]);
            assert(b + r =~= p);
        }
    } else {
        lemma_last_of_bounds(p, '/');
        let k = crate::paths::last_of(p, '/');
        let name = p.skip(k + 1);
        if name.len() > 0 {
            assert(name[0] == p[k + 1]);
            if k < 0 {
                assert(name =~= p);
            } else if k == 0 {
                assert(seq!['/'] + name =~= p);
            } else {
                let b = p.take(k);
                assert(b.last() == p[k - 1]);
                assert(b + seq!['/'] + name =~= p);
            }
        }
    }
}

/// The line of a record whose path fits reads back as a record of the same
/// kind and path.
pub proof fn lemma_record_path(f: FailureRecord)
    requires
        path_safe(f),
    ensures
        !record_line(f).contains('\n'),
        crate::text::strip_cr(record_line(f)) == record_line(f),
        parse_line(record_line(f)) matches Some(g) && same_kind(g, f) && record_path(g)
            == record_path(f),
{
    let l = record_line(f);
    let body = record_path(f);
    assert(l =~= seq![l[0], ' '] + body);
    assert(l.skip(2) =~= body);
    crate::text::lemma_trim_unchanged(body);
    if l.contains('\n') {
        let j = choose|j: int| 0 <= j < l.len() && l[j] == '\n';
        assert(body[j - 2] == '\n');
    }
    if body.len() > 0 {
        assert(l.last() == body.last());
    }
    match f {
        FailureRecord::Playlist(p) => {},
        FailureRecord::Media(b, r) => {
            lemma_media_path(body);
        },
    }
}

/// A log read back gives, for every record written whose path fits on a
/// line, a record of the same kind naming the same path, in the same order.
pub proof fn lemma_log_paths_round_trip(fs: Seq<FailureRecord>)
    requires
        forall|i: int| 0 <= i < fs.len() ==> path_safe(#[trigger] fs[i]),
    ensures
        parse_log(serialize(fs)).len() == fs.len(),
        forall|i: int|
            0 <= i < fs.len() ==> same_kind(#[trigger] parse_log(serialize(fs))[i], fs[i])
                && record_path(parse_log(serialize(fs))[i]) == record_path(fs[i]),
    decreases fs.len(),
{
    if fs.len() > 0 {
        let rest = fs.drop_first();
        assert forall|i: int| 0 <= i < rest.len() implies path_safe(#[trigger] rest[i]) by {
            assert(rest[i] == fs[i + 1]);
        }
        lemma_log_paths_round_trip(rest);
        assert(path_safe(fs[0]));
        lemma_record_path(fs[0]);
        crate::text::lemma_lines_cons(record_line(fs[0]), serialize(rest));
        let ls = lines_of(serialize(fs));
        assert(ls == seq![record_line(fs[0])] + lines_of(serialize(rest)));
        assert(ls.drop_first() =~= lines_of(serialize(rest)));
        let g = parse_line(record_line(fs[0]))->0;
        let out = parse_log(serialize(fs));
        assert(out =~= seq![g] + parse_log(serialize(rest)));
        assert forall|i: int| 0 <= i < fs.len() implies same_kind(#[trigger] out[i], fs[i])
            && record_path(out[i]) == record_path(fs[i]) by {
            if i > 0 {
                assert(out[i] == parse_log(serialize(rest))[i - 1]);
                assert(fs[i] == rest[i - 1]);
            }
        }
    } else {
        assert(serialize(fs) =~= Seq::<char>::empty());
    }
}

/// The failures of a run, in the order they happened.
pub struct ErrorTracker {
    failures: Vec<FailureType>,
}

impl View for ErrorTracker {
    type V = Seq<FailureRecord>;

    closed spec fn view(&self) -> Seq<FailureRecord> {
        failure_views(self.failures@)
    }
}

impl ErrorTracker {
    /// A tracker with no failures.
    pub fn new() -> (r: Self)
        ensures
            r@ == Seq::<FailureRecord>::empty(),
    {
        let r = ErrorTracker { failures: Vec::new() };
        assert(r@ =~= Seq::<FailureRecord>::empty());
        r
    }

    /// Records a playlist that failed.
    pub fn add_failed_playlist(&mut self, playlist: String)
        ensures
            final(self)@ == old(self)@.push(FailureRecord::Playlist(playlist@)),
    {
        self.failures.push(FailureType::Playlist(playlist));
        assert(self@ =~= old(self)@.push(FailureRecord::Playlist(playlist@)));
    }

    /// Records a media item that failed.
    pub fn add_failed_media_file(&mut self, src_basedir: String, file: String)
        ensures
            final(self)@ == old(self)@.push(FailureRecord::Media(src_basedir@, file@)),
    {
        let ghost k = FailureRecord::Media(src_basedir@, file@);
        self.failures.push(FailureType::MediaFile(src_basedir, file));
        assert(self@ =~= old(self)@.push(k));
    }

    /// The number of failures recorded.
    pub fn len(&self) -> (r: usize)
        ensures
            r == self@.len(),
    {
        self.failures.len()
    }

    /// The text of the log: one line per failure, in order.
    pub fn log_text(&self) -> (r: String)
        ensures
            r@ == serialize(self@),
    {
        let mut out = String::new();
        let mut i: usize = 0;
        while i < self.failures.len()
            invariant
                i <= self.failures.len(),
                out@ == serialize(self@.take(i as int)),
            decreases self.failures.len() - i,
        {
            match &self.failures[i] {
                FailureType::Playlist(p) => {
                    crate::text::push_char(&mut out, 'P');
                    crate::text::push_char(&mut out, ' ');
                    crate::text::push_str(&mut out, p.as_str());
                },
                FailureType::MediaFile(b, f) => {
                    let full = crate::paths::join_path(b.as_str(), f.as_str());
                    crate::text::push_char(&mut out, 'M');
                    crate::text::push_char(&mut out, ' ');
                    crate::text::push_str(&mut out, full.as_str());
                },
            }
            crate::text::push_char(&mut out, '\n');
            proof {
                let t = self@.take(i as int);
                lemma_serialize_push(t, self@[i as int]);
                assert(self@.take(i + 1) =~= t.push(self@[i as int]));
                assert(out@ =~= serialize(t) + record_line(self@[i as int]) + seq!['\n']);
            }
            i = i + 1;
        }
        assert(self@.take(i as int) =~= self@);
        out
    }
}

/// The media item for a logged media path, if it names one.
pub fn media_from_logged_path(v: &Vec<char>) -> (r: Option<FailureType>)
    ensures
        r matches Some(f) ==> media_from_path(v@) == Some(f@),
        r is None ==> media_from_path(v@) is None,
{
    let m = vec!['/', 'M', 'U', 'S', 'I', 'C', '/'];
    assert(m@ =~= marker());
    match crate::text::find_chars(v, &m) {
        Some(k) => {
            if k + 7 == v.len() {
                None
            } else {
                let base = crate::text::string_of(v, 0, k + 7);
                let rel = crate::text::string_of(v, k + 7, v.len());
                assert(base@ =~= v@.take(k + 7));
                assert(rel@ =~= v@.skip(k + 7));
                Some(FailureType::MediaFile(base, rel))
            }
        },
        None => {
            let p = crate::text::string_of(v, 0, v.len());
            assert(p@ =~= v@);
            let name = crate::paths::file_name(p.as_str());
            let name_chars = crate::text::chars_of(name.as_str());
            if name_chars.len() == 0 {
                None
            } else {
                let base = crate::paths::parent_dir(p.as_str());
                Some(FailureType::MediaFile(base, name))
            }
        },
    }
}

/// The record that one log line holds, if any.
pub fn parse_log_line(line: &String) -> (r: Option<FailureType>)
    ensures
        r matches Some(f) ==> parse_line(line@) == Some(f@),
        r is None ==> parse_line(line@) is None,
{
    let v = crate::text::chars_of(line.as_str());
    if v.len() >= 2 && v[0] == 'P' && v[1] == ' ' {
        let p = crate::text::trim_from(&v, 2);
        Some(FailureType::Playlist(p))
    } else if v.len() >= 2 && v[0] == 'M' && v[1] == ' ' {
        let p = crate::text::trim_from(&v, 2);
        let pv = crate::text::chars_of(p.as_str());
        media_from_logged_path(&pv)
    } else {
        None
    }
}

/// The records of a log text, in the order they were written; lines that
/// are neither "P " nor "M " records are passed over.
pub fn parse_failure_log(text: &str) -> (r: Vec<FailureType>)
    ensures
        failure_views(r@) == parse_log(text@),
{
    let ls = crate::text::split_lines(text);
    let mut r: Vec<FailureType> = Vec::new();
    let mut i: usize = 0;
    while i < ls.len()
        invariant
            i <= ls.len(),
            views(ls@) == lines_of(text@),
            failure_views(r@) == parse_lines(views(ls@).take(i as int)),
        decreases ls.len() - i,
    {
        let parsed = parse_log_line(&ls[i]);
        proof {
            let t = views(ls@).take(i as int);
            lemma_parse_lines_push(t, ls@[i as int]@);
            assert(views(ls@).take(i + 1) =~= t.push(ls@[i as int]@));
        }
        match parsed {
            Some(f) => {
                let ghost fv = f@;
                r.push(f);
                assert(failure_views(r@) =~= parse_lines(views(ls@).take(i as int)) + seq![fv]);
            },
            None => {
                assert(parse_lines(views(ls@).take(i as int)) + seq![] =~= parse_lines(
                    views(ls@).take(i as int),
                ));
            },
        }
        i = i + 1;
    }
    assert(views(ls@).take(i as int) =~= views(ls@));
    r
}

/// The playlists and the media items of a log text, each in log order.
pub fn parse_error_file(text: &str) -> (r: (Vec<String>, Vec<(String, String)>))
    ensures
        views(r.0@) == playlists_of(parse_log(text@)),
        r.1@.map_values(|m: (String, String)| (m.0@, m.1@)) == media_of(parse_log(text@)),
{
    let fs = parse_failure_log(text);
    let mut playlists: Vec<String> = Vec::new();
    let mut media: Vec<(String, String)> = Vec::new();
    let mut i: usize = 0;
    while i < fs.len()
        invariant
            i <= fs.len(),
            failure_views(fs@) == parse_log(text@),
            views(playlists@) == playlists_of(failure_views(fs@).take(i as int)),
            media@.map_values(|m: (String, String)| (m.0@, m.1@)) == media_of(
                failure_views(fs@).take(i as int),
            ),
        decreases fs.len() - i,
    {
        proof {
            let t = failure_views(fs@).take(i + 1);
            assert(t.drop_last() =~= failure_views(fs@).take(i as int));
            assert(t.last() == fs@[i as int]@);
        }
        match &fs[i] {
            FailureType::Playlist(p) => {
                playlists.push(p.clone());
                assert(views(playlists@) =~= playlists_of(failure_views(fs@).take(i + 1)));
                assert(media@.map_values(|m: (String, String)| (m.0@, m.1@)) =~= media_of(
                    failure_views(fs@).take(i + 1),
                ));
            },
            FailureType::MediaFile(b, f) => {
                media.push((b.clone(), f.clone()));
                assert(views(playlists@) =~= playlists_of(failure_views(fs@).take(i + 1)));
                assert(media@.map_values(|m: (String, String)| (m.0@, m.1@)) =~= media_of(
                    failure_views(fs@).take(i + 1),
                ));
            },
        }
        i = i + 1;
    }
    assert(failure_views(fs@).take(i as int) =~= failure_views(fs@));
    (playlists, media)
}

} // verus!
