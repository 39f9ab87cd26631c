//! Paths as strings with '/' separators: parent directory, final component,
//! stem and joining, the operations that place media files and playlists.
use vstd::prelude::*;

verus! {

/// Index of the last `c` in `s`, or -1 when there is none.
pub open spec fn last_of(s: Seq<char>, c: char) -> int
    decreases s.len(),
{
    if s.len() == 0 {
        -1
    } else if s.last() == c {
        s.len() - 1
    } else {
        last_of(s.drop_last(), c)
    }
}

/// The directory part of a path: what stands before its last '/', "/" when
/// that is the first character, and "" when the path has no '/'.
pub open spec fn dir_part(s: Seq<char>) -> Seq<char> {
    let k = last_of(s, '/');
    if k < 0 {
        seq![]
    } else if k == 0 {
        seq!['/']
    } else {
        s.take(k)
    }
}

/// The last component of a path: what follows its last '/'.
pub open spec fn file_part(s: Seq<char>) -> Seq<char> {
    s.skip(last_of(s, '/') + 1)
}

/// `b` placed under `a`; an absolute `b` stands alone, and one '/' separates
/// the two unless `a` is empty or already ends with one.
pub open spec fn join(a: Seq<char>, b: Seq<char>) -> Seq<char> {
    if b.len() > 0 && b[0] == '/' {
        b
    } else if a.len() == 0 {
        b
    } else if a.last() == '/' {
        a + b
    } else {
        a + seq!['/'] + b
    }
}

/// A file name without its extension; a name whose only '.' leads keeps it.
pub open spec fn stem(name: Seq<char>) -> Seq<char> {
    let k = last_of(name, '.');
    if k <= 0 {
        name
    } else {
        name.take(k)
    }
}

/// The extension of a lyrics file.
pub open spec fn lrc_ext() -> Seq<char> {
    seq!['.', 'l', 'r', 'c']
}

/// `k` is the last index of `c` when no later index holds it.
pub proof fn lemma_last_of(s: Seq<char>, c: char, k: int)
    requires
        -1 <= k < s.len(),
        forall|j: int| k < j < s.len() ==> s[j] != c,
        k == -1 || s[k] == c,
    ensures
        last_of(s, c) == k,
    decreases s.len(),
{
    if s.len() > 0 && s.last() != c {
        lemma_last_of(s.drop_last(), c, k);
    }
}

/// Index of the last `c` in `v`.
pub fn last_index(v: &Vec<char>, c: char) -> (r: Option<usize>)
    ensures
        r is None ==> last_of(v@, c) == -1,
        r matches Some(k) ==> last_of(v@, c) == k && k < v.len() && v@[k as int] == c,
{
    let mut i: usize = v.len();
    while i > 0
        invariant
            i <= v.len(),
            forall|j: int| i <= j < v.len() ==> v@[j] != c,
        decreases i,
    {
        if v[i - 1] == c {
            proof {
                lemma_last_of(v@, c, i - 1);
            }
            return Some(i - 1);
        }
        i = i - 1;
    }
    proof {
        lemma_last_of(v@, c, -1);
    }
    None
}

/// The directory part of `path`.
pub fn parent_dir(path: &str) -> (r: String)
    ensures
        r@ == dir_part(path@),
{
    let v = crate::text::chars_of(path);
    match last_index(&v, '/') {
        None => String::new(),
        Some(k) => {
            if k == 0 {
                let r = crate::text::string_of(&v, 0, 1);
                assert(r@ =~= seq!['/']);
                r
            } else {
                let r = crate::text::string_of(&v, 0, k);
                assert(r@ =~= v@.take(k as int));
                r
            }
        },
    }
}

/// The last component of `path`.
pub fn file_name(path: &str) -> (r: String)
    ensures
        r@ == file_part(path@),
{
    let v = crate::text::chars_of(path);
    match last_index(&v, '/') {
        None => {
            let r = crate::text::string_of(&v, 0, v.len());
            assert(v@.subrange(0, v.len() as int) =~= v@.skip(0));
            r
        },
        Some(k) => {
            let r = crate::text::string_of(&v, k + 1, v.len());
            assert(v@.subrange(k + 1, v.len() as int) =~= v@.skip(k + 1));
            r
        },
    }
}

/// `name` without its extension.
pub fn file_stem(name: &str) -> (r: String)
    ensures
        r@ == stem(name@),
{
    let v = crate::text::chars_of(name);
    match last_index(&v, '.') {
        Some(k) if k > 0 => crate::text::string_of(&v, 0, k),
        _ => {
            let r = crate::text::string_of(&v, 0, v.len());
            assert(v@.subrange(0, v.len() as int) =~= v@);
            r
        },
    }
}

/// `b` placed under `a`.
pub fn join_path(a: &str, b: &str) -> (r: String)
    ensures
        r@ == join(a@, b@),
{
    let va = crate::text::chars_of(a);
    let vb = crate::text::chars_of(b);
    let mut r = String::new();
    if vb.len() > 0 && vb[0] == '/' {
        crate::text::push_str(&mut r, b);
    } else if va.len() == 0 {
        crate::text::push_str(&mut r, b);
    } else if va[va.len() - 1] == '/' {
        crate::text::push_str(&mut r, a);
        crate::text::push_str(&mut r, b);
    } else {
        crate::text::push_str(&mut r, a);
        crate::text::push_char(&mut r, '/');
        crate::text::push_str(&mut r, b);
    }
    r
}

/// Where a playlist's copy goes: directly under `dest`, by its file name;
/// nothing where the path names no file.
pub fn playlist_destination(playlist: &str, dest: &str) -> (r: Option<String>)
    ensures
        r is None <==> file_part(playlist@).len() == 0,
        r matches Some(p) ==> p@ == join(dest@, file_part(playlist@)),
{
    let name = file_name(playlist);
    let v = crate::text::chars_of(name.as_str());
    if v.len() == 0 {
        None
    } else {
        Some(join_path(dest, name.as_str()))
    }
}

/// The name of the lyrics file that goes with the media file `name`.
pub fn lyrics_name(name: &str) -> (r: String)
    ensures
        r@ == stem(name@) + lrc_ext(),
{
    let mut r = file_stem(name);
    crate::text::push_char(&mut r, '.');
    crate::text::push_char(&mut r, 'l');
    crate::text::push_char(&mut r, 'r');
    crate::text::push_char(&mut r, 'c');
    assert(r@ =~= stem(name@) + lrc_ext());
    r
}

} // verus!
