//! Reading a playlist: which of its lines name media files, and how each is
//! normalized; and the rewritten text of a playlist whose entries use
//! backslashes.
use vstd::prelude::*;
use crate::text::{lines_of, strip_cr, views};

verus! {

/// The byte-order mark that may open a playlist.
pub open spec fn bom() -> char {
    '\u{feff}'
}

/// A line without a leading byte-order mark and a trailing carriage return.
pub open spec fn clean_line(s: Seq<char>) -> Seq<char> {
    let t = if s.len() > 0 && s[0] == bom() {
        s.drop_first()
    } else {
        s
    };
    strip_cr(t)
}

/// A cleaned line names a media file unless it is empty or a comment.
pub open spec fn is_entry(s: Seq<char>) -> bool {
    s.len() > 0 && s[0] != '#'
}

/// Every backslash turned into a forward slash.
pub open spec fn slashes(s: Seq<char>) -> Seq<char> {
    s.map_values(|c: char| if c == '\\' { '/' } else { c })
}

/// The media paths that the given lines of a playlist name, in order.
pub open spec fn entries(lines: Seq<Seq<char>>) -> Seq<Seq<char>>
    decreases lines.len(),
{
    if lines.len() == 0 {
        seq![]
    } else {
        let c = clean_line(lines.last());
        entries(lines.drop_last()) + if is_entry(c) {
            seq![slashes(c)]
        } else {
            seq![]
        }
    }
}

/// Whether a playlist line outside a comment holds a backslash.
pub open spec fn needs_rewrite(s: Seq<char>) -> bool {
    !(s.len() > 0 && s[0] == '#') && s.contains('\\')
}

/// Lines joined by '\n', with none after the last.
pub open spec fn join_lines(ls: Seq<Seq<char>>) -> Seq<char>
    decreases ls.len(),
{
    if ls.len() == 0 {
        seq![]
    } else if ls.len() == 1 {
        ls[0]
    } else {
        join_lines(ls.drop_last()) + seq!['\n'] + ls.last()
    }
}

/// What the copy of a playlist holds: `None` where its text is copied byte
/// for byte, else its lines with every backslash turned into a slash.
pub open spec fn playlist_copy_text(text: Seq<char>) -> Option<Seq<char>> {
    let ls = lines_of(text);
    if exists|i: int| 0 <= i < ls.len() && needs_rewrite(#[trigger] ls[i]) {
        Some(join_lines(ls.map_values(|l: Seq<char>| slashes(l))))
    } else {
        None
    }
}

/// Removes a leading byte-order mark and a trailing carriage return.
pub fn process_line(line: String) -> (r: String)
    ensures
        r@ == clean_line(line@),
{
    let v = crate::text::chars_of(line.as_str());
    let mut lo: usize = 0;
    let mut hi: usize = v.len();
    if hi > 0 && v[0] == '\u{feff}' {
        lo = 1;
    }
    if hi > lo && v[hi - 1] == '\r' {
        hi = hi - 1;
    }
    let r = crate::text::string_of(&v, lo, hi);
    proof {
        let t = if v@.len() > 0 && v@[0] == bom() {
            v@.drop_first()
        } else {
            v@
        };
        assert(t =~= v@.subrange(lo as int, v.len() as int));
        assert(strip_cr(t) =~= v@.subrange(lo as int, hi as int));
    }
    r
}

/// Whether a cleaned line names a media file.
pub fn filter_line(line: &String) -> (r: bool)
    ensures
        r == is_entry(line@),
{
    let v = crate::text::chars_of(line.as_str());
    v.len() > 0 && v[0] != '#'
}

/// The line with every backslash turned into a forward slash.
pub fn replace_backslash(line: String) -> (r: String)
    ensures
        r@ == slashes(line@),
{
    let v = crate::text::chars_of(line.as_str());
    let mut r = String::new();
    let mut i: usize = 0;
    while i < v.len()
        invariant
            i <= v.len(),
            v@ == line@,
            r@ == slashes(v@.take(i as int)),
        decreases v.len() - i,
    {
        if v[i] == '\\' {
            crate::text::push_char(&mut r, '/');
        } else {
            crate::text::push_char(&mut r, v[i]);
        }
        assert(slashes(v@.take(i + 1)) =~= slashes(v@.take(i as int)).push(
            if v@[i as int] == '\\' {
                '/'
            } else {
                v@[i as int]
            },
        ));
        i = i + 1;
    }
    assert(v@.take(i as int) =~= v@);
    r
}

/// The media paths named by the lines of a playlist, in order: each line is
/// cleaned, empty lines and comments are dropped, backslashes become '/'.
pub fn read_playlist(lines: &Vec<String>) -> (r: Vec<String>)
    ensures
        views(r@) == entries(views(lines@)),
{
    let mut r: Vec<String> = Vec::new();
    let mut i: usize = 0;
    while i < lines.len()
        invariant
            i <= lines.len(),
            views(r@) == entries(views(lines@).take(i as int)),
        decreases lines.len() - i,
    {
        let c = process_line(lines[i].clone());
        proof {
            let ls = views(lines@).take(i + 1);
            assert(ls.drop_last() =~= views(lines@).take(i as int));
            assert(ls.last() == lines@[i as int]@);
        }
        if filter_line(&c) {
            let e = replace_backslash(c);
            assert(views(r@.push(e)) =~= views(r@).push(e@));
            r.push(e);
            assert(views(r@) =~= entries(views(lines@).take(i as int)) + seq![e@]);
        } else {
            assert(entries(views(lines@).take(i as int)) + seq![] =~= entries(
                views(lines@).take(i as int),
            ));
        }
        i = i + 1;
    }
    assert(views(lines@).take(i as int) =~= views(lines@));
    r
}

/// The text to write for the copy of a playlist: `None` where no line
/// outside a comment holds a backslash, so the file is copied as it is;
/// else its lines with every backslash turned into a slash, joined by '\n'.
pub fn playlist_copy(text: &str) -> (r: Option<String>)
    ensures
        r matches Some(t) ==> playlist_copy_text(text@) == Some(t@),
        r is None ==> playlist_copy_text(text@) is None,
{
    let ls = crate::text::split_lines(text);
    let ghost gl = views(ls@);
    let mut any = false;
    let mut i: usize = 0;
    while i < ls.len()
        invariant
            i <= ls.len(),
            gl == views(ls@),
            gl == lines_of(text@),
            any <==> exists|j: int| 0 <= j < i && needs_rewrite(#[trigger] gl[j]),
        decreases ls.len() - i,
    {
        let v = crate::text::chars_of(ls[i].as_str());
        let comment = v.len() > 0 && v[0] == '#';
        let mut has = false;
        let mut k: usize = 0;
        while k < v.len()
            invariant
                k <= v.len(),
                has <==> exists|j: int| 0 <= j < k && v@[j] == '\\',
            decreases v.len() - k,
        {
            if v[k] == '\\' {
                has = true;
            }
            k = k + 1;
        }
        assert(gl[i as int] == v@);
        proof {
            if has {
                let j = choose|j: int| 0 <= j < k && v@[j] == '\\';
                assert(v@.contains('\\'));
            }
        }
        if !comment && has {
            any = true;
        }
        i = i + 1;
    }
    if !any {
        return None;
    }
    let mut out = String::new();
    let mut n: usize = 0;
    let ghost rl = gl.map_values(|l: Seq<char>| slashes(l));
    while n < ls.len()
        invariant
            n <= ls.len(),
            gl == views(ls@),
            rl == gl.map_values(|l: Seq<char>| slashes(l)),
            out@ == join_lines(rl.take(n as int)),
        decreases ls.len() - n,
    {
        let line = replace_backslash(ls[n].clone());
        assert(line@ == rl[n as int]);
        if n > 0 {
            crate::text::push_char(&mut out, '\n');
        }
        crate::text::push_str(&mut out, line.as_str());
        proof {
            let t = rl.take(n + 1);
            assert(t.drop_last() =~= rl.take(n as int));
            if n == 0 {
                assert(out@ =~= t[0]);
            }
        }
        n = n + 1;
    }
    assert(rl.take(n as int) =~= rl);
    Some(out)
}

} // verus!
