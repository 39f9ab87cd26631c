//! A media item: the base directory of the playlist that names it and its
//! path relative to that directory; and where its copies go.
use vstd::prelude::*;
use crate::paths::{dir_part, file_part, join, lrc_ext, stem};

verus! {

/// A media file named by a playlist: `file` is relative to `src_basedir`.
/// The pair is the item's identity.
#[derive(Clone, Debug)]
pub struct MediaFileInfo {
    pub src_basedir: String,
    pub file: String,
}

impl View for MediaFileInfo {
    type V = (Seq<char>, Seq<char>);

    open spec fn view(&self) -> (Seq<char>, Seq<char>) {
        (self.src_basedir@, self.file@)
    }
}

/// The path of a media file on the source side.
pub open spec fn source_of(key: (Seq<char>, Seq<char>)) -> Seq<char> {
    join(key.0, key.1)
}

/// The directory that receives a media file under `dest`.
pub open spec fn target_dir_of(dest: Seq<char>, rel: Seq<char>) -> Seq<char> {
    join(dest, dir_part(rel))
}

/// The path that a media file is copied to under `dest`.
pub open spec fn target_of(dest: Seq<char>, rel: Seq<char>) -> Seq<char> {
    join(target_dir_of(dest, rel), file_part(rel))
}

/// The name of the lyrics file beside a media file, where it has a name.
pub open spec fn lyrics_name_of(rel: Seq<char>) -> Option<Seq<char>> {
    if file_part(rel).len() == 0 {
        None
    } else {
        Some(stem(file_part(rel)) + lrc_ext())
    }
}

/// Where a media file's copy goes: the directory to create and the file.
pub struct MediaTarget {
    pub dir: String,
    pub file: String,
}

/// A lyrics file to copy if it exists: its source and its destination.
pub struct LyricsTarget {
    pub source: String,
    pub dest: String,
}

impl MediaFileInfo {
    /// An item for `file` under `src_basedir`.
    pub fn new(src_basedir: String, file: String) -> (r: Self)
        ensures
            r@ == (src_basedir@, file@),
    {
        MediaFileInfo { src_basedir, file }
    }

    /// A copy of this item.
    pub fn duplicate(&self) -> (r: Self)
        ensures
            r@ == self@,
    {
        MediaFileInfo { src_basedir: self.src_basedir.clone(), file: self.file.clone() }
    }

    /// The base directory joined with the relative path.
    pub fn source_path(&self) -> (r: String)
        ensures
            r@ == source_of(self@),
    {
        crate::paths::join_path(self.src_basedir.as_str(), self.file.as_str())
    }

    /// The destination of this item under `dest`, which mirrors its relative
    /// directory.
    pub fn target(&self, dest: &str) -> (r: MediaTarget)
        ensures
            r.dir@ == target_dir_of(dest@, self.file@),
            r.file@ == target_of(dest@, self.file@),
    {
        let dir_rel = crate::paths::parent_dir(self.file.as_str());
        let name = crate::paths::file_name(self.file.as_str());
        let dir = crate::paths::join_path(dest, dir_rel.as_str());
        let file = crate::paths::join_path(dir.as_str(), name.as_str());
        MediaTarget { dir, file }
    }

    /// The lyrics file beside this item and its destination under `dest`:
    /// the media file's stem with ".lrc", in the same relative directory.
    pub fn lyrics(&self, dest: &str) -> (r: Option<LyricsTarget>)
        ensures
            r is None <==> lyrics_name_of(self.file@) is None,
            r matches Some(t) ==> {
                let name = lyrics_name_of(self.file@)->0;
                &&& t.source@ == join(join(self.src_basedir@, dir_part(self.file@)), name)
                &&& t.dest@ == join(target_dir_of(dest@, self.file@), name)
            },
    {
        let name = crate::paths::file_name(self.file.as_str());
        let chars = crate::text::chars_of(name.as_str());
        if chars.len() == 0 {
            return None;
        }
        let lrc = crate::paths::lyrics_name(name.as_str());
        let dir_rel = crate::paths::parent_dir(self.file.as_str());
        let src_dir = crate::paths::join_path(self.src_basedir.as_str(), dir_rel.as_str());
        let source = crate::paths::join_path(src_dir.as_str(), lrc.as_str());
        let dest_dir = crate::paths::join_path(dest, dir_rel.as_str());
        let dest = crate::paths::join_path(dest_dir.as_str(), lrc.as_str());
        Some(LyricsTarget { source, dest })
    }
}

} // verus!
