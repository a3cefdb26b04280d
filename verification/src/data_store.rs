//! A tree of typed YAML files: where each node lives on disk, which files a
//! directory lists, and the bookkeeping of a node's cached value.

use vstd::prelude::*;
use crate::json::str_eq;
use crate::paths::{join_path, path_join};
use crate::sort::{sort_strings, sorted_texts, texts};

verus! {

/// Types stored in the data store name themselves with a tag, checked when a
/// node is read back.
pub trait TypeInfo {
    fn type_tag() -> &'static str;
}

/// The last `.` among the first `i` characters of `s`.
pub open spec fn last_dot_before(s: Seq<char>, i: int) -> Option<int>
    decreases i,
{
    if i <= 0 || i > s.len() {
        None
    } else if s[i - 1] == '.' {
        Some(i - 1)
    } else {
        last_dot_before(s, i - 1)
    }
}

/// The stem of file name `name` when its extension is `ext`, as
/// `Path::file_stem` and `Path::extension` split a name: at the last `.`,
/// unless that `.` is the first character or the name is `..`.
pub open spec fn stem_with_ext(name: Seq<char>, ext: Seq<char>) -> Option<Seq<char>> {
    if name == ".."@ {
        None
    } else {
        match last_dot_before(name, name.len() as int) {
            None => None,
            Some(p) => if p > 0 && name.skip(p + 1) == ext {
                Some(name.take(p))
            } else {
                None
            },
        }
    }
}

/// The stem of `name` if its extension is `ext` (see [`stem_with_ext`]).
pub fn file_stem_with_ext(name: &str, ext: &str) -> (r: Option<String>)
    ensures
        match stem_with_ext(name@, ext@) {
            None => r is None,
            Some(s) => r is Some && r->Some_0@ == s,
        },
{
    proof {
        reveal_strlit("..");
    }
    if str_eq(name, "..") {
        return None;
    }
    let n = name.unicode_len();
    let mut i = n;
    while i > 0 && name.get_char(i - 1) != '.'
        invariant
            n == name@.len(),
            i <= n,
            last_dot_before(name@, n as int) == last_dot_before(name@, i as int),
        decreases i,
    {
        i = i - 1;
    }
    if i <= 1 {
        return None;
    }
    let p = i - 1;
    let after = name.substring_char(p + 1, n);
    assert(after@ =~= name@.skip(p + 1));
    if str_eq(after, ext) {
        let stem = name.substring_char(0, p);
        assert(stem@ =~= name@.take(p as int));
        Some(String::from_str(stem))
    } else {
        None
    }
}

/// The stems of the entries that are marked and have extension `ext`.
pub open spec fn marked_stems(entries: Seq<(Seq<char>, bool)>, ext: Seq<char>) -> Seq<Seq<char>>
    decreases entries.len(),
{
    if entries.len() == 0 {
        Seq::empty()
    } else {
        let rest = marked_stems(entries.drop_last(), ext);
        let (name, marked) = entries.last();
        match stem_with_ext(name, ext) {
            Some(s) => if marked { rest.push(s) } else { rest },
            None => rest,
        }
    }
}

/// The names of the marked entries.
pub open spec fn marked_names(entries: Seq<(Seq<char>, bool)>) -> Seq<Seq<char>>
    decreases entries.len(),
{
    if entries.len() == 0 {
        Seq::empty()
    } else if entries.last().1 {
        marked_names(entries.drop_last()).push(entries.last().0)
    } else {
        marked_names(entries.drop_last())
    }
}

/// Directory entries as names and marks.
pub open spec fn entry_models(entries: Seq<(String, bool)>) -> Seq<(Seq<char>, bool)> {
    entries.map_values(|e: (String, bool)| (e.0@, e.1))
}

/// The stems, in ascending order, of the entries marked `true` (regular
/// files) whose extension is `ext`.
pub fn sorted_stems(entries: &[(String, bool)], ext: &str) -> (r: Vec<String>)
    ensures
        sorted_texts(texts(r@)),
        texts(r@).to_multiset() == marked_stems(entry_models(entries@), ext@).to_multiset(),
{
    let ghost es = entry_models(entries@);
    let mut out: Vec<String> = Vec::new();
    let mut i: usize = 0;
    while i < entries.len()
        invariant
            es == entry_models(entries@),
            i <= entries@.len(),
            texts(out@) == marked_stems(es.take(i as int), ext@),
        decreases entries@.len() - i,
    {
        assert(es.take(i as int + 1).drop_last() =~= es.take(i as int));
        assert(es.take(i as int + 1).last() == (entries@[i as int].0@, entries@[i as int].1));
        let (name, marked) = &entries[i];
        let ghost before = out@;
        if *marked {
            if let Some(s) = file_stem_with_ext(name.as_str(), ext) {
                out.push(s);
                assert(texts(out@) =~= texts(before).push(out@.last()@));
            }
        }
        i = i + 1;
    }
    assert(es.take(entries@.len() as int) =~= es);
    sort_strings(out)
}

/// The names, in ascending order, of the entries marked `true`.
pub fn sorted_marked_names(entries: &[(String, bool)]) -> (r: Vec<String>)
    ensures
        sorted_texts(texts(r@)),
        texts(r@).to_multiset() == marked_names(entry_models(entries@)).to_multiset(),
{
    let ghost es = entry_models(entries@);
    let mut out: Vec<String> = Vec::new();
    let mut i: usize = 0;
    while i < entries.len()
        invariant
            es == entry_models(entries@),
            i <= entries@.len(),
            texts(out@) == marked_names(es.take(i as int)),
        decreases entries@.len() - i,
    {
        assert(es.take(i as int + 1).drop_last() =~= es.take(i as int));
        assert(es.take(i as int + 1).last() == (entries@[i as int].0@, entries@[i as int].1));
        let ghost before = out@;
        if entries[i].1 {
            out.push(entries[i].0.clone());
            assert(texts(out@) =~= texts(before).push(entries@[i as int].0@));
        }
        i = i + 1;
    }
    assert(es.take(entries@.len() as int) =~= es);
    sort_strings(out)
}

/// A tree-structured data store of YAML files under a root directory.
#[derive(Debug)]
pub struct DataStore {
    root: String,
}

impl DataStore {
    /// A store rooted at `root`.
    pub fn new(root: String) -> (r: Self)
        ensures
            r.root_path() == root@,
    {
        DataStore { root }
    }

    /// The root directory, as text.
    pub closed spec fn root_path(&self) -> Seq<char> {
        self.root@
    }

    /// The root directory.
    pub fn root(&self) -> (r: &str)
        ensures
            r@ == self.root_path(),
    {
        self.root.as_str()
    }

    /// The node of the root directory.
    pub fn root_dir(&self) -> (r: DirNode)
        ensures
            r.root_path() == self.root_path(),
            r.base_path() == Seq::<char>::empty(),
    {
        DirNode { root: self.root.clone(), base_path: String::new() }
    }

    /// The directory listed for `dir`: the root itself, or `dir` under it.
    pub fn scan_dir(&self, dir: &str) -> (r: String)
        ensures
            r@ == if dir@.len() == 0 { self.root_path() } else { path_join(self.root_path(), dir@) },
    {
        if dir.unicode_len() == 0 {
            self.root.clone()
        } else {
            join_path(self.root.as_str(), dir)
        }
    }

    /// The names of the `.yaml` files among a directory's entries (marked
    /// `true` when they are regular files), without the extension, sorted.
    pub fn children_of(entries: &[(String, bool)]) -> (r: Vec<String>)
        ensures
            sorted_texts(texts(r@)),
            texts(r@).to_multiset() == marked_stems(entry_models(entries@), "yaml"@).to_multiset(),
    {
        sorted_stems(entries, "yaml")
    }

    /// The names of the subdirectories among a directory's entries (marked
    /// `true` when they are directories), sorted.
    pub fn subdirs_of(entries: &[(String, bool)]) -> (r: Vec<String>)
        ensures
            sorted_texts(texts(r@)),
            texts(r@).to_multiset() == marked_names(entry_models(entries@)).to_multiset(),
    {
        sorted_marked_names(entries)
    }
}

/// A directory of the data store.
#[derive(Debug)]
pub struct DirNode {
    root: String,
    base_path: String,
}

/// The file of node `key` in the directory at `base` (relative to the root).
pub open spec fn node_file(base: Seq<char>, key: Seq<char>) -> Seq<char> {
    if base.len() == 0 {
        key + ".yaml"@
    } else {
        base + "/"@ + key + ".yaml"@
    }
}

/// The path of subdirectory `name` of the directory at `base`.
pub open spec fn subdir_path(base: Seq<char>, name: Seq<char>) -> Seq<char> {
    if base.len() == 0 {
        name
    } else {
        base + "/"@ + name
    }
}

impl DirNode {
    /// The store's root directory.
    pub closed spec fn root_path(&self) -> Seq<char> {
        self.root@
    }

    /// This directory's path relative to the root.
    pub closed spec fn base_path(&self) -> Seq<char> {
        self.base_path@
    }

    /// The disk path of the node `key` of this directory.
    pub fn node_path(&self, key: &str) -> (r: String)
        ensures
            r@ == path_join(self.root_path(), node_file(self.base_path(), key@)),
    {
        proof {
            reveal_strlit("/");
            reveal_strlit(".yaml");
        }
        let rel = if self.base_path.unicode_len() == 0 {
            String::from_str(key).concat(".yaml")
        } else {
            self.base_path.clone().concat("/").concat(key).concat(".yaml")
        };
        join_path(self.root.as_str(), rel.as_str())
    }

    /// The subdirectory `name` of this directory.
    pub fn subdir(&self, name: &str) -> (r: DirNode)
        ensures
            r.root_path() == self.root_path(),
            r.base_path() == subdir_path(self.base_path(), name@),
    {
        proof {
            reveal_strlit("/");
        }
        let base_path = if self.base_path.unicode_len() == 0 {
            String::from_str(name)
        } else {
            self.base_path.clone().concat("/").concat(name)
        };
        DirNode { root: self.root.clone(), base_path }
    }

    /// A copy of this directory node.
    pub fn duplicate(&self) -> (r: DirNode)
        ensures
            r.root_path() == self.root_path(),
            r.base_path() == self.base_path(),
    {
        DirNode { root: self.root.clone(), base_path: self.base_path.clone() }
    }

    /// This directory's path relative to the root.
    pub fn path(&self) -> (r: &str)
        ensures
            r@ == self.base_path(),
    {
        self.base_path.as_str()
    }

    /// This directory's path on disk.
    pub fn full_path(&self) -> (r: String)
        ensures
            r@ == path_join(self.root_path(), self.base_path()),
    {
        join_path(self.root.as_str(), self.base_path.as_str())
    }
}

/// Why a node's value could not be had as the requested type.
#[derive(Debug)]
pub enum DataError {
    /// The node was loaded as another type.
    LoadMismatch { cached: String, requested: String },
    /// The file holds another type.
    DiskMismatch { expected: String, found: String },
    /// The node holds another type.
    AccessMismatch { contains: String, requested: String },
}

impl DataError {
    /// The error's message text.
    pub fn to_string(&self) -> (r: String)
        ensures
            r@ == match self {
                DataError::LoadMismatch { cached, requested } => "type mismatch: node already loaded as "@
                    + cached@ + ", cannot load as "@ + requested@,
                DataError::DiskMismatch { expected, found } => "type mismatch on disk: expected "@
                    + expected@ + ", found "@ + found@,
                DataError::AccessMismatch { contains, requested } => "type mismatch: node contains "@
                    + contains@ + ", requested "@ + requested@,
            },
    {
        match self {
            DataError::LoadMismatch { cached, requested } => String::from_str(
                "type mismatch: node already loaded as ",
            ).concat(cached.as_str()).concat(", cannot load as ").concat(requested.as_str()),
            DataError::DiskMismatch { expected, found } => String::from_str(
                "type mismatch on disk: expected ",
            ).concat(expected.as_str()).concat(", found ").concat(found.as_str()),
            DataError::AccessMismatch { contains, requested } => String::from_str(
                "type mismatch: node contains ",
            ).concat(contains.as_str()).concat(", requested ").concat(requested.as_str()),
        }
    }
}

/// The result is the error for loading as `requested` a node loaded as `cached`.
pub open spec fn is_load_mismatch(r: Result<bool, DataError>, cached: Seq<char>, requested: Seq<char>) -> bool {
    match r {
        Err(DataError::LoadMismatch { cached: c, requested: q }) => c@ == cached && q@ == requested,
        _ => false,
    }
}

/// The result is the error for a file holding `found` where `expected` was asked for.
pub open spec fn is_disk_mismatch(r: Result<(), DataError>, expected: Seq<char>, found: Seq<char>) -> bool {
    match r {
        Err(DataError::DiskMismatch { expected: e, found: f }) => e@ == expected && f@ == found,
        _ => false,
    }
}

/// The result is the error for accessing as `requested` a node holding `contains`.
pub open spec fn is_access_mismatch(r: Result<bool, DataError>, contains: Seq<char>, requested: Seq<char>) -> bool {
    match r {
        Err(DataError::AccessMismatch { contains: c, requested: q }) => c@ == contains && q@ == requested,
        _ => false,
    }
}

/// What a data node knows of its cached value: the type it holds, and
/// whether it has changes not yet written.
#[derive(Debug)]
pub struct NodeState {
    cached_tag: Option<String>,
    dirty: bool,
}

/// Mathematical form of a [`NodeState`].
pub struct NodeModel {
    pub cached: Option<Seq<char>>,
    pub dirty: bool,
}

impl View for NodeState {
    type V = NodeModel;

    closed spec fn view(&self) -> NodeModel {
        NodeModel {
            cached: match self.cached_tag {
                Some(t) => Some(t@),
                None => None,
            },
            dirty: self.dirty,
        }
    }
}

/// The state after an access of type `requested` (mutable or not) that
/// succeeded.
pub open spec fn accessed(s: NodeModel, requested: Seq<char>, mutable: bool) -> NodeModel {
    NodeModel { cached: s.cached, dirty: s.dirty || (mutable && s.cached is Some) }
}

/// What an access as `requested` finds: `Some(false)` when nothing is
/// cached, `Some(true)` when a value of that type is, `None` when a value of
/// another type is.
pub open spec fn access_outcome(s: NodeModel, requested: Seq<char>) -> Option<bool> {
    match s.cached {
        None => Some(false),
        Some(t) => if t == requested { Some(true) } else { None },
    }
}

/// The state after a value of type `tag` is set.
pub open spec fn set_state(tag: Seq<char>) -> NodeModel {
    NodeModel { cached: Some(tag), dirty: true }
}

/// The state after the value is written.
pub open spec fn flushed_state(s: NodeModel) -> NodeModel {
    NodeModel { cached: s.cached, dirty: false }
}

/// The state after the file is removed.
pub open spec fn removed_state() -> NodeModel {
    NodeModel { cached: None, dirty: false }
}

impl NodeState {
    /// Nothing cached, nothing to write.
    pub fn new() -> (r: Self)
        ensures
            r@ == (NodeModel { cached: None, dirty: false }),
    {
        NodeState { cached_tag: None, dirty: false }
    }

    /// Before loading as `requested`: `Ok(true)` if already loaded as that
    /// type (nothing to do), `Ok(false)` if nothing is cached (read the
    /// file), an error if another type is cached.
    pub fn before_load(&self, requested: &str) -> (r: Result<bool, DataError>)
        ensures
            match self@.cached {
                None => r == Ok::<bool, DataError>(false),
                Some(t) => if t == requested@ {
                    r == Ok::<bool, DataError>(true)
                } else {
                    is_load_mismatch(r, t, requested@)
                },
            },
    {
        match &self.cached_tag {
            None => Ok(false),
            Some(t) => if str_eq(t.as_str(), requested) {
                Ok(true)
            } else {
                Err(DataError::LoadMismatch { cached: t.clone(), requested: String::from_str(requested) })
            },
        }
    }

    /// The tag read from disk must be the requested one.
    pub fn check_disk_tag(found: &str, requested: &str) -> (r: Result<(), DataError>)
        ensures
            r is Ok <==> found@ == requested@,
            r is Err ==> is_disk_mismatch(r, requested@, found@),
    {
        if str_eq(found, requested) {
            Ok(())
        } else {
            Err(DataError::DiskMismatch { expected: String::from_str(requested), found: String::from_str(found) })
        }
    }

    /// A value of type `tag` was read from disk.
    pub fn loaded(&mut self, tag: &str)
        ensures
            final(self)@ == (NodeModel { cached: Some(tag@), dirty: old(self)@.dirty }),
    {
        self.cached_tag = Some(String::from_str(tag));
    }

    /// Access the value as `requested`: `Ok(false)` if nothing is cached,
    /// `Ok(true)` if a value of that type is; a mutable access to a cached
    /// value marks the node dirty. Another type is an error and changes
    /// nothing.
    pub fn access(&mut self, requested: &str, mutable: bool) -> (r: Result<bool, DataError>)
        ensures
            match access_outcome(old(self)@, requested@) {
                Some(b) => r == Ok::<bool, DataError>(b) && final(self)@ == accessed(
                    old(self)@,
                    requested@,
                    mutable,
                ),
                None => final(self)@ == old(self)@ && is_access_mismatch(
                    r,
                    old(self)@.cached->Some_0,
                    requested@,
                ),
            },
    {
        let tag = match &self.cached_tag {
            None => return Ok(false),
            Some(t) => t.clone(),
        };
        if !str_eq(tag.as_str(), requested) {
            return Err(DataError::AccessMismatch { contains: tag, requested: String::from_str(requested) });
        }
        if mutable {
            self.dirty = true;
        }
        Ok(true)
    }

    /// A value of type `tag` was set.
    pub fn set(&mut self, tag: &str)
        ensures
            final(self)@ == set_state(tag@),
    {
        self.cached_tag = Some(String::from_str(tag));
        self.dirty = true;
    }

    /// Mutable access that creates a default value of type `requested` when
    /// nothing is cached: `Ok(true)` if the default was created. The node is
    /// marked dirty unless another type is cached, which is an error.
    pub fn access_or_default(&mut self, requested: &str) -> (r: Result<bool, DataError>)
        ensures
            match old(self)@.cached {
                None => r == Ok::<bool, DataError>(true) && final(self)@ == (NodeModel {
                    cached: Some(requested@),
                    dirty: true,
                }),
                Some(t) => if t == requested@ {
                    r == Ok::<bool, DataError>(false) && final(self)@ == (NodeModel {
                        cached: Some(t),
                        dirty: true,
                    })
                } else {
                    final(self)@ == old(self)@ && is_access_mismatch(r, t, requested@)
                },
            },
    {
        let created = self.cached_tag.is_none();
        if created {
            self.cached_tag = Some(String::from_str(requested));
        }
        match self.access(requested, true) {
            Ok(_) => Ok(created),
            Err(e) => Err(e),
        }
    }

    /// Should `flush` write the file? Only a dirty node with a value.
    pub fn needs_flush(&self) -> (r: bool)
        ensures
            r == (self@.dirty && self@.cached is Some),
    {
        self.dirty && self.cached_tag.is_some()
    }

    /// The value was written.
    pub fn flushed(&mut self)
        ensures
            final(self)@ == flushed_state(old(self)@),
    {
        self.dirty = false;
    }

    /// The file was removed and the cache cleared.
    pub fn removed(&mut self)
        ensures
            final(self)@ == removed_state(),
    {
        self.cached_tag = None;
        self.dirty = false;
    }

    /// The node has data: cached, or on disk (`on_disk`).
    pub fn has_data(&self, on_disk: bool) -> (r: bool)
        ensures
            r == (self@.cached is Some || on_disk),
    {
        self.cached_tag.is_some() || on_disk
    }

    /// The type of the cached value, if any.
    pub fn cached_tag(&self) -> (r: Option<String>)
        ensures
            match r {
                Some(t) => self@.cached == Some(t@),
                None => self@.cached is None,
            },
    {
        match &self.cached_tag {
            Some(t) => Some(t.clone()),
            None => None,
        }
    }

    /// The node has changes not yet written.
    pub fn is_dirty(&self) -> (r: bool)
        ensures
            r == self@.dirty,
    {
        self.dirty
    }
}

/// A value set as one type is read back as that type and refused as any
/// other; setting marks the node dirty, writing clears the mark and keeps
/// the value, removing leaves nothing to read or write.
pub proof fn law_read_after_set(tag: Seq<char>, other: Seq<char>)
    ensures
        access_outcome(set_state(tag), tag) == Some(true),
        other != tag ==> access_outcome(set_state(tag), other) is None,
        set_state(tag).dirty,
        !flushed_state(set_state(tag)).dirty,
        access_outcome(flushed_state(set_state(tag)), tag) == Some(true),
        access_outcome(removed_state(), other) == Some(false),
        !removed_state().dirty,
{
}

} // verus!
