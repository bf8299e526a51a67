//! Path-keyed runtime metadata cache for media assets.
//!
//! [`AssetLibrary`] goes with the paths that a project holds. It is not
//! stored; it keeps what the file system said so that the interface can show
//! it without asking again. Two spellings of one path share an entry.

use crate::paths::{is_absolute, is_same_path, parts, same_path};
use crate::text::cat;
use std::time::SystemTime;
use vstd::prelude::*;

verus! {

#[derive(Clone, Copy, Debug, PartialEq, Eq)]
pub struct AssetMetadata {
    pub size_bytes: u64,
    pub modified_at: SystemTime,
}

/// Why an asset could not be looked at. The text of `Io` is that of the
/// failing system call.
#[derive(Clone, Debug, PartialEq, Eq)]
pub enum AssetError {
    NotFound(String),
    NotAFile(String),
    Io(String),
}

/// The text of an error.
pub open spec fn asset_error_text(e: AssetError) -> Seq<char> {
    match e {
        AssetError::NotFound(p) => "asset not found: "@ + p@,
        AssetError::NotAFile(p) => "asset is not a regular file: "@ + p@,
        AssetError::Io(t) => "io: "@ + t@,
    }
}

impl AssetError {
    pub fn message(&self) -> (r: String)
        ensures
            r@ == asset_error_text(*self),
    {
        match self {
            AssetError::NotFound(p) => cat("asset not found: ", p),
            AssetError::NotAFile(p) => cat("asset is not a regular file: ", p),
            AssetError::Io(t) => cat("io: ", t),
        }
    }
}

/// What the file system says of a path.
pub enum FileStatus {
    /// There is nothing at the path.
    Missing,
    /// The file system could not be asked.
    Failed(String),
    /// Something that is not a regular file.
    Other,
    /// A regular file whose modification time could not be read.
    Undated(String),
    /// A regular file.
    File(AssetMetadata),
}

/// What a path names: whether it starts at the root, and its parts.
pub open spec fn place(p: Seq<char>) -> (bool, Seq<Seq<char>>) {
    (is_absolute(p), parts(p))
}

/// Metadata by path. No two entries name the same place.
#[derive(Debug)]
pub struct AssetLibrary {
    entries: Vec<(String, AssetMetadata)>,
}

spec fn placed(s: Seq<(String, AssetMetadata)>, k: (bool, Seq<Seq<char>>), i: int) -> bool {
    0 <= i < s.len() && place(s[i].0@) == k
}

spec fn distinct(s: Seq<(String, AssetMetadata)>) -> bool {
    forall|i: int, j: int|
        0 <= i < j < s.len() ==> place((#[trigger] s[i]).0@) != place((#[trigger] s[j]).0@)
}

spec fn by_place(s: Seq<(String, AssetMetadata)>) -> Map<(bool, Seq<Seq<char>>), AssetMetadata> {
    Map::new(
        |k: (bool, Seq<Seq<char>>)| exists|i: int| placed(s, k, i),
        |k: (bool, Seq<Seq<char>>)| s[choose|i: int| placed(s, k, i)].1,
    )
}

proof fn place_lookup(s: Seq<(String, AssetMetadata)>, k: (bool, Seq<Seq<char>>), i: int)
    requires
        distinct(s),
        placed(s, k, i),
    ensures
        by_place(s).contains_key(k),
        by_place(s)[k] == s[i].1,
{
    let j = choose|j: int| placed(s, k, j);
    if i < j {
        assert(place(s[i].0@) != place(s[j].0@));
    } else if j < i {
        assert(place(s[j].0@) != place(s[i].0@));
    }
}

proof fn place_stored(
    s: Seq<(String, AssetMetadata)>,
    t: Seq<(String, AssetMetadata)>,
    at: int,
    v: (String, AssetMetadata),
)
    requires
        distinct(s),
        0 <= at < t.len(),
        t[at] == v,
        at < s.len() ==> t == s.update(at, v) && place(s[at].0@) == place(v.0@),
        at == s.len() ==> t == s.push(v) && !by_place(s).contains_key(place(v.0@)),
        at <= s.len(),
    ensures
        distinct(t),
        by_place(t) == by_place(s).insert(place(v.0@), v.1),
{
    assert(distinct(t)) by {
        assert forall|i: int, j: int| 0 <= i < j < t.len() implies place((#[trigger] t[i]).0@)
            != place((#[trigger] t[j]).0@) by {
            if at == s.len() && j == at {
                assert(t[i] == s[i]);
                if place(t[i].0@) == place(v.0@) {
                    assert(placed(s, place(v.0@), i));
                }
            } else {
                assert(place(t[i].0@) == place(s[i].0@) && place(t[j].0@) == place(s[j].0@));
            }
        }
    }
    let m = by_place(s).insert(place(v.0@), v.1);
    assert(placed(t, place(v.0@), at));
    assert(by_place(t) =~= m) by {
        assert forall|k: (bool, Seq<Seq<char>>)| by_place(t).contains_key(k)
            == #[trigger] m.contains_key(k) by {
            if exists|i: int| placed(t, k, i) {
                let i = choose|i: int| placed(t, k, i);
                if i != at {
                    assert(placed(s, k, i));
                }
            }
            if exists|i: int| placed(s, k, i) {
                let i = choose|i: int| placed(s, k, i);
                assert(placed(t, k, i));
            }
        }
        assert forall|k: (bool, Seq<Seq<char>>)| #[trigger]
            by_place(t).contains_key(k) implies by_place(t)[k] == m[k] by {
            let i = choose|i: int| placed(t, k, i);
            place_lookup(t, k, i);
            if i == at {
            } else {
                assert(placed(s, k, i));
                place_lookup(s, k, i);
                assert(k != place(v.0@)) by {
                    if i < at {
                        assert(place(t[i].0@) != place(t[at].0@));
                    } else {
                        assert(place(t[at].0@) != place(t[i].0@));
                    }
                }
            }
        }
    }
}

proof fn place_removed(s: Seq<(String, AssetMetadata)>, at: int)
    requires
        distinct(s),
        0 <= at < s.len(),
    ensures
        distinct(s.remove(at)),
        by_place(s.remove(at)) == by_place(s).remove(place(s[at].0@)),
{
    let t = s.remove(at);
    let gone = place(s[at].0@);
    assert(distinct(t)) by {
        assert forall|i: int, j: int| 0 <= i < j < t.len() implies place((#[trigger] t[i]).0@)
            != place((#[trigger] t[j]).0@) by {
            let a = if i < at {
                i
            } else {
                i + 1
            };
            let b = if j < at {
                j
            } else {
                j + 1
            };
            assert(t[i] == s[a] && t[j] == s[b]);
        }
    }
    let m = by_place(s).remove(gone);
    assert(by_place(t) =~= m) by {
        assert forall|k: (bool, Seq<Seq<char>>)| by_place(t).contains_key(k)
            == #[trigger] m.contains_key(k) by {
            if exists|i: int| placed(t, k, i) {
                let i = choose|i: int| placed(t, k, i);
                let a = if i < at {
                    i
                } else {
                    i + 1
                };
                assert(placed(s, k, a));
                if k == gone {
                    if a < at {
                        assert(place(s[a].0@) != place(s[at].0@));
                    } else {
                        assert(place(s[at].0@) != place(s[a].0@));
                    }
                }
            }
            if k != gone && exists|i: int| placed(s, k, i) {
                let i = choose|i: int| placed(s, k, i);
                if i < at {
                    assert(placed(t, k, i));
                } else {
                    assert(i != at);
                    assert(placed(t, k, i - 1));
                }
            }
        }
        assert forall|k: (bool, Seq<Seq<char>>)| #[trigger]
            by_place(t).contains_key(k) implies by_place(t)[k] == m[k] by {
            let i = choose|i: int| placed(t, k, i);
            place_lookup(t, k, i);
            let a = if i < at {
                i
            } else {
                i + 1
            };
            assert(placed(s, k, a));
            place_lookup(s, k, a);
            assert(m.contains_key(k));
        }
    }
}

proof fn place_count(s: Seq<(String, AssetMetadata)>)
    requires
        distinct(s),
    ensures
        by_place(s).dom().finite(),
        by_place(s).len() == s.len(),
    decreases s.len(),
{
    if s.len() == 0 {
        assert(by_place(s).dom() =~= Set::<(bool, Seq<Seq<char>>)>::empty());
    } else {
        let init = s.drop_last();
        let v = s.last();
        assert(distinct(init)) by {
            assert forall|i: int, j: int| 0 <= i < j < init.len() implies place(
                (#[trigger] init[i]).0@,
            ) != place((#[trigger] init[j]).0@) by {
                assert(init[i] == s[i] && init[j] == s[j]);
            }
        }
        place_count(init);
        if by_place(init).contains_key(place(v.0@)) {
            let i = choose|i: int| placed(init, place(v.0@), i);
            assert(init[i] == s[i]);
            assert(place(s[i].0@) != place(s[s.len() - 1].0@));
        }
        assert(init.push(v) =~= s);
        place_stored(init, s, init.len() as int, v);
    }
}

impl View for AssetLibrary {
    type V = Map<(bool, Seq<Seq<char>>), AssetMetadata>;

    closed spec fn view(&self) -> Map<(bool, Seq<Seq<char>>), AssetMetadata> {
        by_place(self.entries@)
    }
}

impl AssetLibrary {
    #[verifier::type_invariant]
    spec fn one_entry_per_place(self) -> bool {
        distinct(self.entries@)
    }

    /// An empty library.
    pub fn new() -> (r: Self)
        ensures
            r@ == Map::<(bool, Seq<Seq<char>>), AssetMetadata>::empty(),
    {
        let r = AssetLibrary { entries: Vec::new() };
        assert(r@ =~= Map::<(bool, Seq<Seq<char>>), AssetMetadata>::empty());
        r
    }

    fn position(&self, path: &str) -> (r: Option<usize>)
        ensures
            r matches Some(i) ==> placed(self.entries@, place(path@), i as int),
            r is None ==> !self@.contains_key(place(path@)),
    {
        let mut i: usize = 0;
        while i < self.entries.len()
            invariant
                i <= self.entries.len(),
                forall|k: int| 0 <= k < i ==> !placed(self.entries@, place(path@), k),
            decreases self.entries.len() - i,
        {
            if is_same_path(&self.entries[i].0, path) {
                return Some(i);
            }
            i = i + 1;
        }
        None
    }

    /// Looks up cached metadata. Does not touch the file system.
    pub fn metadata(&self, path: &str) -> (r: Option<&AssetMetadata>)
        ensures
            r is Some == self@.contains_key(place(path@)),
            r is Some ==> *r->0 == self@[place(path@)],
    {
        proof {
            use_type_invariant(self);
        }
        match self.position(path) {
            Some(i) => {
                proof {
                    place_lookup(self.entries@, place(path@), i as int);
                }
                Some(&self.entries[i].1)
            },
            None => None,
        }
    }

    fn store(&mut self, path: &str, meta: AssetMetadata)
        ensures
            final(self)@ == old(self)@.insert(place(path@), meta),
    {
        proof {
            use_type_invariant(&*self);
        }
        let at = self.position(path);
        let mut entries: Vec<(String, AssetMetadata)> = Vec::new();
        std::mem::swap(&mut entries, &mut self.entries);
        let ghost before = entries@;
        let item = (path.to_owned(), meta);
        match at {
            Some(i) => {
                entries.set(i, item);
                proof {
                    place_stored(before, entries@, i as int, item);
                }
            },
            None => {
                entries.push(item);
                proof {
                    place_stored(before, entries@, before.len() as int, item);
                }
            },
        }
        self.entries = entries;
    }

    /// Takes in what the file system says of `path`. Metadata of a regular
    /// file replaces any entry for the same place; any other answer is an
    /// error and leaves the library as it was.
    pub fn refresh(&mut self, path: &str, status: FileStatus) -> (r: Result<
        AssetMetadata,
        AssetError,
    >)
        ensures
            match status {
                FileStatus::Missing => r matches Err(AssetError::NotFound(p)) && p@ == path@,
                FileStatus::Failed(t) => r matches Err(AssetError::Io(u)) && u@ == t@,
                FileStatus::Other => r matches Err(AssetError::NotAFile(p)) && p@ == path@,
                FileStatus::Undated(t) => r matches Err(AssetError::Io(u)) && u@ == t@,
                FileStatus::File(meta) => r == Ok::<AssetMetadata, AssetError>(meta),
            },
            final(self)@ == match status {
                FileStatus::File(meta) => old(self)@.insert(place(path@), meta),
                _ => old(self)@,
            },
    {
        match status {
            FileStatus::Missing => Err(AssetError::NotFound(path.to_owned())),
            FileStatus::Failed(t) => Err(AssetError::Io(t)),
            FileStatus::Other => Err(AssetError::NotAFile(path.to_owned())),
            FileStatus::Undated(t) => Err(AssetError::Io(t)),
            FileStatus::File(meta) => {
                self.store(path, meta);
                Ok(meta)
            },
        }
    }

    /// Removes a single path's entry.
    pub fn invalidate(&mut self, path: &str)
        ensures
            final(self)@ == old(self)@.remove(place(path@)),
    {
        proof {
            use_type_invariant(&*self);
        }
        match self.position(path) {
            Some(i) => {
                let mut entries: Vec<(String, AssetMetadata)> = Vec::new();
                std::mem::swap(&mut entries, &mut self.entries);
                proof {
                    place_removed(entries@, i as int);
                }
                entries.remove(i);
                self.entries = entries;
            },
            None => {
                assert(self@.remove(place(path@)) =~= self@);
            },
        }
    }

    /// Drops every entry.
    pub fn clear(&mut self)
        ensures
            final(self)@ == Map::<(bool, Seq<Seq<char>>), AssetMetadata>::empty(),
    {
        self.entries = Vec::new();
        assert(self@ =~= Map::<(bool, Seq<Seq<char>>), AssetMetadata>::empty());
    }

    pub fn len(&self) -> (r: usize)
        ensures
            self@.dom().finite(),
            r == self@.len(),
    {
        proof {
            use_type_invariant(self);
            place_count(self.entries@);
        }
        self.entries.len()
    }

    pub fn is_empty(&self) -> (r: bool)
        ensures
            r == (self@ == Map::<(bool, Seq<Seq<char>>), AssetMetadata>::empty()),
    {
        proof {
            use_type_invariant(self);
            if self.entries@.len() == 0 {
                assert(self@ =~= Map::<(bool, Seq<Seq<char>>), AssetMetadata>::empty());
            } else {
                assert(placed(self.entries@, place(self.entries@[0].0@), 0));
                place_lookup(self.entries@, place(self.entries@[0].0@), 0);
            }
        }
        self.entries.is_empty()
    }
}

impl Default for AssetLibrary {
    fn default() -> (r: Self)
        ensures
            r@ == Map::<(bool, Seq<Seq<char>>), AssetMetadata>::empty(),
    {
        AssetLibrary::new()
    }
}

/// Paths share an entry exactly if they are the same path.
pub proof fn same_path_same_place(a: Seq<char>, b: Seq<char>)
    ensures
        same_path(a, b) <==> place(a) == place(b),
{
}

} // verus!
