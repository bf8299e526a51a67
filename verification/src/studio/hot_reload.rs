//! Shader reloading: which changes in the effects directory lead to a reload.

use crate::paths::{
    extension, extension_of, file_name, file_name_of, is_name, is_same_path, join,
    joined_name_comes_last, named_has_extension, parent, parent_of, parent_of_joined, same_path,
    with_file_name,
};
use crate::text::str_eq;
use vstd::prelude::*;

verus! {

#[derive(Clone, Debug, PartialEq, Eq)]
pub enum HotReloadEvent {
    /// The shader of an effect was changed.
    WgslChanged { effect_id: String, path: String },
}

/// The effect that a shader belongs to: the name of its directory.
pub open spec fn effect_of(path: Seq<char>) -> Option<Seq<char>> {
    match parent(path) {
        Some(d) => file_name(d),
        None => None,
    }
}

/// `.../effects/<id>/effect.wgsl` gives `id`.
pub fn effect_id_from_path(path: &str) -> (r: Option<String>)
    ensures
        match effect_of(path@) {
            Some(id) => r is Some && r->0@ == id,
            None => r is None,
        },
{
    match parent_of(path) {
        Some(d) => file_name_of(&d),
        None => None,
    }
}

/// Changes within this many nanoseconds of each other count as one.
pub const DEBOUNCE_NANOS: u64 = 150_000_000;

/// When each shader was last reported as changed.
#[derive(Debug)]
pub struct Debounce {
    seen: Vec<(String, u64)>,
}

impl View for Debounce {
    type V = Seq<(Seq<char>, u64)>;

    closed spec fn view(&self) -> Seq<(Seq<char>, u64)> {
        self.seen@.map_values(|e: (String, u64)| (e.0@, e.1))
    }
}

/// The position in `seen`, from `from` on, of the entry for `path`.
pub open spec fn seen_index(seen: Seq<(Seq<char>, u64)>, path: Seq<char>, from: int) -> Option<int>
    decreases seen.len() - from,
{
    if from < 0 || from >= seen.len() {
        None
    } else if same_path(seen[from].0, path) {
        Some(from)
    } else {
        seen_index(seen, path, from + 1)
    }
}

/// Whether `path` names a shader.
pub open spec fn is_shader(path: Seq<char>) -> bool {
    extension(path) == Some("wgsl"@)
}

/// Whether a change of `path` at `now` comes too soon after the last one.
pub open spec fn too_soon(seen: Seq<(Seq<char>, u64)>, path: Seq<char>, now: u64) -> bool {
    match seen_index(seen, path, 0) {
        Some(i) => now < seen[i].1 || now - seen[i].1 < DEBOUNCE_NANOS,
        None => false,
    }
}

/// `seen` with the time of `path` set to `now`.
pub open spec fn seen_at(
    seen: Seq<(Seq<char>, u64)>,
    path: Seq<char>,
    now: u64,
) -> Seq<(Seq<char>, u64)> {
    match seen_index(seen, path, 0) {
        Some(i) => seen.update(i, (seen[i].0, now)),
        None => seen.push((path, now)),
    }
}

impl Debounce {
    pub fn new() -> (r: Self)
        ensures
            r@ == Seq::<(Seq<char>, u64)>::empty(),
    {
        let r = Debounce { seen: Vec::new() };
        assert(r@ =~= Seq::<(Seq<char>, u64)>::empty());
        r
    }

    fn position(&self, path: &str) -> (r: Option<usize>)
        ensures
            match seen_index(self@, path@, 0) {
                Some(i) => r == Some(i as usize) && 0 <= i < self.seen.len(),
                None => r is None,
            },
    {
        let mut i: usize = 0;
        while i < self.seen.len()
            invariant
                i <= self.seen.len(),
                seen_index(self@, path@, 0) == seen_index(self@, path@, i as int),
            decreases self.seen.len() - i,
        {
            assert(self@[i as int].0 == self.seen@[i as int].0@);
            if is_same_path(&self.seen[i].0, path) {
                return Some(i);
            }
            i = i + 1;
        }
        None
    }

    /// Takes in a change of `path` at `now` nanoseconds. Returns the event
    /// that it leads to: none if the path is no shader, if it changed just
    /// before, or if it lies in no effect's directory.
    pub fn changed(&mut self, path: &str, now: u64) -> (r: Option<HotReloadEvent>)
        ensures
            final(self)@ == if is_shader(path@) && !too_soon(old(self)@, path@, now) {
                seen_at(old(self)@, path@, now)
            } else {
                old(self)@
            },
            if is_shader(path@) && !too_soon(old(self)@, path@, now) && effect_of(path@) is Some {
                r matches Some(HotReloadEvent::WgslChanged { effect_id, path: p }) && effect_id@
                    == effect_of(path@).unwrap() && p@ == path@
            } else {
                r is None
            },
    {
        let shader = match extension_of(path) {
            Some(e) => str_eq(&e, "wgsl"),
            None => false,
        };
        if !shader {
            return None;
        }
        match self.position(path) {
            Some(i) => {
                assert(self@[i as int] == (self.seen@[i as int].0@, self.seen@[i as int].1));
                let last: u64 = self.seen[i].1;
                if now < last || now - last < DEBOUNCE_NANOS {
                    return None;
                }
                let name = self.seen[i].0.clone();
                self.seen.set(i, (name, now));
                assert(self@ =~= seen_at(old(self)@, path@, now));
            },
            None => {
                self.seen.push((path.to_owned(), now));
                assert(self@ =~= seen_at(old(self)@, path@, now));
            },
        }
        match effect_id_from_path(path) {
            Some(effect_id) => Some(HotReloadEvent::WgslChanged { effect_id, path: path.to_owned() }),
            None => None,
        }
    }
}

/// Right after a change, the same shader is not reported again.
pub proof fn change_is_reported_once(
    seen: Seq<(Seq<char>, u64)>,
    path: Seq<char>,
    now: u64,
    later: u64,
)
    requires
        !too_soon(seen, path, now),
        now <= later < now + DEBOUNCE_NANOS,
    ensures
        too_soon(seen_at(seen, path, now), path, later),
{
    seen_index_is_first(seen, path, 0);
    let after = seen_at(seen, path, now);
    seen_index_is_first(after, path, 0);
    match seen_index(seen, path, 0) {
        Some(i) => {
            assert(same_path(after[i].0, path));
            assert forall|k: int| 0 <= k < i implies !same_path((#[trigger] after[k]).0, path) by {
                assert(after[k] == seen[k]);
            }
        },
        None => {
            assert(same_path(after[seen.len() as int].0, path));
            assert forall|k: int| 0 <= k < seen.len() implies !same_path(
                (#[trigger] after[k]).0,
                path,
            ) by {
                assert(after[k] == seen[k]);
            }
        },
    }
}

proof fn seen_index_is_first(seen: Seq<(Seq<char>, u64)>, path: Seq<char>, from: int)
    requires
        0 <= from <= seen.len(),
    ensures
        match seen_index(seen, path, from) {
            Some(i) => from <= i < seen.len() && same_path(seen[i].0, path) && forall|k: int|
                from <= k < i ==> !same_path((#[trigger] seen[k]).0, path),
            None => forall|k: int|
                from <= k < seen.len() ==> !same_path((#[trigger] seen[k]).0, path),
        },
    decreases seen.len() - from,
{
    if from < seen.len() && !same_path(seen[from].0, path) {
        seen_index_is_first(seen, path, from + 1);
    }
}

/// A shader belongs to the effect whose directory it lies in.
pub proof fn shader_belongs_to_its_directory(dir: Seq<char>, effect: Seq<char>, file: Seq<char>)
    requires
        is_name(effect),
        is_name(file),
    ensures
        effect_of(join(join(dir, effect), file)) == Some(effect),
{
    joined_name_comes_last(dir, effect);
    parent_of_joined(join(dir, effect), file);
}

/// Files that end in `.wgsl` are shaders.
pub proof fn shaders_are_known_by_their_ending(p: Seq<char>, stem: Seq<char>, e: Seq<char>)
    requires
        is_name(stem),
        forall|i: int| 0 <= i < e.len() ==> e[i] != '.' && e[i] != '/',
        e.len() > 0,
    ensures
        is_shader(with_file_name(p, (stem + seq!['.']) + e)) <==> e == "wgsl"@,
{
    named_has_extension(p, stem, e);
}

/// Once the waiting time is over, a change of the same file is reported again.
/// A file that was not seen yet is never too soon.
pub proof fn later_change_is_reported(
    seen: Seq<(Seq<char>, u64)>,
    path: Seq<char>,
    now: u64,
    later: u64,
)
    requires
        later >= now + DEBOUNCE_NANOS,
    ensures
        !too_soon(seen_at(seen, path, now), path, later),
        seen_index(seen, path, 0) is None ==> !too_soon(seen, path, now),
{
    seen_index_is_first(seen, path, 0);
    let after = seen_at(seen, path, now);
    seen_index_is_first(after, path, 0);
    match seen_index(seen, path, 0) {
        Some(i) => {
            assert(after[i].0 == seen[i].0);
            assert forall|j: int| 0 <= j < i implies !same_path(#[trigger] after[j].0, path) by {
                assert(after[j] == seen[j]);
            }
        },
        None => {
            assert(after[seen.len() as int].0 == path);
            assert forall|j: int| 0 <= j < seen.len() implies !same_path(
                #[trigger] after[j].0,
                path,
            ) by {
                assert(after[j] == seen[j]);
            }
        },
    }
}

} // verus!
