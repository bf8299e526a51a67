//! Program settings and the places where the program keeps its files.
//!
//! The graphics adapter is chosen by an explicit override, then by the saved
//! preference, then by a default that prefers a discrete adapter on a modern
//! backend.

use crate::paths::{join, join_path};
use crate::seqs::{first_where, first_where_is_first, views};
use crate::studio::export::text_view;
use crate::text::{cat, contains_text, str_contains, str_eq};
use vstd::prelude::*;

verus! {

#[derive(Clone, Debug, PartialEq, Eq)]
pub struct Settings {
    /// Part of the viewer adapter's name; `None` is automatic.
    pub viewer_gpu: Option<String>,
    /// Part of the export adapter's name; `None` is automatic.
    pub export_gpu: Option<String>,
}

impl Default for Settings {
    fn default() -> (r: Self)
        ensures
            r.viewer_gpu is None,
            r.export_gpu is None,
    {
        Settings { viewer_gpu: None, export_gpu: None }
    }
}

/// The home directory: the first of two environment variables that is set,
/// else the directory for temporary files.
pub open spec fn home(
    home_var: Option<Seq<char>>,
    profile_var: Option<Seq<char>>,
    temp: Seq<char>,
) -> Seq<char> {
    match home_var {
        Some(h) => h,
        None => match profile_var {
            Some(p) => p,
            None => temp,
        },
    }
}

/// The home directory, from the values of the two environment variables that
/// can name it and the directory for temporary files.
pub fn home_dir(home_var: Option<String>, profile_var: Option<String>, temp: String) -> (r: String)
    ensures
        r@ == home(text_view(home_var), text_view(profile_var), temp@),
{
    match home_var {
        Some(h) => h,
        None => match profile_var {
            Some(p) => p,
            None => temp,
        },
    }
}

/// Where settings are kept under the home directory.
pub fn settings_path(home_dir: &str) -> (r: String)
    ensures
        r@ == join(join(home_dir@, ".felx"@), "settings.ron"@),
{
    let d = join_path(home_dir, ".felx");
    join_path(&d, "settings.ron")
}

/// Where crash reports are kept under the home directory.
pub fn diagnostics_dir(home_dir: &str) -> (r: String)
    ensures
        r@ == join(join(home_dir@, ".felx"@), "diagnostics"@),
{
    let d = join_path(home_dir, ".felx");
    join_path(&d, "diagnostics")
}

/// A graphics adapter in the settings dialog.
#[derive(Clone, Debug, PartialEq, Eq)]
pub struct AdapterChoice {
    pub name: String,
    pub backend: String,
    pub device_type: String,
}

impl AdapterChoice {
    pub fn label(&self) -> (r: String)
        ensures
            r@ == (((self.name@ + "  •  "@) + self.backend@) + "  •  "@) + self.device_type@,
    {
        let s = cat(&self.name, "  •  ");
        let s = cat(&s, &self.backend);
        let s = cat(&s, "  •  ");
        cat(&s, &self.device_type)
    }
}

/// What the choice of an adapter looks at.
#[derive(Clone, Debug, PartialEq, Eq)]
pub struct AdapterInfo {
    pub name: String,
    /// A graphics card of its own.
    pub discrete: bool,
    /// The legacy backend.
    pub legacy: bool,
}

/// The lower-case form of a text, as the standard library makes it.
pub uninterp spec fn lowercase(s: Seq<char>) -> Seq<char>;

/// `str::to_lowercase` gives the lower-case form of `s` by the Unicode tables;
/// it depends on `s` alone.
#[verifier::external_body]
fn to_lowercase(s: &str) -> (r: String)
    ensures
        r@ == lowercase(s@),
{
    s.to_lowercase()
}

/// The first position in `names`, from `from` on, of a name that contains
/// `want`.
pub open spec fn first_containing(
    names: Seq<Seq<char>>,
    want: Seq<char>,
    from: int,
) -> Option<int>
    decreases names.len() - from,
{
    if from < 0 || from >= names.len() {
        None
    } else if contains_text(names[from], want) {
        Some(from)
    } else {
        first_containing(names, want, from + 1)
    }
}

/// The first modern adapter from `from` on, of any kind or discrete only.
pub open spec fn first_modern(
    adapters: Seq<AdapterInfo>,
    discrete_only: bool,
    from: int,
) -> Option<int>
    decreases adapters.len() - from,
{
    if from < 0 || from >= adapters.len() {
        None
    } else if !adapters[from].legacy && (adapters[from].discrete || !discrete_only) {
        Some(from)
    } else {
        first_modern(adapters, discrete_only, from + 1)
    }
}

/// The adapter that is used by default: the first discrete modern one, else
/// the first modern one, else the first one.
pub open spec fn default_adapter(adapters: Seq<AdapterInfo>) -> Option<int> {
    match first_modern(adapters, true, 0) {
        Some(i) => Some(i),
        None => match first_modern(adapters, false, 0) {
            Some(i) => Some(i),
            None => if adapters.len() > 0 {
                Some(0)
            } else {
                None
            },
        },
    }
}

/// The adapter to use, given the lower-case names and the lower-case text to
/// look for: the first whose name contains it, else the default one.
pub open spec fn chosen_adapter(
    adapters: Seq<AdapterInfo>,
    names: Seq<Seq<char>>,
    want: Option<Seq<char>>,
) -> Option<int> {
    match want {
        Some(w) => match first_containing(names, w, 0) {
            Some(i) => Some(i),
            None => default_adapter(adapters),
        },
        None => default_adapter(adapters),
    }
}

/// The preference that counts: the override if it is not empty, else the
/// saved one.
pub open spec fn preference(
    override_name: Option<Seq<char>>,
    saved: Option<Seq<char>>,
) -> Option<Seq<char>> {
    match override_name {
        Some(o) => if o.len() > 0 {
            Some(o)
        } else {
            saved
        },
        None => saved,
    }
}

/// The outcome of a choice: a position, or a message if there are no adapters.
pub open spec fn choice_outcome(r: Result<usize, String>, i: Option<int>) -> bool {
    match i {
        Some(i) => r == Ok::<usize, String>(i as usize) && 0 <= i <= usize::MAX,
        None => r matches Err(t) && t@ == "no wgpu adapters available"@,
    }
}

fn find_containing(names: &Vec<String>, want: &str) -> (r: Option<usize>)
    ensures
        match first_containing(views(names@), want@, 0) {
            Some(i) => r == Some(i as usize) && 0 <= i < names.len(),
            None => r is None,
        },
{
    let mut i: usize = 0;
    while i < names.len()
        invariant
            i <= names.len(),
            first_containing(views(names@), want@, 0) == first_containing(
                views(names@),
                want@,
                i as int,
            ),
        decreases names.len() - i,
    {
        assert(views(names@)[i as int] == names@[i as int]@);
        if str_contains(&names[i], want) {
            return Some(i);
        }
        i = i + 1;
    }
    None
}

fn find_modern(adapters: &Vec<AdapterInfo>, discrete_only: bool) -> (r: Option<usize>)
    ensures
        match first_modern(adapters@, discrete_only, 0) {
            Some(i) => r == Some(i as usize) && 0 <= i < adapters.len(),
            None => r is None,
        },
{
    let mut i: usize = 0;
    while i < adapters.len()
        invariant
            i <= adapters.len(),
            first_modern(adapters@, discrete_only, 0) == first_modern(
                adapters@,
                discrete_only,
                i as int,
            ),
        decreases adapters.len() - i,
    {
        if !adapters[i].legacy && (adapters[i].discrete || !discrete_only) {
            return Some(i);
        }
        i = i + 1;
    }
    None
}

/// Chooses an adapter by lower-case names and the lower-case text to look for.
pub fn choose_adapter(
    adapters: &Vec<AdapterInfo>,
    names: &Vec<String>,
    want: Option<&str>,
) -> (r: Result<usize, String>)
    requires
        names.len() == adapters.len(),
    ensures
        choice_outcome(
            r,
            chosen_adapter(
                adapters@,
                views(names@),
                match want {
                    Some(w) => Some(w@),
                    None => None,
                },
            ),
        ),
{
    if let Some(w) = want {
        if let Some(i) = find_containing(names, w) {
            return Ok(i);
        }
    }
    if let Some(i) = find_modern(adapters, true) {
        return Ok(i);
    }
    if let Some(i) = find_modern(adapters, false) {
        return Ok(i);
    }
    if adapters.len() > 0 {
        Ok(0)
    } else {
        Err("no wgpu adapters available".to_owned())
    }
}

/// The lower-case names of `adapters`.
pub open spec fn lower_names(adapters: Seq<AdapterInfo>) -> Seq<Seq<char>> {
    adapters.map_values(|a: AdapterInfo| lowercase(a.name@))
}

/// Chooses the viewer's adapter: by the override or the saved preference,
/// whatever the case of letters, else the default one.
pub fn choose_viewer_adapter(
    adapters: &Vec<AdapterInfo>,
    override_name: Option<&str>,
    saved: Option<&str>,
) -> (r: Result<usize, String>)
    ensures
        choice_outcome(
            r,
            chosen_adapter(
                adapters@,
                lower_names(adapters@),
                match preference(
                    match override_name {
                        Some(o) => Some(o@),
                        None => None,
                    },
                    match saved {
                        Some(s) => Some(s@),
                        None => None,
                    },
                ) {
                    Some(p) => Some(lowercase(p)),
                    None => None,
                },
            ),
        ),
{
    let mut names: Vec<String> = Vec::new();
    let mut i: usize = 0;
    while i < adapters.len()
        invariant
            i <= adapters.len(),
            names.len() == i,
            forall|k: int| 0 <= k < i ==> (#[trigger] names@[k])@ == lowercase(adapters@[k].name@),
        decreases adapters.len() - i,
    {
        names.push(to_lowercase(&adapters[i].name));
        i = i + 1;
    }
    assert(views(names@) =~= lower_names(adapters@));
    proof {
        reveal_strlit("");
    }
    let pref: Option<&str> = match override_name {
        Some(o) => if !str_eq(o, "") {
            Some(o)
        } else {
            assert(o@.len() == 0);
            saved
        },
        None => saved,
    };
    proof {
        if let Some(o) = override_name {
            if o@.len() == 0 {
                assert(o@ =~= ""@);
            }
        }
    }
    match pref {
        Some(p) => {
            let want = to_lowercase(p);
            choose_adapter(adapters, &names, Some(&want))
        },
        None => choose_adapter(adapters, &names, None),
    }
}

/// An adapter is chosen exactly if there is one.
pub proof fn some_adapter_is_chosen(
    adapters: Seq<AdapterInfo>,
    names: Seq<Seq<char>>,
    want: Option<Seq<char>>,
)
    requires
        names.len() == adapters.len(),
    ensures
        chosen_adapter(adapters, names, want) is Some <==> adapters.len() > 0,
{
    if let Some(w) = want {
        first_containing_bounds(names, w, 0);
    }
    first_modern_bounds(adapters, true, 0);
    first_modern_bounds(adapters, false, 0);
}

proof fn first_containing_bounds(names: Seq<Seq<char>>, want: Seq<char>, from: int)
    requires
        0 <= from,
    ensures
        first_containing(names, want, from) matches Some(i) ==> from <= i < names.len(),
    decreases names.len() - from,
{
    if from < names.len() {
        first_containing_bounds(names, want, from + 1);
    }
}

proof fn first_modern_bounds(adapters: Seq<AdapterInfo>, discrete_only: bool, from: int)
    requires
        0 <= from,
    ensures
        first_modern(adapters, discrete_only, from) matches Some(i) ==> from <= i < adapters.len(),
    decreases adapters.len() - from,
{
    if from < adapters.len() {
        first_modern_bounds(adapters, discrete_only, from + 1);
    }
}

/// What tells two adapters apart.
#[derive(Clone, Debug, PartialEq, Eq)]
pub struct AdapterIdentity {
    pub name: String,
    pub vendor: u32,
    pub device: u32,
    pub backend: String,
}

/// Mathematical form of [`AdapterIdentity`].
pub struct IdentityModel {
    pub name: Seq<char>,
    pub vendor: u32,
    pub device: u32,
    pub backend: Seq<char>,
}

impl View for AdapterIdentity {
    type V = IdentityModel;

    open spec fn view(&self) -> IdentityModel {
        IdentityModel {
            name: self.name@,
            vendor: self.vendor,
            device: self.device,
            backend: self.backend@,
        }
    }
}

/// The adapter of `all` that is `target`, else the first one.
pub open spec fn same_adapter(all: Seq<IdentityModel>, target: IdentityModel) -> Option<int> {
    match first_where(all, |a: IdentityModel| a == target, 0) {
        Some(i) => Some(i),
        None => if all.len() > 0 {
            Some(0)
        } else {
            None
        },
    }
}

/// Finds `target` again among newly listed adapters.
pub fn find_adapter(all: &Vec<AdapterIdentity>, target: &AdapterIdentity) -> (r: Option<usize>)
    ensures
        match same_adapter(views(all@), target@) {
            Some(i) => r == Some(i as usize) && 0 <= i < all.len(),
            None => r is None,
        },
{
    let ghost p = |a: IdentityModel| a == target@;
    let mut i: usize = 0;
    while i < all.len()
        invariant
            i <= all.len(),
            p == (|a: IdentityModel| a == target@),
            first_where(views(all@), p, 0) == first_where(views(all@), p, i as int),
        decreases all.len() - i,
    {
        let a = &all[i];
        assert(views(all@)[i as int] == a@);
        if str_eq(&a.name, &target.name) && a.vendor == target.vendor && a.device == target.device
            && str_eq(&a.backend, &target.backend) {
            return Some(i);
        }
        i = i + 1;
    }
    if all.len() > 0 {
        Some(0)
    } else {
        None
    }
}

/// The adapter that is asked for is the first whose name holds the text.
pub proof fn named_adapter_is_chosen(
    adapters: Seq<AdapterInfo>,
    names: Seq<Seq<char>>,
    want: Seq<char>,
    i: int,
)
    requires
        names.len() == adapters.len(),
        0 <= i < names.len(),
        contains_text(names[i], want),
        forall|j: int| 0 <= j < i ==> !contains_text(#[trigger] names[j], want),
    ensures
        chosen_adapter(adapters, names, Some(want)) == Some(i),
{
    first_containing_is_first(names, want, 0);
}

proof fn first_containing_is_first(names: Seq<Seq<char>>, want: Seq<char>, from: int)
    requires
        0 <= from,
    ensures
        match first_containing(names, want, from) {
            Some(i) => from <= i < names.len() && contains_text(names[i], want) && forall|j: int|
                from <= j < i ==> !contains_text(#[trigger] names[j], want),
            None => forall|j: int| from <= j < names.len() ==> !contains_text(
                #[trigger] names[j],
                want,
            ),
        },
    decreases names.len() - from,
{
    if from < names.len() && !contains_text(names[from], want) {
        first_containing_is_first(names, want, from + 1);
    }
}

proof fn first_modern_is_first(adapters: Seq<AdapterInfo>, discrete_only: bool, from: int)
    requires
        0 <= from,
    ensures
        match first_modern(adapters, discrete_only, from) {
            Some(i) => from <= i < adapters.len() && !adapters[i].legacy && (discrete_only
                ==> adapters[i].discrete) && forall|j: int|
                from <= j < i ==> (#[trigger] adapters[j]).legacy || (discrete_only
                    && !adapters[j].discrete),
            None => forall|j: int|
                from <= j < adapters.len() ==> (#[trigger] adapters[j]).legacy || (discrete_only
                    && !adapters[j].discrete),
        },
    decreases adapters.len() - from,
{
    if from < adapters.len() && !(!adapters[from].legacy && (adapters[from].discrete
        || !discrete_only)) {
        first_modern_is_first(adapters, discrete_only, from + 1);
    }
}

/// How well an adapter suits when none is asked for: a card of its own on a
/// modern backend best, then anything on a modern backend.
pub open spec fn fitness(a: AdapterInfo) -> int {
    if a.legacy {
        0
    } else if a.discrete {
        2
    } else {
        1
    }
}

/// When none is asked for, or none has the name, no adapter suits better than
/// the one that is chosen, and none before it suits as well.
pub proof fn best_adapter_is_chosen(
    adapters: Seq<AdapterInfo>,
    names: Seq<Seq<char>>,
    want: Option<Seq<char>>,
    j: int,
)
    requires
        names.len() == adapters.len(),
        want matches Some(w) ==> forall|k: int|
            0 <= k < names.len() ==> !contains_text(#[trigger] names[k], w),
        0 <= j < adapters.len(),
    ensures
        ({
            let i = chosen_adapter(adapters, names, want).unwrap();
            &&& chosen_adapter(adapters, names, want) is Some
            &&& 0 <= i < adapters.len()
            &&& fitness(adapters[j]) <= fitness(adapters[i])
            &&& j < i ==> fitness(adapters[j]) < fitness(adapters[i])
        }),
{
    if let Some(w) = want {
        first_containing_is_first(names, w, 0);
    }
    first_modern_is_first(adapters, true, 0);
    first_modern_is_first(adapters, false, 0);
}

/// A name that was given overrides the saved one; an empty one does not.
pub proof fn override_comes_first(given: Seq<char>, saved: Option<Seq<char>>)
    ensures
        given.len() > 0 ==> preference(Some(given), saved) == Some(given),
        given.len() == 0 ==> preference(Some(given), saved) == saved,
        preference(None, saved) == saved,
{
}

/// The home directory is the first of the three places that is known.
pub proof fn home_is_the_first_known(
    h: Seq<char>,
    p: Seq<char>,
    o: Option<Seq<char>>,
    temp: Seq<char>,
)
    ensures
        home(Some(h), o, temp) == h,
        home(None, Some(p), temp) == p,
        home(None, None, temp) == temp,
{
}

/// An adapter that is listed is found again, at its first place.
pub proof fn listed_adapter_is_found(all: Seq<IdentityModel>, i: int)
    requires
        0 <= i < all.len(),
        forall|j: int| 0 <= j < i ==> #[trigger] all[j] != all[i],
    ensures
        same_adapter(all, all[i]) == Some(i),
{
    first_where_is_first(all, |a: IdentityModel| a == all[i], 0);
}

} // verus!
