//! The dynamic-library dependency resolver, as a state machine. It keeps the
//! resolved-location mapping and the dependency lists, and says what to do
//! next: read a library's file, look a name up on the search path, or stop.
//! The caller does the reading and the lookup and hands the results back.
//! A name enters the mapping before its own imports are scanned, so every
//! library is scanned once and import cycles end.
use vstd::prelude::*;

use object::Object;

use crate::driver::{pairs_view, strings_view, BuildError};
use crate::text::same_text;

verus! {

/// The library name of each entry of a binary image's import table, one
/// entry per imported symbol, or `None` where the image cannot be parsed or
/// a name is not UTF-8. A library name repeats for each symbol it provides,
/// and is empty where the format does not record it.
pub uninterp spec fn imports_of(b: Seq<u8>) -> Option<Seq<Seq<char>>>;

/// Relies on `object::File::parse` and `Object::imports`: the library name
/// of each imported symbol, in the order of the import table; it depends on
/// the bytes alone.
#[verifier::external_body]
fn parse_imports(b: &[u8]) -> (r: Option<Vec<String>>)
    ensures
        match r {
            Some(v) => imports_of(b@) == Some(strings_view(v@)),
            None => imports_of(b@) is None,
        },
{
    let file = object::File::parse(b).ok()?;
    let imports = file.imports().ok()?;
    imports.iter().map(|i| std::str::from_utf8(i.library()).ok().map(|s| s.to_owned())).collect()
}

/// The next thing a resolution needs.
#[derive(Debug, Clone, PartialEq, Eq)]
pub enum ResolveAction {
    /// Read the file at this location and hand its bytes to `file_read`.
    Read(String),
    /// Search the composite search path for a file of this name and hand the
    /// result to `located`.
    Locate(String),
    /// Resolution is complete.
    Done,
}

/// The logical relative path of a library name.
pub open spec fn relative_path_of(name: Seq<char>) -> Seq<char> {
    "./"@ + name
}

pub open spec fn deps_view(v: Seq<(String, Vec<String>)>) -> Seq<(Seq<char>, Seq<Seq<char>>)> {
    v.map_values(|p: (String, Vec<String>)| (p.0@, strings_view(p.1@)))
}

/// A library of this name is in the mapping.
pub open spec fn is_known(libs: Seq<(Seq<char>, Seq<char>)>, n: Seq<char>) -> bool {
    exists|i: int| 0 <= i < libs.len() && (#[trigger] libs[i]).0 == n
}

/// No two entries of the mapping share a name.
pub open spec fn names_unique(libs: Seq<(Seq<char>, Seq<char>)>) -> bool {
    forall|i: int, j: int| 0 <= i < j < libs.len() ==> (#[trigger] libs[i]).0 != (#[trigger] libs[j]).0
}

/// The first import at or after `pos` that is not in the mapping, or the
/// number of imports where there is none.
pub open spec fn first_unknown(
    libs: Seq<(Seq<char>, Seq<char>)>,
    imps: Seq<Seq<char>>,
    pos: int,
) -> int
    decreases imps.len() - pos,
{
    if pos >= imps.len() {
        imps.len() as int
    } else if is_known(libs, imps[pos]) {
        first_unknown(libs, imps, pos + 1)
    } else {
        pos
    }
}

/// The dependency list of a library: its imports that were located, as
/// logical relative paths, in order.
pub open spec fn dependency_list(libs: Seq<(Seq<char>, Seq<char>)>, imps: Seq<Seq<char>>) -> Seq<
    Seq<char>,
>
    decreases imps.len(),
{
    if imps.len() == 0 {
        Seq::empty()
    } else {
        let prev = dependency_list(libs, imps.drop_last());
        if is_known(libs, imps.last()) {
            prev.push(relative_path_of(imps.last()))
        } else {
            prev
        }
    }
}

/// A resolution in progress. `libraries` maps names to locations; the first
/// `scanned` of them have been read. While `scanning`, the imports of the
/// last one read are being located, from `next_import` on.
pub struct DependencyResolver {
    pub libraries: Vec<(String, String)>,
    pub dependencies: Vec<(String, Vec<String>)>,
    pub scanned: usize,
    pub imports: Vec<String>,
    pub next_import: usize,
    pub scanning: bool,
}

impl DependencyResolver {
    pub open spec fn libs(&self) -> Seq<(Seq<char>, Seq<char>)> {
        pairs_view(self.libraries@)
    }

    pub open spec fn imps(&self) -> Seq<Seq<char>> {
        strings_view(self.imports@)
    }

    pub open spec fn wf(&self) -> bool {
        &&& names_unique(self.libs())
        &&& self.scanned <= self.libraries@.len()
        &&& self.dependencies@.len() == if self.scanning {
            self.scanned - 1
        } else {
            self.scanned as int
        }
        &&& forall|i: int|
            0 <= i < self.dependencies@.len() ==> (#[trigger] deps_view(self.dependencies@)[i]).0
                == self.libs()[i].0
        &&& self.scanning ==> {
            &&& self.scanned >= 1
            &&& self.next_import < self.imports@.len()
            &&& !is_known(self.libs(), self.imps()[self.next_import as int])
        }
    }

    /// A resolver whose mapping holds nothing.
    pub fn new() -> (r: DependencyResolver)
        ensures
            r.wf(),
            r.libs().len() == 0,
            r.dependencies@.len() == 0,
            r.scanned == 0,
            !r.scanning,
    {
        DependencyResolver {
            libraries: Vec::new(),
            dependencies: Vec::new(),
            scanned: 0,
            imports: Vec::new(),
            next_import: 0,
            scanning: false,
        }
    }

    /// The position of a name in the mapping.
    pub fn find(&self, name: &str) -> (r: Option<usize>)
        ensures
            match r {
                Some(i) => i < self.libraries@.len() && self.libs()[i as int].0 == name@,
                None => !is_known(self.libs(), name@),
            },
    {
        let mut i: usize = 0;
        while i < self.libraries.len()
            invariant
                i <= self.libraries@.len(),
                forall|k: int| 0 <= k < i ==> self.libs()[k].0 != name@,
            decreases self.libraries@.len() - i,
        {
            if same_text(self.libraries[i].0.as_str(), name) {
                return Some(i);
            }
            i = i + 1;
        }
        None
    }

    /// Adds a top-level artifact before resolution starts. A name that is
    /// already present gets the new location.
    pub fn add_root(&mut self, name: String, path: String)
        requires
            old(self).wf(),
            old(self).scanned == 0,
            !old(self).scanning,
        ensures
            final(self).wf(),
            final(self).scanned == 0,
            !final(self).scanning,
            final(self).dependencies == old(self).dependencies,
            is_known(old(self).libs(), name@) ==> final(self).libs() == old(self).libs().update(
                choose|i: int|
                    0 <= i < old(self).libs().len() && (#[trigger] old(self).libs()[i]).0 == name@,
                (name@, path@),
            ),
            !is_known(old(self).libs(), name@) ==> final(self).libs() == old(self).libs().push(
                (name@, path@),
            ),
    {
        let ghost before = self.libs();
        match self.find(name.as_str()) {
            Some(i) => {
                proof {
                    let c = choose|c: int| 0 <= c < before.len() && (#[trigger] before[c]).0 == name@;
                    assert(c == i);
                }
                self.libraries.set(i, (name, path));
                assert(self.libs() =~= before.update(i as int, (name@, path@)));
            },
            None => {
                self.libraries.push((name, path));
                assert(self.libs() =~= before.push((name@, path@)));
            },
        }
    }

    /// What the resolution needs next.
    pub fn next_action(&self) -> (r: ResolveAction)
        requires
            self.wf(),
        ensures
            self.scanning ==> r == ResolveAction::Locate(self.imports@[self.next_import as int]),
            !self.scanning && self.scanned < self.libraries@.len() ==> r == ResolveAction::Read(
                self.libraries@[self.scanned as int].1,
            ),
            !self.scanning && self.scanned == self.libraries@.len() ==> r is Done,
    {
        if self.scanning {
            ResolveAction::Locate(self.imports[self.next_import].clone())
        } else if self.scanned < self.libraries.len() {
            ResolveAction::Read(self.libraries[self.scanned].1.clone())
        } else {
            ResolveAction::Done
        }
    }

    /// Passes over the imports from `next_import` on that are already in the
    /// mapping; where none is left, records the dependency list of the
    /// library being scanned and stops scanning it.
    fn settle(&mut self)
        requires
            names_unique(old(self).libs()),
            1 <= old(self).scanned <= old(self).libraries@.len(),
            old(self).next_import <= old(self).imports@.len(),
            old(self).dependencies@.len() == old(self).scanned - 1,
            forall|i: int|
                0 <= i < old(self).dependencies@.len() ==> (#[trigger] deps_view(
                    old(self).dependencies@,
                )[i]).0 == old(self).libs()[i].0,
        ensures
            final(self).wf(),
            final(self).libraries == old(self).libraries,
            final(self).imports == old(self).imports,
            final(self).scanned == old(self).scanned,
            final(self).next_import == first_unknown(
                old(self).libs(),
                old(self).imps(),
                old(self).next_import as int,
            ),
            final(self).scanning == (final(self).next_import < old(self).imports@.len()),
            final(self).scanning ==> final(self).dependencies == old(self).dependencies,
            !final(self).scanning ==> deps_view(final(self).dependencies@) == deps_view(
                old(self).dependencies@,
            ).push(
                (
                    old(self).libs()[old(self).scanned - 1].0,
                    dependency_list(old(self).libs(), old(self).imps()),
                ),
            ),
    {
        let ghost libs = self.libs();
        let ghost imps = self.imps();
        let ghost start = self.next_import as int;
        let mut i = self.next_import;
        while i < self.imports.len() && self.find(self.imports[i].as_str()).is_some()
            invariant
                start <= i <= self.imports@.len(),
                libs == self.libs(),
                imps == self.imps(),
                first_unknown(libs, imps, start) == first_unknown(libs, imps, i as int),
            decreases self.imports@.len() - i,
        {
            i = i + 1;
        }
        self.next_import = i;
        if i < self.imports.len() {
            self.scanning = true;
            return;
        }
        self.scanning = false;
        let mut deps: Vec<String> = Vec::new();
        let mut k: usize = 0;
        while k < self.imports.len()
            invariant
                k <= self.imports@.len(),
                libs == self.libs(),
                imps == self.imps(),
                strings_view(deps@) == dependency_list(libs, imps.subrange(0, k as int)),
            decreases self.imports@.len() - k,
        {
            proof {
                assert(imps.subrange(0, k + 1).drop_last() =~= imps.subrange(0, k as int));
            }
            if self.find(self.imports[k].as_str()).is_some() {
                let ghost prev = strings_view(deps@);
                let mut rel = "./".to_owned();
                rel.append(self.imports[k].as_str());
                deps.push(rel);
                assert(strings_view(deps@) =~= prev.push(relative_path_of(imps[k as int])));
            }
            k = k + 1;
        }
        assert(imps.subrange(0, imps.len() as int) =~= imps);
        let name = self.libraries[self.scanned - 1].0.clone();
        let ghost before = deps_view(self.dependencies@);
        self.dependencies.push((name, deps));
        assert(deps_view(self.dependencies@) =~= before.push(
            (libs[self.scanned - 1].0, dependency_list(libs, imps)),
        ));
        assert forall|j: int| 0 <= j < self.dependencies@.len() implies (#[trigger] deps_view(
            self.dependencies@,
        )[j]).0 == self.libs()[j].0 by {
            if j < before.len() {
                assert(deps_view(self.dependencies@)[j] == before[j]);
            }
        }
    }

    /// Takes the import names of the next library to scan and starts
    /// locating those that are not yet in the mapping.
    pub fn imports_listed(&mut self, imports: Vec<String>)
        requires
            old(self).wf(),
            !old(self).scanning,
            old(self).scanned < old(self).libraries@.len(),
        ensures
            final(self).wf(),
            final(self).libraries == old(self).libraries,
            final(self).imps() == strings_view(imports@),
            final(self).scanned == old(self).scanned + 1,
            final(self).next_import == first_unknown(final(self).libs(), final(self).imps(), 0),
            final(self).scanning == (final(self).next_import < final(self).imports@.len()),
            final(self).scanning ==> final(self).dependencies == old(self).dependencies,
            !final(self).scanning ==> deps_view(final(self).dependencies@) == deps_view(
                old(self).dependencies@,
            ).push(
                (
                    old(self).libs()[old(self).scanned as int].0,
                    dependency_list(final(self).libs(), final(self).imps()),
                ),
            ),
    {
        let total = self.libraries.len();
        assert(self.scanned < total);
        self.imports = imports;
        self.next_import = 0;
        self.scanned = self.scanned + 1;
        self.settle();
    }

    /// Takes the bytes of the next library to scan. Where they cannot be
    /// parsed for imports, the resolution fails and nothing changes;
    /// otherwise this is `imports_listed` with the imports they list.
    pub fn file_read(&mut self, bytes: &[u8]) -> (r: Result<(), BuildError>)
        requires
            old(self).wf(),
            !old(self).scanning,
            old(self).scanned < old(self).libraries@.len(),
        ensures
            final(self).wf(),
            final(self).libraries == old(self).libraries,
            match r {
                Ok(()) => {
                    &&& imports_of(bytes@) == Some(final(self).imps())
                    &&& final(self).scanned == old(self).scanned + 1
                    &&& final(self).next_import == first_unknown(
                        final(self).libs(),
                        final(self).imps(),
                        0,
                    )
                    &&& final(self).scanning == (final(self).next_import
                        < final(self).imports@.len())
                    &&& final(self).scanning ==> final(self).dependencies == old(
                        self,
                    ).dependencies
                    &&& !final(self).scanning ==> deps_view(final(self).dependencies@) == deps_view(
                        old(self).dependencies@,
                    ).push(
                        (
                            old(self).libs()[old(self).scanned as int].0,
                            dependency_list(final(self).libs(), final(self).imps()),
                        ),
                    )
                },
                Err(e) => {
                    &&& imports_of(bytes@) is None
                    &&& e == BuildError::UnreadableBinary(
                        old(self).libraries@[old(self).scanned as int].1,
                    )
                    &&& *final(self) == *old(self)
                },
            },
    {
        match parse_imports(bytes) {
            None => Err(BuildError::UnreadableBinary(self.libraries[self.scanned].1.clone())),
            Some(imports) => {
                self.imports_listed(imports);
                Ok(())
            },
        }
    }

    /// Takes the result of looking up the import being located: a location
    /// enters the mapping under the import's name; a name that was not found
    /// is left out.
    pub fn located(&mut self, found: Option<String>)
        requires
            old(self).wf(),
            old(self).scanning,
        ensures
            final(self).wf(),
            final(self).libs() == match found {
                Some(p) => old(self).libs().push((old(self).imps()[old(self).next_import as int], p@)),
                None => old(self).libs(),
            },
            final(self).imports == old(self).imports,
            final(self).scanned == old(self).scanned,
            final(self).next_import == first_unknown(
                final(self).libs(),
                final(self).imps(),
                old(self).next_import + 1,
            ),
            final(self).scanning == (final(self).next_import < final(self).imports@.len()),
            final(self).scanning ==> final(self).dependencies == old(self).dependencies,
            !final(self).scanning ==> deps_view(final(self).dependencies@) == deps_view(
                old(self).dependencies@,
            ).push(
                (
                    old(self).libs()[old(self).scanned - 1].0,
                    dependency_list(final(self).libs(), final(self).imps()),
                ),
            ),
    {
        let ghost before = self.libs();
        match found {
            Some(p) => {
                let name = self.imports[self.next_import].clone();
                self.libraries.push((name, p));
                assert(self.libs() =~= before.push((self.imps()[self.next_import as int], p@)));
                assert(self.libs()[self.scanned - 1] == before[self.scanned - 1]);
            },
            None => {},
        }
        assert forall|j: int| 0 <= j < self.dependencies@.len() implies (#[trigger] deps_view(
            self.dependencies@,
        )[j]).0 == self.libs()[j].0 by {
            assert(self.libs()[j] == before[j]);
        }
        let count = self.imports.len();
        assert(self.next_import < count);
        self.next_import = self.next_import + 1;
        self.settle();
    }
}

/// In a resolution, every name in the resolved-location mapping stands at
/// exactly one position: import cycles and shared dependencies never add a
/// library twice.
pub proof fn lemma_each_library_once(r: DependencyResolver, n: Seq<char>)
    requires
        r.wf(),
        is_known(r.libs(), n),
    ensures
        exists|i: int|
            0 <= i < r.libs().len() && (#[trigger] r.libs()[i]).0 == n && forall|j: int|
                0 <= j < r.libs().len() && (#[trigger] r.libs()[j]).0 == n ==> j == i,
{
    let i = choose|i: int| 0 <= i < r.libs().len() && (#[trigger] r.libs()[i]).0 == n;
    assert forall|j: int| 0 <= j < r.libs().len() && (#[trigger] r.libs()[j]).0 == n implies j == i by {
        if j < i {
            assert(r.libs()[j].0 != r.libs()[i].0);
        } else if i < j {
            assert(r.libs()[i].0 != r.libs()[j].0);
        }
    }
}

/// Where every name comes from a finite set, a resolution holds and scans
/// at most as many libraries as the set has names. Each `Read` step scans
/// one more library and each `Locate` step moves past one import, so a
/// resolution over a finite import graph ends, cycles included.
pub proof fn lemma_libraries_bounded(r: DependencyResolver, names: Set<Seq<char>>)
    requires
        r.wf(),
        names.finite(),
        forall|i: int| 0 <= i < r.libs().len() ==> names.contains((#[trigger] r.libs()[i]).0),
    ensures
        r.libs().len() <= names.len(),
        r.scanned <= names.len(),
{
    let held = r.libs().map_values(|p: (Seq<char>, Seq<char>)| p.0);
    assert forall|i: int, j: int| 0 <= i < held.len() && 0 <= j < held.len() && i != j implies held[i]
        != held[j] by {
        if i < j {
            assert(r.libs()[i].0 != r.libs()[j].0);
        } else {
            assert(r.libs()[j].0 != r.libs()[i].0);
        }
    }
    assert(held.no_duplicates());
    held.unique_seq_to_set();
    assert forall|n: Seq<char>| held.to_set().contains(n) implies names.contains(n) by {
        let i = choose|i: int| 0 <= i < held.len() && held[i] == n;
        assert(r.libs()[i].0 == n);
    }
    vstd::set_lib::lemma_len_subset(held.to_set(), names);
}

/// When a resolution is done, every library in the mapping has exactly one
/// dependency list: the lists stand in the mapping's order, one per library.
pub proof fn lemma_done_one_list_each(r: DependencyResolver)
    requires
        r.wf(),
        !r.scanning,
        r.scanned == r.libraries@.len(),
    ensures
        r.dependencies@.len() == r.libraries@.len(),
        forall|i: int|
            0 <= i < r.libs().len() ==> (#[trigger] deps_view(r.dependencies@)[i]).0 == r.libs()[i].0,
        forall|i: int, j: int|
            0 <= i < r.libs().len() && 0 <= j < r.libs().len() && (#[trigger] deps_view(
                r.dependencies@,
            )[j]).0 == (#[trigger] r.libs()[i]).0 ==> i == j,
{
    assert forall|i: int, j: int|
        0 <= i < r.libs().len() && 0 <= j < r.libs().len() && (#[trigger] deps_view(
            r.dependencies@,
        )[j]).0 == (#[trigger] r.libs()[i]).0 implies i == j by {
        assert(deps_view(r.dependencies@)[j].0 == r.libs()[j].0);
        if i < j {
            assert(r.libs()[i].0 != r.libs()[j].0);
        } else if j < i {
            assert(r.libs()[j].0 != r.libs()[i].0);
        }
    }
}

/// A name that was not located stays out of every dependency list built
/// from the mapping: a missing import is dropped, not recorded.
pub proof fn lemma_unlocated_not_listed(
    libs: Seq<(Seq<char>, Seq<char>)>,
    imps: Seq<Seq<char>>,
    n: Seq<char>,
)
    requires
        !is_known(libs, n),
    ensures
        !dependency_list(libs, imps).contains(relative_path_of(n)),
    decreases imps.len(),
{
    reveal_strlit("./");
    if imps.len() > 0 {
        lemma_unlocated_not_listed(libs, imps.drop_last(), n);
        let prev = dependency_list(libs, imps.drop_last());
        if is_known(libs, imps.last()) {
            let m = imps.last();
            if relative_path_of(m) == relative_path_of(n) {
                lemma_relative_path_injective(m, n);
            }
            assert forall|k: int| 0 <= k < prev.len() + 1 implies prev.push(relative_path_of(m))[k]
                != relative_path_of(n) by {
                if k < prev.len() {
                    assert(prev.push(relative_path_of(m))[k] == prev[k]);
                }
            }
        }
    }
}

/// Two names with the same logical relative path are the same name.
pub proof fn lemma_relative_path_injective(a: Seq<char>, b: Seq<char>)
    requires
        relative_path_of(a) == relative_path_of(b),
    ensures
        a == b,
{
    reveal_strlit("./");
    assert(a =~= relative_path_of(a).subrange(2, relative_path_of(a).len() as int));
    assert(b =~= relative_path_of(b).subrange(2, relative_path_of(b).len() as int));
}

} // verus!
