//! Content hashing of resolved libraries and the records sent to the output
//! channel's subscribers.
use vstd::prelude::*;

use crate::driver::{pairs_view, strings_view};
use crate::resolver::{deps_view, is_known, lemma_relative_path_injective, relative_path_of};

verus! {

/// A resolved library: where it is on this machine, its logical relative
/// path, the digest of its bytes, and the logical relative paths of the
/// libraries it depends on.
#[derive(Debug, Clone)]
pub struct HashedFileRecord {
    pub local_path: String,
    pub relative_path: String,
    pub hash: [u8; 32],
    pub dependencies: Vec<String>,
}

/// The events that a host applies.
#[derive(Debug, Clone)]
pub enum BuildOutputMessages {
    LibraryUpdated(HashedFileRecord),
    AssetUpdated(String),
}

/// The BLAKE3 digest of the bytes.
pub uninterp spec fn blake3_digest(b: Seq<u8>) -> Seq<u8>;

/// Relies on `blake3::hash`: the 32-byte BLAKE3 digest, which depends on the
/// bytes alone.
#[verifier::external_body]
fn blake3_hash(b: &[u8]) -> (r: [u8; 32])
    ensures
        r@ == blake3_digest(b@),
{
    *blake3::hash(b).as_bytes()
}

/// The content digest of a file's bytes.
pub fn content_hash(bytes: &[u8]) -> (r: [u8; 32])
    ensures
        r@ == blake3_digest(bytes@),
{
    blake3_hash(bytes)
}

/// Hashing the same bytes twice gives the same digest.
pub proof fn lemma_hash_deterministic(a: Seq<u8>, b: Seq<u8>)
    requires
        a == b,
    ensures
        blake3_digest(a) == blake3_digest(b),
{
}

/// The dependency list recorded for a name: that of its first entry, or
/// nothing where it has none.
pub open spec fn dependencies_for(
    deps: Seq<(Seq<char>, Seq<Seq<char>>)>,
    name: Seq<char>,
) -> Seq<Seq<char>>
    decreases deps.len(),
{
    if deps.len() == 0 {
        Seq::empty()
    } else if deps[0].0 == name {
        deps[0].1
    } else {
        dependencies_for(deps.drop_first(), name)
    }
}

/// The dependency list recorded for a name.
pub fn lookup_dependencies(deps: &Vec<(String, Vec<String>)>, name: &String) -> (r: Vec<String>)
    ensures
        strings_view(r@) == dependencies_for(deps_view(deps@), name@),
{
    let ghost dv = deps_view(deps@);
    assert(dv.subrange(0, dv.len() as int) =~= dv);
    let mut i: usize = 0;
    while i < deps.len()
        invariant
            i <= deps@.len(),
            dv == deps_view(deps@),
            dependencies_for(dv, name@) == dependencies_for(dv.subrange(i as int, dv.len() as int), name@),
        decreases deps@.len() - i,
    {
        let ghost rest = dv.subrange(i as int, dv.len() as int);
        assert(rest.drop_first() =~= dv.subrange(i + 1, dv.len() as int));
        if deps[i].0 == *name {
            return deps[i].1.clone();
        }
        i = i + 1;
    }
    assert(dv.subrange(i as int, dv.len() as int) =~= Seq::<(Seq<char>, Seq<Seq<char>>)>::empty());
    let none: Vec<String> = Vec::new();
    assert(strings_view(none@) =~= Seq::<Seq<char>>::empty());
    none
}

/// The record of one library, with its bytes and dependency lists.
pub open spec fn record_matches(
    m: BuildOutputMessages,
    lib: (Seq<char>, Seq<char>),
    bytes: Seq<u8>,
    deps: Seq<(Seq<char>, Seq<Seq<char>>)>,
) -> bool {
    match m {
        BuildOutputMessages::LibraryUpdated(rec) => {
            &&& rec.local_path@ == lib.1
            &&& rec.relative_path@ == relative_path_of(lib.0)
            &&& rec.hash@ == blake3_digest(bytes)
            &&& strings_view(rec.dependencies@) == dependencies_for(deps, lib.0)
        },
        _ => false,
    }
}

/// One `LibraryUpdated` event per resolved library, in the mapping's order,
/// from the bytes of each library's file.
pub fn library_records(
    libraries: &Vec<(String, String)>,
    dependencies: &Vec<(String, Vec<String>)>,
    contents: &Vec<Vec<u8>>,
) -> (r: Vec<BuildOutputMessages>)
    requires
        contents@.len() == libraries@.len(),
    ensures
        r@.len() == libraries@.len(),
        forall|i: int|
            0 <= i < r@.len() ==> record_matches(
                #[trigger] r@[i],
                pairs_view(libraries@)[i],
                contents@[i]@,
                deps_view(dependencies@),
            ),
{
    let mut out: Vec<BuildOutputMessages> = Vec::new();
    let mut i: usize = 0;
    while i < libraries.len()
        invariant
            i <= libraries@.len(),
            contents@.len() == libraries@.len(),
            out@.len() == i,
            forall|k: int|
                0 <= k < i ==> record_matches(
                    #[trigger] out@[k],
                    pairs_view(libraries@)[k],
                    contents@[k]@,
                    deps_view(dependencies@),
                ),
        decreases libraries@.len() - i,
    {
        let name = &libraries[i].0;
        let mut relative = "./".to_owned();
        relative.append(name.as_str());
        let rec = HashedFileRecord {
            local_path: libraries[i].1.clone(),
            relative_path: relative,
            hash: content_hash(contents[i].as_slice()),
            dependencies: lookup_dependencies(dependencies, name),
        };
        out.push(BuildOutputMessages::LibraryUpdated(rec));
        i = i + 1;
    }
    out
}

/// Records built from a mapping that lacks a name hold no record under that
/// name's logical relative path: an import that was never located gets no
/// `LibraryUpdated` event.
pub proof fn lemma_unlocated_has_no_record(
    recs: Seq<BuildOutputMessages>,
    libs: Seq<(Seq<char>, Seq<char>)>,
    contents: Seq<Vec<u8>>,
    deps: Seq<(Seq<char>, Seq<Seq<char>>)>,
    n: Seq<char>,
)
    requires
        recs.len() == libs.len(),
        contents.len() == libs.len(),
        forall|i: int| 0 <= i < recs.len() ==> record_matches(#[trigger] recs[i], libs[i], contents[i]@, deps),
        !is_known(libs, n),
    ensures
        forall|i: int|
            0 <= i < recs.len() ==> match #[trigger] recs[i] {
                BuildOutputMessages::LibraryUpdated(rec) => rec.relative_path@ != relative_path_of(n),
                _ => false,
            },
{
    assert forall|i: int| 0 <= i < recs.len() implies match #[trigger] recs[i] {
        BuildOutputMessages::LibraryUpdated(rec) => rec.relative_path@ != relative_path_of(n),
        _ => false,
    } by {
        assert(record_matches(recs[i], libs[i], contents[i]@, deps));
        if relative_path_of(libs[i].0) == relative_path_of(n) {
            lemma_relative_path_injective(libs[i].0, n);
            assert(libs[i].0 == n);
        }
    }
}

} // verus!
