use vstd::prelude::*;

use indexmap::{IndexMap, IndexSet};
use vstd::string::StringExecFns;

use crate::value::Span;

verus! {

#[verifier::external_type_specification]
#[verifier::external_body]
#[verifier::reject_recursive_types(T)]
#[verifier::reject_recursive_types(S)]
pub struct ExIndexSet<T, S>(IndexSet<T, S>);

#[verifier::external_type_specification]
#[verifier::external_body]
#[verifier::reject_recursive_types(K)]
#[verifier::reject_recursive_types(V)]
#[verifier::reject_recursive_types(S)]
pub struct ExIndexMap<K, V, S>(IndexMap<K, V, S>);

/// Resolved package paths and the handles of their programs.
pub type ProgramCache = IndexMap<String, usize>;

/// The paths that an `IndexSet` of strings holds.
pub uninterp spec fn set_paths(s: IndexSet<String>) -> Set<Seq<char>>;

/// The path-to-handle pairs that an `IndexMap` holds.
pub uninterp spec fn map_entries(m: ProgramCache) -> Map<Seq<char>, usize>;

/// Relies on `IndexSet::new`: a set with no items.
#[verifier::external_body]
fn set_new() -> (r: IndexSet<String>)
    ensures
        set_paths(r) == Set::<Seq<char>>::empty(),
{
    IndexSet::new()
}

/// Relies on `IndexSet::contains`: whether an equal string is in the set.
#[verifier::external_body]
fn set_contains(s: &IndexSet<String>, v: &String) -> (r: bool)
    ensures
        r == set_paths(*s).contains(v@),
{
    s.contains(v)
}

/// Relies on `IndexSet::insert`: the string is in the set afterwards, and
/// nothing else changes.
#[verifier::external_body]
fn set_insert(s: &mut IndexSet<String>, v: String)
    ensures
        set_paths(*final(s)) == set_paths(*old(s)).insert(v@),
{
    s.insert(v);
}

/// Relies on `IndexSet::remove` (a swap-remove): the string is no longer in
/// the set, and nothing else leaves it.
#[verifier::external_body]
fn set_remove(s: &mut IndexSet<String>, v: &String)
    ensures
        set_paths(*final(s)) == set_paths(*old(s)).remove(v@),
{
    s.remove(v);
}

/// Relies on `IndexMap::new`: a map with no entries.
#[verifier::external_body]
fn map_new() -> (r: ProgramCache)
    ensures
        map_entries(r).dom() == Set::<Seq<char>>::empty(),
{
    IndexMap::new()
}

/// Relies on `IndexMap::get`: the value stored for an equal key, if any.
#[verifier::external_body]
fn map_get(m: &ProgramCache, k: &String) -> (r: Option<usize>)
    ensures
        r == (if map_entries(*m).contains_key(k@) {
            Some(map_entries(*m)[k@])
        } else {
            None
        }),
{
    m.get(k).copied()
}

/// Relies on `IndexMap::insert`: the key maps to the value afterwards, and
/// the other entries stay.
#[verifier::external_body]
fn map_insert(m: &mut ProgramCache, k: String, v: usize)
    ensures
        map_entries(*final(m)) == map_entries(*old(m)).insert(k@, v),
{
    m.insert(k, v);
}

/// The segments joined by `.`.
pub open spec fn dotted(segments: Seq<Seq<char>>) -> Seq<char>
    decreases segments.len(),
{
    if segments.len() == 0 {
        Seq::empty()
    } else if segments.len() == 1 {
        segments[0]
    } else {
        dotted(segments.drop_last()) + seq!['.'] + segments.last()
    }
}

/// Why an import cannot be resolved.
#[derive(Debug)]
pub enum ImportParserError {
    /// The package is already being resolved further up: the imports form
    /// a cycle.
    RecursiveImports(String, Span),
}

/// What to do for a requested package.
#[derive(Debug, Clone, Copy, PartialEq, Eq, Structural)]
pub enum Resolution {
    /// The package was resolved before: the handle of its program.
    Cached(usize),
    /// The package must be parsed now; report the result with
    /// `finish_package`.
    Parse,
}

/// Resolution state for imported packages: the paths being resolved, and a
/// cache from each resolved path to its program's handle.
pub struct ImportParser {
    partial_imports: IndexSet<String>,
    imports: ProgramCache,
}

impl ImportParser {
    /// The paths being resolved.
    pub closed spec fn partial(&self) -> Set<Seq<char>> {
        set_paths(self.partial_imports)
    }

    /// The resolved paths and their programs.
    pub closed spec fn cache(&self) -> Map<Seq<char>, usize> {
        map_entries(self.imports)
    }

    pub fn new() -> (r: ImportParser)
        ensures
            r.partial() == Set::<Seq<char>>::empty(),
            r.cache().dom() == Set::<Seq<char>>::empty(),
    {
        ImportParser { partial_imports: set_new(), imports: map_new() }
    }

    /// The path of a package, its segments joined by `.`.
    pub fn full_path(package_segments: &Vec<String>) -> (r: String)
        ensures
            r@ == dotted(package_segments@.map_values(|s: String| s@)),
    {
        let ghost segs = package_segments@.map_values(|s: String| s@);
        let mut r = String::new();
        let mut i: usize = 0;
        proof {
            reveal_strlit(".");
            assert(segs.subrange(0, 0) =~= Seq::<Seq<char>>::empty());
        }
        while i < package_segments.len()
            invariant
                i <= package_segments@.len(),
                segs == package_segments@.map_values(|s: String| s@),
                r@ == dotted(segs.subrange(0, i as int)),
                "."@ == seq!['.'],
            decreases package_segments@.len() - i,
        {
            let ghost before = segs.subrange(0, i as int);
            let ghost after = segs.subrange(0, i + 1);
            assert(after.drop_last() =~= before);
            if i > 0 {
                r.append(".");
            } else {
                assert(r@ =~= Seq::<char>::empty());
            }
            r.append(package_segments[i].as_str());
            i = i + 1;
            assert(r@ =~= dotted(after));
        }
        assert(segs.subrange(0, i as int) =~= segs);
        r
    }

    /// Decides what a request for `package_segments` needs. A path that is
    /// being resolved is a cycle and fails; a resolved one is served from
    /// the cache; any other is marked as being resolved and must be parsed.
    pub fn resolve_package(&mut self, package_segments: &Vec<String>, span: &Span) -> (r: Result<
        Resolution,
        ImportParserError,
    >)
        ensures
            ({
                let path = dotted(package_segments@.map_values(|s: String| s@));
                &&& old(self).partial().contains(path) ==> (r matches Err(
                    ImportParserError::RecursiveImports(p, s),
                ) && p@ == path && s == *span)
                &&& !old(self).partial().contains(path) && old(self).cache().contains_key(path) ==> r
                    == Ok::<Resolution, ImportParserError>(Resolution::Cached(old(self).cache()[path]))
                &&& !old(self).partial().contains(path) && !old(self).cache().contains_key(path) ==> r
                    == Ok::<Resolution, ImportParserError>(Resolution::Parse) && final(self).partial()
                    == old(self).partial().insert(path)
                &&& !(r matches Ok(Resolution::Parse)) ==> final(self).partial() == old(self).partial()
                &&& final(self).cache() == old(self).cache()
            }),
    {
        let full_path = Self::full_path(package_segments);
        if set_contains(&self.partial_imports, &full_path) {
            return Err(ImportParserError::RecursiveImports(full_path, *span));
        }
        match map_get(&self.imports, &full_path) {
            Some(program) => Ok(Resolution::Cached(program)),
            None => {
                set_insert(&mut self.partial_imports, full_path);
                Ok(Resolution::Parse)
            },
        }
    }

    /// Records that the package at `package_segments` was parsed into the
    /// program with handle `program`: it is no longer being resolved, and
    /// later requests get `program` from the cache.
    pub fn finish_package(&mut self, package_segments: &Vec<String>, program: usize)
        ensures
            ({
                let path = dotted(package_segments@.map_values(|s: String| s@));
                &&& final(self).partial() == old(self).partial().remove(path)
                &&& final(self).cache() == old(self).cache().insert(path, program)
            }),
    {
        let full_path = Self::full_path(package_segments);
        set_remove(&mut self.partial_imports, &full_path);
        map_insert(&mut self.imports, full_path, program);
    }
}

} // verus!
