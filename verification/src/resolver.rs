//! Where module names and logical paths lead on disk.
use vstd::prelude::*;
use vstd::string::StrSliceExecFns;

use crate::dsl::Origin;
use crate::envmap::str_eq;
use crate::error::RaptorError;
use crate::names::{find_entry, lemma_find_absent, lemma_find_at, lemma_find_push, lemma_find_update, map_of_entries, unique_names};
use crate::paths::{join_all, path_components, path_components_result, path_from_parts, path_join, path_join_result, path_parent, path_parent_result};
use crate::text::{clone_strings, strings_view};

verus! {

/// What `Utf8PathBuf::set_extension` makes of a path and an extension.
pub uninterp spec fn path_set_extension_result(path: Seq<char>, ext: Seq<char>) -> Seq<char>;

/// `path` with its extension set to `ext` (`Utf8PathBuf::set_extension`).
/// Only named: the result depends on how the final component splits into
/// stem and extension. The extension holds no separator: std documents
/// a panic for one that does.
#[verifier::external_body]
fn path_with_extension(path: String, ext: &str) -> (r: String)
    requires
        !ext@.contains('/'),
    ensures
        r@ == path_set_extension_result(path@, ext@),
{
    let mut p = camino::Utf8PathBuf::from(path);
    p.set_extension(ext);
    p.into_string()
}

/// Where a module name starts: next to the file that names it, at the
/// root, or in a package.
#[derive(Clone, Debug, Hash, PartialEq, Eq)]
pub enum ModuleRoot {
    Relative,
    Absolute,
    Package(String),
}

/// A module name: where it starts, and its parts.
#[derive(Clone, Debug, Hash, PartialEq, Eq)]
pub struct ModuleName {
    pub root: ModuleRoot,
    pub parts: Vec<String>,
}

impl ModuleName {
    /// A relative name with these parts.
    pub fn new(parts: Vec<String>) -> (r: Self)
        ensures
            r.root == ModuleRoot::Relative,
            r.parts == parts,
    {
        ModuleName { root: ModuleRoot::Relative, parts }
    }

    /// Where the name starts.
    pub fn root(&self) -> (r: &ModuleRoot)
        ensures
            *r == self.root,
    {
        &self.root
    }

    /// The parts of the name.
    pub fn parts(&self) -> (r: &[String])
        ensures
            r@ == self.parts@,
    {
        self.parts.as_slice()
    }
}

/// The views of entries from names to strings.
pub open spec fn pairs_view(v: Seq<(String, String)>) -> Seq<(Seq<char>, Seq<char>)> {
    v.map_values(|p: (String, String)| (p.0@, p.1@))
}

/// Turns module names and logical paths into file paths: relative names
/// from the file that names them, package names from the package's
/// directory.
pub struct Resolver {
    base: String,
    packages: Vec<(String, String)>,
}

/// The directory of the file an origin points into.
pub open spec fn spec_basedir(path: Seq<char>) -> Option<Seq<char>> {
    path_parent_result(path)
}

/// A logical path with each `$NAME` component replaced by the directory
/// of package `NAME`; the first component that names no package, if any.
pub open spec fn spec_logical(
    comps: Seq<Seq<char>>,
    packages: Map<Seq<char>, Seq<char>>,
) -> Result<Seq<Seq<char>>, Seq<char>>
    decreases comps.len(),
{
    if comps.len() == 0 {
        Ok(Seq::empty())
    } else {
        match spec_logical(comps.drop_last(), packages) {
            Err(e) => Err(e),
            Ok(done) => {
                let c = comps.last();
                if c.len() > 0 && c[0] == '$' {
                    let name = c.drop_first();
                    if packages.contains_key(name) {
                        Ok(done.push(packages[name]))
                    } else {
                        Err(c)
                    }
                } else {
                    Ok(done.push(c))
                }
            },
        }
    }
}

impl Origin {
    /// The directory of the file this origin points into
    /// (`Utf8Path::parent`); a path without one is an error.
    pub fn basedir(&self) -> (r: Result<String, RaptorError>)
        ensures
            match spec_basedir(self.path@) {
                Some(d) => r matches Ok(s) && s@ == d,
                None => r matches Err(RaptorError::BadPathNoParent(p)) && p@ == self.path@,
            },
    {
        match path_parent(self.path.as_str()) {
            Some(d) => Ok(d),
            None => Err(RaptorError::BadPathNoParent(self.path.clone())),
        }
    }

    /// `path` taken from the directory of the file this origin points
    /// into.
    pub fn path_for(&self, path: &str) -> (r: Result<String, RaptorError>)
        ensures
            match spec_basedir(self.path@) {
                Some(d) => r matches Ok(s) && s@ == path_join_result(d, path@),
                None => r matches Err(RaptorError::BadPathNoParent(p)) && p@ == self.path@,
            },
    {
        match self.basedir() {
            Ok(d) => Ok(path_join(d.as_str(), path)),
            Err(e) => Err(e),
        }
    }
}

impl Resolver {
    /// The base directory.
    pub closed spec fn spec_base(&self) -> Seq<char> {
        self.base@
    }

    /// The directory of each package.
    pub closed spec fn spec_packages(&self) -> Map<Seq<char>, Seq<char>> {
        map_of_entries(pairs_view(self.packages@))
    }

    /// Each package once.
    #[verifier::type_invariant]
    closed spec fn inv(&self) -> bool {
        unique_names(pairs_view(self.packages@))
    }

    /// A resolver with base directory `base` and no packages.
    pub fn new(base: String) -> (r: Self)
        ensures
            r.spec_base() == base@,
            r.spec_packages() == Map::<Seq<char>, Seq<char>>::empty(),
    {
        let r = Resolver { base, packages: Vec::new() };
        proof {
            assert(pairs_view(r.packages@) =~= Seq::<(Seq<char>, Seq<char>)>::empty());
            assert(r.spec_packages() =~= Map::<Seq<char>, Seq<char>>::empty());
        }
        r
    }

    /// The base directory.
    pub fn base(&self) -> (r: &str)
        ensures
            r@ == self.spec_base(),
    {
        self.base.as_str()
    }

    /// Changes the base directory.
    pub fn set_base(&mut self, base: &str)
        ensures
            final(self).spec_base() == base@,
            final(self).spec_packages() == old(self).spec_packages(),
    {
        proof {
            use_type_invariant(&*self);
        }
        self.base = base.to_owned();
    }

    /// Where the entry of package `name` is, if there is one.
    fn position(&self, name: &str) -> (r: Option<usize>)
        ensures
            match r {
                Some(i) => i < self.packages@.len() && self.packages@[i as int].0@ == name@,
                None => forall|i: int|
                    0 <= i < self.packages@.len() ==> (#[trigger] pairs_view(self.packages@)[i]).0
                        != name@,
            },
    {
        let mut i: usize = 0;
        while i < self.packages.len()
            invariant
                i <= self.packages@.len(),
                forall|j: int|
                    0 <= j < i ==> (#[trigger] pairs_view(self.packages@)[j]).0 != name@,
            decreases self.packages@.len() - i,
        {
            if str_eq(self.packages[i].0.as_str(), name) {
                return Some(i);
            }
            i = i + 1;
        }
        None
    }

    /// Makes `path` the directory of package `name`, in place of any
    /// earlier one.
    pub fn add_package(&mut self, name: String, path: String)
        ensures
            final(self).spec_base() == old(self).spec_base(),
            final(self).spec_packages() == old(self).spec_packages().insert(name@, path@),
    {
        proof {
            use_type_invariant(&*self);
        }
        let ghost e = pairs_view(self.packages@);
        let ghost (nv, pv) = (name@, path@);
        let mut packages: Vec<(String, String)> = Vec::new();
        match self.position(name.as_str()) {
            Some(i) => {
                proof {
                    lemma_find_at(e, i as int);
                }
                std::mem::swap(&mut packages, &mut self.packages);
                packages.set(i, (name, path));
                proof {
                    let e2 = pairs_view(packages@);
                    assert(e2 =~= e.update(i as int, (e[i as int].0, pv)));
                    assert forall|a: int, b: int| 0 <= a < b < e2.len() implies #[trigger] e2[a].0
                        != #[trigger] e2[b].0 by {
                        assert(e2[a].0 == e[a].0 && e2[b].0 == e[b].0);
                    }
                    assert forall|q: Seq<char>| #![auto]
                        find_entry(e2, q) == (if q == nv {
                            Some(pv)
                        } else {
                            find_entry(e, q)
                        }) by {
                        lemma_find_update(e, i as int, pv, q);
                    }
                }
            },
            None => {
                proof {
                    lemma_find_absent(e, name@);
                }
                std::mem::swap(&mut packages, &mut self.packages);
                packages.push((name, path));
                proof {
                    let e2 = pairs_view(packages@);
                    assert(e2 =~= e.push((nv, pv)));
                    assert forall|a: int, b: int| 0 <= a < b < e2.len() implies #[trigger] e2[a].0
                        != #[trigger] e2[b].0 by {
                        if b == e.len() {
                            assert(e2[a] == e[a]);
                        }
                    }
                    assert forall|q: Seq<char>| #![auto]
                        find_entry(e2, q) == (if q == nv {
                            Some(pv)
                        } else {
                            find_entry(e, q)
                        }) by {
                        lemma_find_push(e, nv, pv, q);
                    }
                }
            },
        }
        self.packages = packages;
        proof {
            assert(self.spec_packages() =~= old(self).spec_packages().insert(nv, pv));
        }
    }

    /// The directory of package `name`.
    pub fn get_package(&self, name: &str) -> (r: Option<&String>)
        ensures
            match r {
                Some(p) => self.spec_packages().contains_key(name@) && self.spec_packages()[name@]
                    == p@,
                None => !self.spec_packages().contains_key(name@),
            },
    {
        proof {
            use_type_invariant(self);
        }
        match self.position(name) {
            Some(i) => {
                proof {
                    lemma_find_at(pairs_view(self.packages@), i as int);
                }
                Some(&self.packages[i].1)
            },
            None => {
                proof {
                    lemma_find_absent(pairs_view(self.packages@), name@);
                }
                None
            },
        }
    }

    /// `path` taken from the base directory.
    pub fn path(&self, path: &str) -> (r: String)
        ensures
            r@ == path_join_result(self.spec_base(), path@),
    {
        path_join(self.base.as_str(), path)
    }

    /// What resolving `end` from `root` gives (see `to_path`).
    pub open spec fn resolves_to(
        &self,
        root: ModuleRoot,
        origin: Origin,
        end: Seq<char>,
        r: Result<String, RaptorError>,
    ) -> bool {
        match root {
            ModuleRoot::Relative => match spec_basedir(origin.path@) {
                Some(d) => r matches Ok(s) && s@ == path_join_result(d, end),
                None => r matches Err(RaptorError::BadPathNoParent(p)) && p@ == origin.path@,
            },
            ModuleRoot::Absolute => r matches Ok(s) && s@ == end,
            ModuleRoot::Package(pkg) => if self.spec_packages().contains_key(pkg@) {
                r matches Ok(s) && s@ == path_join_result(self.spec_packages()[pkg@], end)
            } else {
                r matches Err(RaptorError::PackageNotFound(n, o)) && n@ == pkg@ && o == origin
            },
        }
    }

    /// The file that `end` names from `root`: next to the file of
    /// `origin`, as it is, or in the package's directory.
    pub fn to_path(&self, root: &ModuleRoot, origin: &Origin, end: &str) -> (r: Result<
        String,
        RaptorError,
    >)
        ensures
            self.resolves_to(*root, *origin, end@, r),
    {
        match root {
            ModuleRoot::Relative => origin.path_for(end),
            ModuleRoot::Absolute => Ok(end.to_owned()),
            ModuleRoot::Package(pkg) => match self.get_package(pkg.as_str()) {
                Some(dir) => Ok(path_join(dir.as_str(), end)),
                None => Err(RaptorError::PackageNotFound(pkg.clone(), origin.clone())),
            },
        }
    }

    /// The program file that `name` refers to: its parts as a path, with
    /// extension `rapt`.
    pub fn to_program_path(&self, name: &ModuleName, origin: &Origin) -> (r: Result<
        String,
        RaptorError,
    >)
        ensures
            self.resolves_to(
                name.root,
                *origin,
                path_set_extension_result(join_all(strings_view(name.parts@)), "rapt"@),
                r,
            ),
    {
        proof {
            reveal_strlit("rapt");
        }
        let end = path_with_extension(path_from_parts(&name.parts), "rapt");
        self.to_path(&name.root, origin, end.as_str())
    }

    /// The include file that `name` refers to: its parts as a path, with
    /// extension `rinc`.
    pub fn to_include_path(&self, name: &ModuleName, origin: &Origin) -> (r: Result<
        String,
        RaptorError,
    >)
        ensures
            self.resolves_to(
                name.root,
                *origin,
                path_set_extension_result(join_all(strings_view(name.parts@)), "rinc"@),
                r,
            ),
    {
        proof {
            reveal_strlit("rinc");
        }
        let end = path_with_extension(path_from_parts(&name.parts), "rinc");
        self.to_path(&name.root, origin, end.as_str())
    }

    /// `path` with each component `$NAME` replaced by the directory of
    /// package `NAME`; a component that names no package is an error.
    pub fn resolve_logical_path(&self, path: &str) -> (r: Result<String, RaptorError>)
        ensures
            match spec_logical(path_components_result(path@), self.spec_packages()) {
                Ok(parts) => r matches Ok(s) && s@ == join_all(parts),
                Err(c) => r matches Err(RaptorError::MissingLink(n)) && n@ == c,
            },
    {
        let comps = path_components(path);
        let ghost cv = strings_view(comps@);
        let mut parts: Vec<String> = Vec::new();
        let mut i: usize = 0;
        proof {
            assert(cv.take(0) =~= Seq::<Seq<char>>::empty());
            assert(strings_view(parts@) =~= Seq::<Seq<char>>::empty());
        }
        while i < comps.len()
            invariant
                i <= comps@.len(),
                cv == strings_view(comps@),
                cv == path_components_result(path@),
                spec_logical(cv.take(i as int), self.spec_packages()) == Ok::<
                    Seq<Seq<char>>,
                    Seq<char>,
                >(strings_view(parts@)),
            decreases comps@.len() - i,
        {
            let comp = &comps[i];
            let ghost before = strings_view(parts@);
            proof {
                assert(cv.take(i + 1).drop_last() =~= cv.take(i as int));
                assert(cv.take(i + 1).last() == comp@);
            }
            let (is_link, name) = link_name(comp.as_str());
            if is_link {
                match self.get_package(name) {
                    Some(dir) => {
                        parts.push(dir.clone());
                        proof {
                            assert(strings_view(parts@) =~= before.push(dir@));
                        }
                    },
                    None => {
                        proof {
                            lemma_logical_stops(cv, i as int + 1, self.spec_packages());
                        }
                        return Err(RaptorError::MissingLink(comp.clone()));
                    },
                }
            } else {
                parts.push(comp.clone());
                proof {
                    assert(strings_view(parts@) =~= before.push(comp@));
                }
            }
            i = i + 1;
        }
        proof {
            assert(cv.take(comps@.len() as int) =~= cv);
        }
        Ok(path_from_parts(&parts))
    }
}

/// Whether a component names a package (`$NAME`), and the name after the
/// `$`.
fn link_name(c: &str) -> (r: (bool, &str))
    ensures
        r.0 == (c@.len() > 0 && c@[0] == '$'),
        r.0 ==> r.1@ == c@.drop_first(),
{
    let n = c.unicode_len();
    if n > 0 && c.get_char(0) == '$' {
        let rest = c.substring_char(1, n);
        proof {
            assert(rest@ =~= c@.drop_first());
        }
        (true, rest)
    } else {
        (false, c)
    }
}

/// Once a component names no package, the ones after it change nothing.
proof fn lemma_logical_stops(
    comps: Seq<Seq<char>>,
    n: int,
    packages: Map<Seq<char>, Seq<char>>,
)
    requires
        0 <= n <= comps.len(),
        spec_logical(comps.take(n), packages) is Err,
    ensures
        spec_logical(comps, packages) == spec_logical(comps.take(n), packages),
    decreases comps.len() - n,
{
    if n < comps.len() {
        assert(comps.take(n + 1).drop_last() =~= comps.take(n));
        lemma_logical_stops(comps, n + 1, packages);
    } else {
        assert(comps.take(n) =~= comps);
    }
}

} // verus!
