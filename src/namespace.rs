//! The namespace tree: child namespaces, classes and functions keyed by
//! lowercase name, with a cache of resolved function paths.
use vstd::prelude::*;
use std::collections::HashMap;
use std::rc::Rc;
use crate::opcode::InstructionSequence;
use crate::text::{lowercase, lowercase_of, sip_digest};

verus! {

/// A named, documented parameter of a function.
pub struct FunctionParameter {
    pub name: String,
    pub doc: String,
}

/// A callable: a host binding of type `B`, or a script function with its
/// own instruction sequence.
pub enum Function<B> {
    NativeFunction { parameters: Vec<String>, binding: B },
    VirtualFunction { parameters: Vec<String>, instructions: InstructionSequence },
}

/// A function table entry; `name` is lowercase.
pub struct FunctionEntry<B> {
    pub name: String,
    pub function: Rc<Function<B>>,
}

/// A child namespace entry; `name` is lowercase.
pub struct NamespaceEntry<B> {
    pub name: String,
    pub namespace: Namespace<B>,
}

/// A class definition: stored, not instantiated.
pub struct ClassEntry<B> {
    pub name: String,
    pub namespaces: Vec<String>,
    pub functions: Vec<FunctionEntry<B>>,
}

/// A cached resolution: the lowercase path and the function it led to.
pub struct CacheEntry<B> {
    pub path: Vec<String>,
    pub function: Rc<Function<B>>,
}

/// Why a path could not be resolved.
#[derive(Clone, Copy, Debug, PartialEq, Eq, Structural)]
pub enum RegistryError {
    EmptyPath,
    NamespaceLookupFailed,
    FunctionLookupFailed,
}

impl RegistryError {
    /// A short description of the error.
    pub fn message(&self) -> &'static str {
        match self {
            RegistryError::EmptyPath => "Empty Path",
            RegistryError::NamespaceLookupFailed => "Namespace Lookup Failed",
            RegistryError::FunctionLookupFailed => "Function Lookup Failed",
        }
    }
}

/// A node of the namespace tree.
pub struct Namespace<B> {
    pub children: Vec<NamespaceEntry<B>>,
    pub classes: Vec<ClassEntry<B>>,
    pub functions: Vec<FunctionEntry<B>>,
    pub function_cache: HashMap<u64, CacheEntry<B>>,
}

/// The texts of a sequence of strings.
pub open spec fn texts(path: Seq<String>) -> Seq<Seq<char>> {
    path.map_values(|s: String| s@)
}

/// A path with each element in lowercase.
pub open spec fn lowered_path(path: Seq<String>) -> Seq<Seq<char>> {
    path.map_values(|s: String| lowercase_of(s@))
}

/// The first position of `name` in `names`.
pub open spec fn first_index(names: Seq<Seq<char>>, name: Seq<char>) -> Option<int>
    decreases names.len(),
{
    if names.len() == 0 {
        None
    } else {
        match first_index(names.drop_last(), name) {
            Some(i) => Some(i),
            None => if names.last() == name { Some(names.len() - 1) } else { None },
        }
    }
}

pub open spec fn child_names<B>(children: Seq<NamespaceEntry<B>>) -> Seq<Seq<char>> {
    children.map_values(|e: NamespaceEntry<B>| e.name@)
}

pub open spec fn function_names<B>(functions: Seq<FunctionEntry<B>>) -> Seq<Seq<char>> {
    functions.map_values(|e: FunctionEntry<B>| e.name@)
}

/// What a lowercase path resolves to: every element but the last names a
/// child namespace, the last names a function.
pub open spec fn lookup_spec<B>(ns: Namespace<B>, path: Seq<Seq<char>>) -> Result<Rc<Function<B>>, RegistryError>
    decreases path.len(),
{
    if path.len() == 0 {
        Err(RegistryError::EmptyPath)
    } else if path.len() == 1 {
        match first_index(function_names(ns.functions@), path[0]) {
            Some(i) => Ok(ns.functions@[i].function),
            None => Err(RegistryError::FunctionLookupFailed),
        }
    } else {
        match first_index(child_names(ns.children@), path[0]) {
            Some(i) => lookup_spec(ns.children@[i].namespace, path.drop_first()),
            None => Err(RegistryError::NamespaceLookupFailed),
        }
    }
}

/// Whether a lowercase path resolves to the given function.
pub open spec fn resolves_to<B>(ns: Namespace<B>, path: Seq<Seq<char>>, function: Function<B>) -> bool {
    lookup_spec(ns, path) matches Ok(f) && f == function
}

proof fn lemma_first_index_extend(names: Seq<Seq<char>>, i: int, name: Seq<char>)
    requires
        0 <= i < names.len(),
        first_index(names.subrange(0, i), name) is None,
    ensures
        first_index(names.subrange(0, i + 1), name) == if names[i] == name { Some(i) } else { None::<int> },
{
    assert(names.subrange(0, i + 1).drop_last() =~= names.subrange(0, i));
}

proof fn lemma_first_index_bound(names: Seq<Seq<char>>, name: Seq<char>)
    ensures
        match first_index(names, name) {
            Some(i) => 0 <= i < names.len() && names[i] == name,
            None => true,
        },
    decreases names.len(),
{
    if names.len() > 0 {
        lemma_first_index_bound(names.drop_last(), name);
    }
}

proof fn lemma_first_index_push(names: Seq<Seq<char>>, name: Seq<char>)
    requires
        first_index(names, name) is None,
    ensures
        first_index(names.push(name), name) == Some(names.len() as int),
{
    assert(names.push(name).drop_last() =~= names);
}


/// Two namespaces resolve `q` alike wherever either resolves it: a
/// successful resolution is the same in both.
pub open spec fn agree_on<B>(a: Namespace<B>, b: Namespace<B>, q: Seq<Seq<char>>) -> bool {
    (lookup_spec(a, q) is Ok || lookup_spec(b, q) is Ok) ==> lookup_spec(a, q) == lookup_spec(b, q)
}

/// Every path but `p` resolves alike in both namespaces.
pub open spec fn agree_except<B>(a: Namespace<B>, b: Namespace<B>, p: Seq<Seq<char>>) -> bool {
    forall|q: Seq<Seq<char>>| q != p ==> #[trigger] agree_on(a, b, q)
}

proof fn lemma_first_index_push_other(names: Seq<Seq<char>>, x: Seq<char>, y: Seq<char>)
    requires
        x != y,
    ensures
        first_index(names.push(x), y) == first_index(names, y),
{
    assert(names.push(x).drop_last() =~= names);
}

proof fn lemma_lookup_empty<B>(ns: Namespace<B>, q: Seq<Seq<char>>)
    requires
        ns.children@.len() == 0,
        ns.functions@.len() == 0,
    ensures
        lookup_spec(ns, q) is Err,
{
    assert(child_names(ns.children@) =~= Seq::<Seq<char>>::empty());
    assert(function_names(ns.functions@) =~= Seq::<Seq<char>>::empty());
}

/// Adding an empty child under a new name changes no resolution.
proof fn lemma_push_empty_child<B>(old_ns: Namespace<B>, mid: Namespace<B>, key: Seq<char>, q: Seq<Seq<char>>)
    requires
        mid.functions == old_ns.functions,
        first_index(child_names(old_ns.children@), key) is None,
        mid.children@.len() == old_ns.children@.len() + 1,
        forall|j: int| 0 <= j < old_ns.children@.len() ==> mid.children@[j] == old_ns.children@[j],
        mid.children@.last().name@ == key,
        mid.children@.last().namespace.children@.len() == 0,
        mid.children@.last().namespace.functions@.len() == 0,
    ensures
        agree_on(old_ns, mid, q),
{
    let names = child_names(old_ns.children@);
    assert(child_names(mid.children@) =~= names.push(key));
    if q.len() >= 2 {
        if q[0] == key {
            lemma_first_index_push(names, key);
            lemma_lookup_empty(mid.children@.last().namespace, q.drop_first());
        } else {
            lemma_first_index_push_other(names, key, q[0]);
            lemma_first_index_bound(names, q[0]);
        }
    }
}

/// Changing one child, whose resolutions stay the same but for the rest of
/// `rest`, changes no resolution but that of `rest`.
proof fn lemma_update_child<B>(mid: Namespace<B>, new_ns: Namespace<B>, idx: int, rest: Seq<Seq<char>>, q: Seq<Seq<char>>)
    requires
        rest.len() >= 2,
        q != rest,
        new_ns.functions == mid.functions,
        0 <= idx < mid.children@.len(),
        first_index(child_names(mid.children@), rest[0]) == Some(idx),
        new_ns.children@.len() == mid.children@.len(),
        child_names(new_ns.children@) == child_names(mid.children@),
        forall|j: int| 0 <= j < mid.children@.len() && j != idx ==> new_ns.children@[j] == mid.children@[j],
        agree_except(mid.children@[idx].namespace, new_ns.children@[idx].namespace, rest.drop_first()),
    ensures
        agree_on(mid, new_ns, q),
{
    if q.len() >= 2 {
        let names = child_names(mid.children@);
        lemma_first_index_bound(names, q[0]);
        lemma_first_index_bound(names, rest[0]);
        if let Some(i) = first_index(names, q[0]) {
            if i == idx {
                assert(q[0] == rest[0]);
                if q.drop_first() == rest.drop_first() {
                    assert(q =~= rest) by {
                        assert(q.drop_first().len() == rest.drop_first().len());
                        assert(q.len() == rest.len());
                        assert forall|k: int| 0 <= k < q.len() implies q[k] == rest[k] by {
                            if k > 0 {
                                assert(q[k] == q.drop_first()[k - 1]);
                            }
                        }
                    }
                }
                assert(agree_on(mid.children@[idx].namespace, new_ns.children@[idx].namespace, q.drop_first()));
            }
        }
    }
}

/// Replacing or adding the function named `key` in the function table
/// changes no resolution but that of `[key]`.
proof fn lemma_function_table<B>(old_ns: Namespace<B>, new_ns: Namespace<B>, key: Seq<char>, q: Seq<Seq<char>>)
    requires
        new_ns.children == old_ns.children,
        q != seq![key],
        forall|j: int| 0 <= j < old_ns.functions@.len() && old_ns.functions@[j].name@ != key
            ==> new_ns.functions@[j] == old_ns.functions@[j],
        function_names(new_ns.functions@) == function_names(old_ns.functions@)
            || (first_index(function_names(old_ns.functions@), key) is None
                && function_names(new_ns.functions@) == function_names(old_ns.functions@).push(key)),
    ensures
        agree_on(old_ns, new_ns, q),
{
    if q.len() == 1 {
        let names = function_names(old_ns.functions@);
        if q[0] == key {
            assert(q =~= seq![key]);
        }
        lemma_first_index_bound(names, q[0]);
        if function_names(new_ns.functions@) != names {
            lemma_first_index_push_other(names, key, q[0]);
        }
    }
}

/// Relies on `Rc::clone`: the new handle shares the same function.
#[verifier::external_body]
fn share<B>(f: &Rc<Function<B>>) -> (r: Rc<Function<B>>)
    ensures
        r == *f,
{
    Rc::clone(f)
}

fn find_child<B>(children: &Vec<NamespaceEntry<B>>, name: &String) -> (r: Option<usize>)
    ensures
        match r {
            Some(i) => first_index(child_names(children@), name@) == Some(i as int),
            None => first_index(child_names(children@), name@) is None,
        },
{
    let mut i: usize = 0;
    while i < children.len()
        invariant
            i <= children@.len(),
            first_index(child_names(children@).subrange(0, i as int), name@) is None,
        decreases children@.len() - i,
    {
        proof {
            lemma_first_index_extend(child_names(children@), i as int, name@);
        }
        if children[i].name == *name {
            proof {
                lemma_first_index_of_prefix(child_names(children@), i as int + 1, name@);
            }
            return Some(i);
        }
        i = i + 1;
    }
    proof {
        assert(child_names(children@).subrange(0, i as int) =~= child_names(children@));
    }
    None
}

fn find_function<B>(functions: &Vec<FunctionEntry<B>>, name: &String) -> (r: Option<usize>)
    ensures
        match r {
            Some(i) => first_index(function_names(functions@), name@) == Some(i as int),
            None => first_index(function_names(functions@), name@) is None,
        },
{
    let mut i: usize = 0;
    while i < functions.len()
        invariant
            i <= functions@.len(),
            first_index(function_names(functions@).subrange(0, i as int), name@) is None,
        decreases functions@.len() - i,
    {
        proof {
            lemma_first_index_extend(function_names(functions@), i as int, name@);
        }
        if functions[i].name == *name {
            proof {
                lemma_first_index_of_prefix(function_names(functions@), i as int + 1, name@);
            }
            return Some(i);
        }
        i = i + 1;
    }
    proof {
        assert(function_names(functions@).subrange(0, i as int) =~= function_names(functions@));
    }
    None
}

/// A match within a prefix is the first match of the whole sequence.
proof fn lemma_first_index_of_prefix(names: Seq<Seq<char>>, k: int, name: Seq<char>)
    requires
        0 <= k <= names.len(),
        first_index(names.subrange(0, k), name) is Some,
    ensures
        first_index(names, name) == first_index(names.subrange(0, k), name),
    decreases names.len() - k,
{
    if k < names.len() {
        assert(names.subrange(0, k + 1).drop_last() =~= names.subrange(0, k));
        lemma_first_index_of_prefix(names, k + 1, name);
    } else {
        assert(names.subrange(0, k) =~= names);
    }
}

/// Whether two paths hold the same texts.
fn same_path(a: &Vec<String>, b: &Vec<String>) -> (r: bool)
    ensures
        r == (texts(a@) == texts(b@)),
{
    if a.len() != b.len() {
        proof {
            assert(texts(a@).len() != texts(b@).len());
        }
        return false;
    }
    let mut i: usize = 0;
    while i < a.len()
        invariant
            a@.len() == b@.len(),
            i <= a@.len(),
            forall|j: int| 0 <= j < i ==> a@[j]@ == b@[j]@,
        decreases a@.len() - i,
    {
        if a[i] != b[i] {
            proof {
                assert(texts(a@)[i as int] != texts(b@)[i as int]);
            }
            return false;
        }
        i = i + 1;
    }
    proof {
        assert(texts(a@) =~= texts(b@));
    }
    true
}

/// Multiplier that mixes the digests of a path's elements into one key.
pub const PATH_KEY_FACTOR: u64 = 0x100_0000_01b3;

/// The cache key of a lowercase path: the digests of its elements, mixed.
fn path_key(path: &Vec<String>) -> u64 {
    let mut key: u64 = 0;
    let mut i: usize = 0;
    while i < path.len()
        invariant
            i <= path@.len(),
        decreases path@.len() - i,
    {
        key = key.wrapping_mul(PATH_KEY_FACTOR) ^ sip_digest(path[i].as_str());
        i = i + 1;
    }
    key
}

/// The path with each element in lowercase.
fn lower_all(path: &Vec<String>) -> (r: Vec<String>)
    ensures
        texts(r@) == lowered_path(path@),
{
    let mut r: Vec<String> = Vec::new();
    let mut i: usize = 0;
    while i < path.len()
        invariant
            i <= path@.len(),
            r@.len() == i,
            forall|j: int| 0 <= j < i ==> #[trigger] r@[j]@ == lowercase_of(path@[j]@),
        decreases path@.len() - i,
    {
        r.push(lowercase(path[i].as_str()));
        i = i + 1;
    }
    proof {
        assert(texts(r@) =~= lowered_path(path@));
    }
    r
}

/// Resolution reads only the child and function tables.
proof fn lemma_lookup_tables<B>(a: Namespace<B>, b: Namespace<B>, path: Seq<Seq<char>>)
    requires
        a.children == b.children,
        a.functions == b.functions,
    ensures
        lookup_spec(a, path) == lookup_spec(b, path),
{
}

impl<B> Namespace<B> {
    /// An empty namespace.
    pub fn new() -> (r: Self)
        ensures
            r.children@.len() == 0,
            r.classes@.len() == 0,
            r.functions@.len() == 0,
            r.function_cache@ == Map::<u64, CacheEntry<B>>::empty(),
    {
        Namespace {
            children: Vec::new(),
            classes: Vec::new(),
            functions: Vec::new(),
            function_cache: HashMap::new(),
        }
    }

    /// Every cached resolution is what the tree resolves its path to.
    pub open spec fn wf(&self) -> bool {
        forall|k: u64| #[trigger] self.function_cache@.contains_key(k)
            ==> lookup_spec(*self, texts(self.function_cache@[k].path@)) == Ok::<Rc<Function<B>>, RegistryError>(self.function_cache@[k].function)
    }

    fn lookup_from(&self, path: &[String], start: usize) -> (r: Result<Rc<Function<B>>, RegistryError>)
        requires
            start <= path@.len(),
        ensures
            r == lookup_spec(*self, lowered_path(path@).subrange(start as int, path@.len() as int)),
        decreases path@.len() - start,
    {
        let ghost rest = lowered_path(path@).subrange(start as int, path@.len() as int);
        if start >= path.len() {
            return Err(RegistryError::EmptyPath);
        }
        let name = lowercase(path[start].as_str());
        assert(rest[0] == name@);
        proof {
            lemma_first_index_bound(child_names(self.children@), name@);
            lemma_first_index_bound(function_names(self.functions@), name@);
        }
        if path.len() - start > 1 {
            match find_child(&self.children, &name) {
                Some(i) => {
                    assert(rest.drop_first() =~= lowered_path(path@).subrange(start + 1, path@.len() as int));
                    self.children[i].namespace.lookup_from(path, start + 1)
                },
                None => {
                    Err(RegistryError::NamespaceLookupFailed)
                },
            }
        } else {
            match find_function(&self.functions, &name) {
                Some(i) => {
                    Ok(share(&self.functions[i].function))
                },
                None => {
                    Err(RegistryError::FunctionLookupFailed)
                },
            }
        }
    }

    /// Resolves a path, lowercasing each element, without the cache.
    pub fn lookup_function_uncached_slice(&self, path: &[String]) -> (r: Result<Rc<Function<B>>, RegistryError>)
        ensures
            r == lookup_spec(*self, lowered_path(path@)),
    {
        let r = self.lookup_from(path, 0);
        assert(lowered_path(path@).subrange(0, path@.len() as int) =~= lowered_path(path@));
        r
    }

    fn add_from(&mut self, function: Function<B>, path: &[String], start: usize)
        requires
            start < path@.len(),
        ensures
            resolves_to(*final(self), lowered_path(path@).subrange(start as int, path@.len() as int), function),
            agree_except(*old(self), *final(self), lowered_path(path@).subrange(start as int, path@.len() as int)),
            final(self).classes == old(self).classes,
            final(self).function_cache@ == Map::<u64, CacheEntry<B>>::empty(),
        decreases path@.len() - start,
    {
        let ghost rest = lowered_path(path@).subrange(start as int, path@.len() as int);
        self.function_cache.clear();
        let name = lowercase(path[start].as_str());
        let ghost key = name@;
        assert(rest[0] == key);
        let ghost before = *self;
        if path.len() - start > 1 {
            let found = find_child(&self.children, &name);
            let idx = match found {
                Some(i) => i,
                None => {
                    proof {
                        lemma_first_index_push(child_names(self.children@), key);
                    }
                    self.children.push(NamespaceEntry { name, namespace: Namespace::new() });
                    proof {
                        assert(child_names(self.children@) =~= child_names(old(self).children@).push(key));
                    }
                    self.children.len() - 1
                },
            };
            proof {
                lemma_first_index_bound(child_names(self.children@), key);
            }
            let ghost names_before = child_names(self.children@);
            let ghost mid = *self;
            assert(rest.drop_first() =~= lowered_path(path@).subrange(start + 1, path@.len() as int));
            self.children[idx].namespace.add_from(function, path, start + 1);
            proof {
                assert(child_names(self.children@) =~= names_before);
                assert forall|q: Seq<Seq<char>>| q != rest implies #[trigger] agree_on(*old(self), *self, q) by {
                    lemma_update_child(mid, *self, idx as int, rest, q);
                    lemma_lookup_tables(*old(self), before, q);
                    if found is None {
                        lemma_push_empty_child(before, mid, key, q);
                    }
                }
            }
        } else {
            match find_function(&self.functions, &name) {
                Some(i) => {
                    proof {
                        lemma_first_index_bound(function_names(self.functions@), key);
                    }
                    let ghost names_before = function_names(self.functions@);
                    self.functions.set(i, FunctionEntry { name, function: Rc::new(function) });
                    proof {
                        assert(function_names(self.functions@) =~= names_before);
                        assert(rest =~= seq![key]);
                        assert forall|q: Seq<Seq<char>>| q != rest implies #[trigger] agree_on(*old(self), *self, q) by {
                            lemma_lookup_tables(*old(self), before, q);
                            lemma_function_table(before, *self, key, q);
                        }
                    }
                },
                None => {
                    proof {
                        lemma_first_index_push(function_names(self.functions@), key);
                    }
                    let ghost names_before = function_names(self.functions@);
                    self.functions.push(FunctionEntry { name, function: Rc::new(function) });
                    proof {
                        assert(function_names(self.functions@) =~= names_before.push(key));
                        assert(rest =~= seq![key]);
                        assert forall|q: Seq<Seq<char>>| q != rest implies #[trigger] agree_on(*old(self), *self, q) by {
                            lemma_lookup_tables(*old(self), before, q);
                            lemma_function_table(before, *self, key, q);
                        }
                    }
                },
            }
        }
    }

    /// Registers a function under a path, creating the namespaces along it
    /// that do not exist yet; an earlier function under the same path is
    /// replaced. Fails only on an empty path. Either way the cache is
    /// cleared, so no resolution made before can shadow the new entry.
    pub fn add_function_entry_slice(&mut self, function: Function<B>, path: &[String]) -> (r: Result<(), RegistryError>)
        ensures
            r is Err <==> path@.len() == 0,
            r is Err ==> r == Err::<(), RegistryError>(RegistryError::EmptyPath),
            r is Err ==> final(self).children == old(self).children && final(self).functions == old(self).functions
                && final(self).classes == old(self).classes,
            r is Ok ==> resolves_to(*final(self), lowered_path(path@), function),
            r is Ok ==> agree_except(*old(self), *final(self), lowered_path(path@)),
            final(self).classes == old(self).classes,
            final(self).function_cache@ == Map::<u64, CacheEntry<B>>::empty(),
            final(self).wf(),
    {
        if path.len() == 0 {
            self.function_cache.clear();
            return Err(RegistryError::EmptyPath);
        }
        self.add_from(function, path, 0);
        assert(lowered_path(path@).subrange(0, path@.len() as int) =~= lowered_path(path@));
        Ok(())
    }

    /// Registers a function under a path; see `add_function_entry_slice`.
    pub fn add_function_entry(&mut self, function: Function<B>, path: &Vec<String>) -> (r: Result<(), RegistryError>)
        ensures
            r is Err <==> path@.len() == 0,
            r is Err ==> r == Err::<(), RegistryError>(RegistryError::EmptyPath),
            r is Err ==> final(self).children == old(self).children && final(self).functions == old(self).functions
                && final(self).classes == old(self).classes,
            r is Ok ==> resolves_to(*final(self), lowered_path(path@), function),
            r is Ok ==> agree_except(*old(self), *final(self), lowered_path(path@)),
            final(self).classes == old(self).classes,
            final(self).function_cache@ == Map::<u64, CacheEntry<B>>::empty(),
            final(self).wf(),
    {
        self.add_function_entry_slice(function, path.as_slice())
    }

    /// Resolves a path, lowercasing each element, through the cache: a
    /// cached entry is used when its stored path is the one asked for (two
    /// paths whose keys collide are told apart); otherwise the tree is
    /// walked and a successful resolution is cached. The cache is consistent
    /// (`wf`) in every namespace that `new` and the registration methods
    /// produce.
    pub fn lookup_function_cached(&mut self, path: &Vec<String>) -> (r: Result<Rc<Function<B>>, RegistryError>)
        ensures
            old(self).wf() ==> r == lookup_spec(*old(self), lowered_path(path@)),
            old(self).wf() ==> final(self).wf(),
            final(self).children == old(self).children,
            final(self).functions == old(self).functions,
            final(self).classes == old(self).classes,
    {
        broadcast use vstd::std_specs::hash::group_hash_axioms;
        let lowered = lower_all(path);
        let key = path_key(&lowered);
        let hit = match self.function_cache.get(&key) {
            Some(entry) => {
                if same_path(&entry.path, &lowered) {
                    Some(share(&entry.function))
                } else {
                    None
                }
            },
            None => None,
        };
        if let Some(f) = hit {
            return Ok(f);
        }
        let r = self.lookup_function_uncached_slice(path.as_slice());
        if let Ok(f) = &r {
            let ghost before = *self;
            self.function_cache.insert(key, CacheEntry { path: lowered, function: share(f) });
            proof {
                if before.wf() {
                    assert forall|k: u64| #[trigger] self.function_cache@.contains_key(k) implies
                        lookup_spec(*self, texts(self.function_cache@[k].path@)) == Ok::<Rc<Function<B>>, RegistryError>(self.function_cache@[k].function) by {
                        lemma_lookup_tables(*self, before, texts(self.function_cache@[k].path@));
                    }
                }
            }
        }
        r
    }

    /// Resolves a path, lowercasing each element, without the cache.
    pub fn lookup_function_uncached(&self, path: Vec<String>) -> (r: Result<Rc<Function<B>>, RegistryError>)
        ensures
            r == lookup_spec(*self, lowered_path(path@)),
    {
        self.lookup_function_uncached_slice(path.as_slice())
    }
}

} // verus!
