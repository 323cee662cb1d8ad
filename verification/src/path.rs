//! Local paths, as the components they name.
use vstd::prelude::*;
use vstd::string::*;
use vstd::utf8::*;

verus! {

/// A path on this machine: its components from the root down, each as the
/// operating system's bytes. Two paths are the same path where their
/// components are.
#[derive(Debug, Clone, PartialEq, Eq)]
pub struct LocalPath {
    pub components: Vec<Vec<u8>>,
}

impl View for LocalPath {
    type V = Seq<Seq<u8>>;

    open spec fn view(&self) -> Seq<Seq<u8>> {
        self.components@.map_values(|c: Vec<u8>| c@)
    }
}

/// Whether `name` names an entry of a directory: a single component that is
/// neither the directory itself nor its parent.
pub open spec fn entry_name(name: Seq<char>) -> bool {
    &&& name.len() > 0
    &&& !name.contains('/')
    &&& !name.contains('\\')
    &&& name != seq!['.']
    &&& name != seq!['.', '.']
}

/// The path of the entry `name` of the directory `dir`.
pub open spec fn entry_of(dir: Seq<Seq<u8>>, name: Seq<char>) -> Seq<Seq<u8>> {
    dir.push(encode_utf8(name))
}

/// Copies a byte string.
pub(crate) fn copy_bytes(bytes: &Vec<u8>) -> (r: Vec<u8>)
    ensures
        r@ == bytes@,
{
    let r = bytes.clone();
    assert(r@ =~= bytes@);
    r
}

/// Whether two byte strings are equal.
pub(crate) fn same_bytes(a: &Vec<u8>, b: &Vec<u8>) -> (r: bool)
    ensures
        r == (a@ == b@),
{
    if a.len() != b.len() {
        return false;
    }
    let n = a.len();
    for i in 0..n
        invariant
            n == a@.len(),
            n == b@.len(),
            forall|j: int| 0 <= j < i ==> a@[j] == b@[j],
    {
        if a[i] != b[i] {
            return false;
        }
    }
    assert(a@ =~= b@);
    true
}

impl LocalPath {
    /// The path of the entry `name` of this directory.
    pub fn join(&self, name: &str) -> (r: LocalPath)
        requires
            entry_name(name@),
        ensures
            r@ == entry_of(self@, name@),
    {
        let mut r = self.copy();
        let last = name.as_bytes_vec();
        r.components.push(last);
        assert(r@ =~= entry_of(self@, name@));
        r
    }

    /// A copy of this path.
    pub fn copy(&self) -> (r: LocalPath)
        ensures
            r@ == self@,
    {
        let mut components: Vec<Vec<u8>> = Vec::new();
        let n = self.components.len();
        for i in 0..n
            invariant
                n == self.components@.len(),
                components@.len() == i,
                forall|j: int| 0 <= j < i ==> #[trigger] components@[j]@ == self.components@[j]@,
        {
            components.push(copy_bytes(&self.components[i]));
        }
        let r = LocalPath { components };
        assert(r@ =~= self@);
        r
    }

    /// Whether this path and `other` are the same path.
    pub fn same(&self, other: &LocalPath) -> (r: bool)
        ensures
            r == (self@ == other@),
    {
        if self.components.len() != other.components.len() {
            assert(self@.len() != other@.len());
            return false;
        }
        let n = self.components.len();
        for i in 0..n
            invariant
                n == self.components@.len(),
                n == other.components@.len(),
                forall|j: int| 0 <= j < i ==> self.components@[j]@ == other.components@[j]@,
        {
            if !same_bytes(&self.components[i], &other.components[i]) {
                assert(self@[i as int] != other@[i as int]);
                return false;
            }
        }
        assert(self@ =~= other@);
        true
    }
}

/// The paths of a list, by their components.
pub open spec fn path_list(paths: Seq<LocalPath>) -> Seq<Seq<Seq<u8>>> {
    paths.map_values(|p: LocalPath| p@)
}

/// Copies a list of paths.
pub(crate) fn copy_paths(paths: &Vec<LocalPath>) -> (r: Vec<LocalPath>)
    ensures
        path_list(r@) == path_list(paths@),
{
    let mut r: Vec<LocalPath> = Vec::new();
    let n = paths.len();
    for i in 0..n
        invariant
            n == paths@.len(),
            r@.len() == i,
            forall|j: int| 0 <= j < i ==> #[trigger] r@[j]@ == paths@[j]@,
    {
        r.push(paths[i].copy());
    }
    assert(path_list(r@) =~= path_list(paths@));
    r
}

/// Whether two lists hold the same paths in the same order.
pub(crate) fn same_paths(a: &Vec<LocalPath>, b: &Vec<LocalPath>) -> (r: bool)
    ensures
        r == (path_list(a@) == path_list(b@)),
{
    if a.len() != b.len() {
        assert(path_list(a@).len() != path_list(b@).len());
        return false;
    }
    let n = a.len();
    for i in 0..n
        invariant
            n == a@.len(),
            n == b@.len(),
            forall|j: int| 0 <= j < i ==> a@[j]@ == b@[j]@,
    {
        if !a[i].same(&b[i]) {
            assert(path_list(a@)[i as int] != path_list(b@)[i as int]);
            return false;
        }
    }
    assert(path_list(a@) =~= path_list(b@));
    true
}

/// Entries of one directory with different names are different paths.
pub proof fn law_entries_differ(dir: Seq<Seq<u8>>, a: Seq<char>, b: Seq<char>)
    requires
        a != b,
    ensures
        entry_of(dir, a) != entry_of(dir, b),
{
    encode_utf8_decode_utf8(a);
    encode_utf8_decode_utf8(b);
    assert(entry_of(dir, a).last() == encode_utf8(a));
    assert(entry_of(dir, b).last() == encode_utf8(b));
}

/// A path is its components, each as its bytes, in order.
pub proof fn law_path_is_its_components(path: LocalPath)
    ensures
        path@.len() == path.components@.len(),
        forall|i: int| 0 <= i < path@.len() ==> #[trigger] path@[i] == path.components@[i]@,
{
}

/// A list of paths is those paths, in order.
pub proof fn law_list_is_its_paths(paths: Seq<LocalPath>)
    ensures
        path_list(paths).len() == paths.len(),
        forall|i: int| 0 <= i < paths.len() ==> #[trigger] path_list(paths)[i] == paths[i]@,
{
}

/// An entry of a directory is one component below it, and that component is the
/// entry's name.
pub proof fn law_entry_is_one_component_below(dir: Seq<Seq<u8>>, name: Seq<char>)
    ensures
        entry_of(dir, name).len() == dir.len() + 1,
        entry_of(dir, name).drop_last() == dir,
        decode_utf8(entry_of(dir, name).last()) == name,
        entry_of(dir, name).last() == encode_utf8(name),
{
    encode_utf8_decode_utf8(name);
    assert(entry_of(dir, name).drop_last() =~= dir);
}

/// What names an entry holds no separator, and is neither empty nor one of the
/// names for the directory itself and its parent; everything else does.
pub proof fn law_entry_names_have_no_separator(name: Seq<char>)
    ensures
        entry_name(name) <==> {
            &&& name.len() > 0
            &&& forall|i: int|
                0 <= i < name.len() ==> #[trigger] name[i] != '/' && name[i] != '\\'
            &&& !(name.len() == 1 && name[0] == '.')
            &&& !(name.len() == 2 && name[0] == '.' && name[1] == '.')
        },
{
    if name.len() == 1 && name[0] == '.' {
        assert(name =~= seq!['.']);
    }
    if name.len() == 2 && name[0] == '.' && name[1] == '.' {
        assert(name =~= seq!['.', '.']);
    }
    if name.contains('/') {
        let i = choose|i: int| 0 <= i < name.len() && name[i] == '/';
        assert(name[i] == '/');
    }
    if name.contains('\\') {
        let i = choose|i: int| 0 <= i < name.len() && name[i] == '\\';
        assert(name[i] == '\\');
    }
}

} // verus!
