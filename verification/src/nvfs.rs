//! The Novella virtual file system: a tree of directories and items, each
//! item naming a payload. Paths are written with `/` between the names.
use vstd::prelude::*;
use std::collections::HashMap;
use vstd::std_specs::hash::*;
use vstd::string::*;
use crate::common::{TypeId, TypeIdTy, gen_64};
use crate::common::maps::hash_map_get_mut;
use crate::common::text::{str_equals, string_push, views};

verus! {

broadcast use vstd::std_specs::hash::group_hash_axioms;

/// A payload type that can be stored with its type identifier.
pub trait BinarySerdeTy: TypeIdTy {

}

/// A payload type the file system can hold.
pub trait BinaryTy {

}

/// A stored payload: the identifier of its type and its bytes.
pub struct BinaryStorage {
    pub component_type: TypeId,
    component: Vec<u8>,
}

impl BinaryStorage {
    pub closed spec fn spec_bytes(self) -> Seq<u8> {
        self.component@
    }

    pub closed spec fn spec_type(self) -> TypeId {
        self.component_type
    }

    /// The payload of type `component_type` encoded as `bytes`.
    pub fn with_bytes(component_type: TypeId, bytes: Vec<u8>) -> (r: Self)
        ensures
            r.spec_type() == component_type,
            r.spec_bytes() == bytes@,
    {
        BinaryStorage { component_type, component: bytes }
    }

    /// The bytes of the payload, where it is of type `expected`.
    pub fn checked_bytes(&self, expected: TypeId) -> (r: Result<&Vec<u8>, VfsError>)
        ensures
            match r {
                Ok(b) => self.spec_type() == expected && b@ == self.spec_bytes(),
                Err(e) => self.spec_type() != expected && e == VfsError::TypeIdMismatch,
            },
    {
        if self.component_type.id != expected.id {
            return Err(VfsError::TypeIdMismatch);
        }
        Ok(&self.component)
    }

    /// All the bytes, whatever the type.
    pub fn bytes(&self) -> (r: &Vec<u8>)
        ensures
            r@ == self.spec_bytes(),
    {
        &self.component
    }
}

/// The parts, with a comma between each two.
pub open spec fn comma_joined(parts: Seq<Seq<char>>) -> Seq<char>
    decreases parts.len(),
{
    if parts.len() == 0 {
        Seq::empty()
    } else if parts.len() == 1 {
        parts[0]
    } else {
        comma_joined(parts.drop_last()) + ","@ + parts.last()
    }
}

/// The views of a slice of string slices.
pub open spec fn str_views(parts: Seq<&str>) -> Seq<Seq<char>> {
    parts.map_values(|p: &str| p@)
}

/// The parts of `parts`, with a comma between each two.
pub fn join_comma(parts: &[&str]) -> (r: String)
    ensures
        r@ == comma_joined(str_views(parts@)),
{
    let mut s = String::new();
    let mut i: usize = 0;
    proof {
        reveal_strlit(",");
    }
    while i < parts.len()
        invariant
            0 <= i <= parts@.len(),
            s@ == comma_joined(str_views(parts@.take(i as int))),
        decreases parts@.len() - i,
    {
        let ghost prev = parts@.take(i as int);
        let ghost next = parts@.take(i + 1);
        assert(str_views(next).drop_last() =~= str_views(prev));
        assert(str_views(next).last() == parts@[i as int]@);
        if i > 0 {
            s.append(",");
        }
        s.append(parts[i]);
        i = i + 1;
    }
    assert(parts@.take(parts@.len() as int) =~= parts@);
    s
}

/// The statement that makes the table `table` with the columns `columns`,
/// unless it exists.
pub open spec fn create_table_text(table: Seq<char>, columns: Seq<Seq<char>>) -> Seq<char> {
    "CREATE TABLE IF NOT EXISTS "@ + table + " ("@ + comma_joined(columns) + ")"@
}

/// The statement that inserts `values` into the columns `columns` of the
/// table `table`.
pub open spec fn insert_text(table: Seq<char>, columns: Seq<Seq<char>>, values: Seq<Seq<char>>) -> Seq<char> {
    "INSERT INTO "@ + table + " ("@ + comma_joined(columns) + ") VALUES ("@ + comma_joined(values) + ")"@
}

/// The text of the statement that [`create_table_text`] describes.
pub fn create_table_statement(table_name: &str, columns: &[&str]) -> (r: String)
    ensures
        r@ == create_table_text(table_name@, str_views(columns@)),
{
    let mut s = String::from_str("CREATE TABLE IF NOT EXISTS ");
    s.append(table_name);
    s.append(" (");
    let cols = join_comma(columns);
    s.append(cols.as_str());
    s.append(")");
    s
}

/// The text of the statement that [`insert_text`] describes.
pub fn insert_statement(table_name: &str, columns: &[&str], values: &[&str]) -> (r: String)
    ensures
        r@ == insert_text(table_name@, str_views(columns@), str_views(values@)),
{
    let mut s = String::from_str("INSERT INTO ");
    s.append(table_name);
    s.append(" (");
    let cols = join_comma(columns);
    s.append(cols.as_str());
    s.append(") VALUES (");
    let vals = join_comma(values);
    s.append(vals.as_str());
    s.append(")");
    s
}

/// Where data is kept: inside the project file, or in a file on disk.
pub enum FsPath {
    Internal(String),
    File(String),
}

/// The kinds of items.
#[derive(Debug)]
pub enum ExtTypes {
    Video,
    Audio,
    Image,
    Binary,
    Component,
    String(String),
    /// The kind of a directory.
    Dir,
}

impl ExtTypes {
    /// The kind as a value: the variant, and the text of `String`.
    pub open spec fn spec_view(self) -> (int, Seq<char>) {
        match self {
            ExtTypes::Video => (0, Seq::empty()),
            ExtTypes::Audio => (1, Seq::empty()),
            ExtTypes::Image => (2, Seq::empty()),
            ExtTypes::Binary => (3, Seq::empty()),
            ExtTypes::Component => (4, Seq::empty()),
            ExtTypes::String(s) => (5, s@),
            ExtTypes::Dir => (6, Seq::empty()),
        }
    }

    pub fn copy(&self) -> (r: ExtTypes)
        ensures
            r.spec_view() == self.spec_view(),
    {
        match self {
            ExtTypes::Video => ExtTypes::Video,
            ExtTypes::Audio => ExtTypes::Audio,
            ExtTypes::Image => ExtTypes::Image,
            ExtTypes::Binary => ExtTypes::Binary,
            ExtTypes::Component => ExtTypes::Component,
            ExtTypes::String(s) => ExtTypes::String(s.clone()),
            ExtTypes::Dir => ExtTypes::Dir,
        }
    }
}

/// A file: its identifier, its directory, its kind, its name and the
/// identifier of its payload.
pub struct InodeData {
    pub id: u64,
    pub parent_id: u64,
    pub ext: ExtTypes,
    pub name: String,
    pub payload: u64,
}

/// A directory: its identifier, its parent, its kind, its name and the
/// identifiers of its children.
pub struct DinodeData {
    pub id: u64,
    pub parent_id: u64,
    pub ext: ExtTypes,
    pub name: String,
    pub children: Vec<u64>,
}

/// A node of the file system.
pub enum Inode {
    Dir(DinodeData),
    Item(InodeData),
}

/// The errors of the file system.
#[derive(Debug, Clone, Copy, PartialEq, Eq, Structural)]
pub enum VfsError {
    /// A directory was expected.
    NotADirectory,
    /// A file was expected.
    NotAnItem,
    /// No node is at the path.
    PathNotFound,
    /// No payload has the identifier.
    NoData(u64),
    /// No unused identifier was drawn.
    IdsExhausted,
    /// Stored bytes are of another type than the one asked for.
    TypeIdMismatch,
}

impl Inode {
    pub open spec fn spec_id(self) -> u64 {
        match self {
            Inode::Dir(d) => d.id,
            Inode::Item(i) => i.id,
        }
    }

    pub open spec fn spec_name(self) -> Seq<char> {
        match self {
            Inode::Dir(d) => d.name@,
            Inode::Item(i) => i.name@,
        }
    }

    pub open spec fn spec_parent(self) -> u64 {
        match self {
            Inode::Dir(d) => d.parent_id,
            Inode::Item(i) => i.parent_id,
        }
    }

    pub fn id(&self) -> (r: u64)
        ensures
            r == self.spec_id(),
    {
        match self {
            Inode::Dir(dinode) => dinode.id,
            Inode::Item(inode) => inode.id,
        }
    }

    pub fn name(&self) -> (r: String)
        ensures
            r@ == self.spec_name(),
    {
        match self {
            Inode::Dir(dinode) => dinode.name.clone(),
            Inode::Item(inode) => inode.name.clone(),
        }
    }

    pub fn parent_id(&self) -> (r: u64)
        ensures
            r == self.spec_parent(),
    {
        match self {
            Inode::Dir(dinode) => dinode.parent_id,
            Inode::Item(inode) => inode.parent_id,
        }
    }

    pub fn is_dir(&self) -> (r: bool)
        ensures
            r == self is Dir,
    {
        match self {
            Inode::Dir(_) => true,
            Inode::Item(_) => false,
        }
    }

    pub fn is_item(&self) -> (r: bool)
        ensures
            r == self is Item,
    {
        match self {
            Inode::Dir(_) => false,
            Inode::Item(_) => true,
        }
    }

    pub fn ext(&self) -> (r: ExtTypes)
        ensures
            r.spec_view() == match self {
                Inode::Dir(d) => d.ext.spec_view(),
                Inode::Item(i) => i.ext.spec_view(),
            },
    {
        match self {
            Inode::Dir(dinode) => dinode.ext.copy(),
            Inode::Item(inode) => inode.ext.copy(),
        }
    }

    /// The payload identifier of an item.
    pub fn get_data(&self) -> (r: Option<u64>)
        ensures
            r == match self {
                Inode::Dir(_) => None,
                Inode::Item(i) => Some(i.payload),
            },
    {
        match self {
            Inode::Dir(_) => None,
            Inode::Item(inode) => Some(inode.payload),
        }
    }

    /// The children of a directory.
    pub fn dir_get_child_item_ids(&self) -> (r: Option<Vec<u64>>)
        ensures
            match self {
                Inode::Dir(d) => r matches Some(v) && v@ == d.children@,
                Inode::Item(_) => r is None,
            },
    {
        match self {
            Inode::Dir(dinode) => Some(dinode.children.clone()),
            Inode::Item(_) => None,
        }
    }

    /// Adds a child to a directory; an error for an item.
    pub fn dir_add_item(&mut self, item_id: u64) -> (r: Result<(), VfsError>)
        ensures
            match *old(self) {
                Inode::Dir(d) => r is Ok && (*final(self) matches Inode::Dir(d2) && d2.id == d.id && d2.parent_id
                    == d.parent_id && d2.name@ == d.name@ && d2.ext == d.ext && d2.children@
                    == d.children@.push(item_id)),
                Inode::Item(_) => r == Err::<(), VfsError>(VfsError::NotADirectory) && *final(self) == *old(self),
            },
    {
        match self {
            Inode::Dir(dinode) => {
                dinode.children.push(item_id);
                Ok(())
            },
            Inode::Item(_) => Err(VfsError::NotADirectory),
        }
    }

    /// Sets the payload of an item; an error for a directory.
    pub fn item_set_payload(&mut self, payload: u64) -> (r: Result<(), VfsError>)
        ensures
            match *old(self) {
                Inode::Item(i) => r is Ok && (*final(self) matches Inode::Item(i2) && i2.id == i.id && i2.parent_id
                    == i.parent_id && i2.name@ == i.name@ && i2.ext == i.ext && i2.payload == payload),
                Inode::Dir(_) => r == Err::<(), VfsError>(VfsError::NotAnItem) && *final(self) == *old(self),
            },
    {
        match self {
            Inode::Dir(_) => Err(VfsError::NotAnItem),
            Inode::Item(inode) => {
                inode.payload = payload;
                Ok(())
            },
        }
    }

    /// The payload identifier of an item; an error for a directory.
    pub fn item_get_payload_id(&self) -> (r: Result<u64, VfsError>)
        ensures
            r == match self {
                Inode::Item(i) => Ok(i.payload),
                Inode::Dir(_) => Err::<u64, VfsError>(VfsError::NotAnItem),
            },
    {
        match self {
            Inode::Dir(_) => Err(VfsError::NotAnItem),
            Inode::Item(inode) => Ok(inode.payload),
        }
    }
}

/// Where `cs` stands after splitting it at each `/`: the names found so far
/// and the name being read.
pub open spec fn split_state(cs: Seq<char>) -> (Seq<Seq<char>>, Seq<char>)
    decreases cs.len(),
{
    if cs.len() == 0 {
        (Seq::empty(), Seq::empty())
    } else {
        let (done, cur) = split_state(cs.drop_last());
        if cs.last() == '/' {
            if cur.len() > 0 {
                (done.push(cur), Seq::empty())
            } else {
                (done, Seq::empty())
            }
        } else {
            (done, cur.push(cs.last()))
        }
    }
}

/// The names of a path: the pieces between the `/`s, empty ones skipped.
pub open spec fn split_path(cs: Seq<char>) -> Seq<Seq<char>> {
    let (done, cur) = split_state(cs);
    if cur.len() > 0 {
        done.push(cur)
    } else {
        done
    }
}

/// Whether the path starts at the root.
pub open spec fn is_absolute(cs: Seq<char>) -> bool {
    cs.len() > 0 && cs[0] == '/'
}

/// The names of the path `s`.
pub fn path_components(s: &str) -> (r: Vec<String>)
    ensures
        views(r@) == split_path(s@),
{
    let n = s.unicode_len();
    let mut done: Vec<String> = Vec::new();
    let mut cur = String::new();
    let mut i: usize = 0;
    while i < n
        invariant
            n == s@.len(),
            0 <= i <= n,
            (views(done@), cur@) == split_state(s@.take(i as int)),
        decreases n - i,
    {
        let c = s.get_char(i);
        assert(s@.take(i + 1).drop_last() =~= s@.take(i as int));
        if c == '/' {
            if cur.unicode_len() > 0 {
                let ghost before = done@;
                done.push(cur);
                assert(views(done@) =~= views(before).push(split_state(s@.take(i as int)).1));
            }
            cur = String::new();
        } else {
            string_push(&mut cur, c);
        }
        i = i + 1;
    }
    assert(s@.take(n as int) =~= s@);
    if cur.unicode_len() > 0 {
        let ghost before = done@;
        done.push(cur);
        assert(views(done@) =~= views(before).push(split_state(s@).1));
    }
    done
}

/// The first of `children` that is a directory named `name`.
pub open spec fn first_dir_named(inodes: Map<u64, Inode>, children: Seq<u64>, name: Seq<char>) -> Option<u64>
    decreases children.len(),
{
    if children.len() == 0 {
        None
    } else if inodes[children[0]] is Dir && inodes[children[0]].spec_name() == name {
        Some(children[0])
    } else {
        first_dir_named(inodes, children.drop_first(), name)
    }
}

/// The first of `children` named `name`.
pub open spec fn first_named(inodes: Map<u64, Inode>, children: Seq<u64>, name: Seq<char>) -> Option<u64>
    decreases children.len(),
{
    if children.len() == 0 {
        None
    } else if inodes[children[0]].spec_name() == name {
        Some(children[0])
    } else {
        first_named(inodes, children.drop_first(), name)
    }
}

/// The node at the names `comps[i..]` from the directory `parent`: each name
/// but the last is that of the first child directory so named; the last is
/// that of the first child so named.
pub open spec fn resolve(inodes: Map<u64, Inode>, comps: Seq<Seq<char>>, i: int, parent: u64) -> Result<u64, VfsError>
    decreases comps.len() - i,
{
    if i + 1 < comps.len() {
        match inodes[parent] {
            Inode::Dir(d) => match first_dir_named(inodes, d.children@, comps[i]) {
                Some(c) => resolve(inodes, comps, i + 1, c),
                None => Err(VfsError::PathNotFound),
            },
            Inode::Item(_) => Err(VfsError::NotADirectory),
        }
    } else {
        match inodes[parent] {
            Inode::Dir(d) => match first_named(inodes, d.children@, comps[i]) {
                Some(c) => Ok(c),
                None => Err(VfsError::PathNotFound),
            },
            Inode::Item(_) => Err(VfsError::NotADirectory),
        }
    }
}

/// The directory in which `create_dir` makes the new directory, walking the
/// names `comps[i..]` but the last from `parent` through the first child
/// directory of each name; none where a name is not found.
pub open spec fn create_target(inodes: Map<u64, Inode>, comps: Seq<Seq<char>>, i: int, parent: u64) -> Option<u64>
    decreases comps.len() - i,
{
    if i + 1 < comps.len() {
        match inodes[parent] {
            Inode::Dir(d) => match first_dir_named(inodes, d.children@, comps[i]) {
                Some(c) => create_target(inodes, comps, i + 1, c),
                None => None,
            },
            Inode::Item(_) => None,
        }
    } else {
        Some(parent)
    }
}

/// Every child of a directory is a node.
pub open spec fn children_exist(inodes: Map<u64, Inode>) -> bool {
    forall|k: u64, j: int| #[trigger] inodes.contains_key(k) && inodes[k] is Dir && 0 <= j < inodes[k]->Dir_0.children@.len()
        ==> inodes.contains_key(#[trigger] inodes[k]->Dir_0.children@[j])
}

/// The virtual file system: the nodes by identifier, the payloads by
/// identifier, and the identifiers used so far.
pub struct Vfs<P: BinaryTy> {
    pub data: HashMap<u64, P>,
    pub inodes: HashMap<u64, Inode>,
    pub node_used_list: Vec<u64>,
    pub data_used_list: Vec<u64>,
}

impl<P: BinaryTy> Vfs<P> {
    /// The root is a directory, and every child of a directory is a node.
    pub open spec fn wf(self) -> bool {
        &&& self.inodes@.contains_key(0)
        &&& self.inodes@[0] is Dir
        &&& children_exist(self.inodes@)
        &&& forall|k: u64| #[trigger] self.inodes@.contains_key(k) ==> self.node_used_list@.contains(k)
        &&& forall|k: u64| #[trigger] self.inodes@.contains_key(k) ==> self.inodes@[k].spec_id() == k
    }

    /// A file system with the root directory `nv_root` alone.
    pub fn new() -> (r: Self)
        ensures
            r.wf(),
            r.inodes@.dom() == set![0u64],
            r.inodes@[0] matches Inode::Dir(d) && d.id == 0 && d.parent_id == 0 && d.ext == ExtTypes::Dir
                && d.name@ == "nv_root"@ && d.children@.len() == 0,
            r.data@ == Map::<u64, P>::empty(),
            r.node_used_list@ == seq![0u64],
            r.data_used_list@.len() == 0,
    {
        let mut inodes: HashMap<u64, Inode> = HashMap::new();
        inodes.insert(
            0,
            Inode::Dir(
                DinodeData {
                    id: 0,
                    parent_id: 0,
                    ext: ExtTypes::Dir,
                    name: String::from_str("nv_root"),
                    children: Vec::new(),
                },
            ),
        );
        let mut used: Vec<u64> = Vec::new();
        used.push(0);
        assert(inodes@.dom() =~= set![0u64]);
        assert(used@[0] == 0);
        Vfs { data: HashMap::new(), inodes, node_used_list: used, data_used_list: Vec::new() }
    }

    /// The node `id`, which must exist.
    pub fn get_node(&self, id: u64) -> (r: &Inode)
        requires
            self.inodes@.contains_key(id),
        ensures
            *r == self.inodes@[id],
    {
        self.inodes.get(&id).unwrap()
    }

    /// The node `id`, which must exist, to change.
    pub fn get_node_mut(&mut self, id: u64) -> (r: &mut Inode)
        requires
            old(self).inodes@.contains_key(id),
        ensures
            *r == old(self).inodes@[id],
            final(self).inodes@ == old(self).inodes@.insert(id, *final(r)),
            final(self).data@ == old(self).data@,
            final(self).node_used_list@ == old(self).node_used_list@,
            final(self).data_used_list@ == old(self).data_used_list@,
    {
        hash_map_get_mut(&mut self.inodes, &id).unwrap()
    }

    /// The first of `children` that is a directory named `name`.
    fn find_dir_child(&self, children: &Vec<u64>, name: &String) -> (r: Option<u64>)
        requires
            forall|j: int| 0 <= j < children@.len() ==> self.inodes@.contains_key(#[trigger] children@[j]),
        ensures
            r == first_dir_named(self.inodes@, children@, name@),
    {
        let mut i: usize = 0;
        assert(children@.skip(0) =~= children@);
        while i < children.len()
            invariant
                0 <= i <= children@.len(),
                forall|j: int| 0 <= j < children@.len() ==> self.inodes@.contains_key(#[trigger] children@[j]),
                first_dir_named(self.inodes@, children@, name@) == first_dir_named(
                    self.inodes@,
                    children@.skip(i as int),
                    name@,
                ),
            decreases children@.len() - i,
        {
            let c = children[i];
            assert(children@.skip(i as int)[0] == c);
            assert(children@.skip(i as int).drop_first() =~= children@.skip(i + 1));
            match self.inodes.get(&c).unwrap() {
                Inode::Dir(d) => {
                    if str_equals(d.name.as_str(), name.as_str()) {
                        return Some(c);
                    }
                },
                Inode::Item(_) => {},
            }
            i = i + 1;
        }
        None
    }

    /// The first of `children` named `name`.
    fn find_child(&self, children: &Vec<u64>, name: &String) -> (r: Option<u64>)
        requires
            forall|j: int| 0 <= j < children@.len() ==> self.inodes@.contains_key(#[trigger] children@[j]),
        ensures
            r == first_named(self.inodes@, children@, name@),
    {
        let mut i: usize = 0;
        assert(children@.skip(0) =~= children@);
        while i < children.len()
            invariant
                0 <= i <= children@.len(),
                forall|j: int| 0 <= j < children@.len() ==> self.inodes@.contains_key(#[trigger] children@[j]),
                first_named(self.inodes@, children@, name@) == first_named(
                    self.inodes@,
                    children@.skip(i as int),
                    name@,
                ),
            decreases children@.len() - i,
        {
            let c = children[i];
            assert(children@.skip(i as int)[0] == c);
            assert(children@.skip(i as int).drop_first() =~= children@.skip(i + 1));
            let n = self.inodes.get(&c).unwrap().name();
            if str_equals(n.as_str(), name.as_str()) {
                return Some(c);
            }
            i = i + 1;
        }
        None
    }

    /// The node at the names `comps[i..]` from the directory `parent`.
    fn get_node_from_path_recursive(&self, comps: &Vec<String>, i: usize, parent_node: u64) -> (r: Result<
        u64,
        VfsError,
    >)
        requires
            self.wf(),
            self.inodes@.contains_key(parent_node),
            i < comps@.len(),
        ensures
            r == resolve(self.inodes@, views(comps@), i as int, parent_node),
            r matches Ok(id) ==> self.inodes@.contains_key(id),
        decreases comps@.len() - i,
    {
        let ghost cs = views(comps@);
        assert(cs[i as int] == comps@[i as int]@);
        match self.inodes.get(&parent_node).unwrap() {
            Inode::Dir(dir) => {
                proof {
                    assert forall|j: int| 0 <= j < dir.children@.len() implies self.inodes@.contains_key(
                        #[trigger] dir.children@[j],
                    ) by {
                        assert(self.inodes@[parent_node]->Dir_0.children@[j] == dir.children@[j]);
                    }
                }
                if i < comps.len() - 1 {
                    match self.find_dir_child(&dir.children, &comps[i]) {
                        Some(c) => {
                            proof {
                                lemma_first_dir_named_in(self.inodes@, dir.children@, cs[i as int]);
                            }
                            self.get_node_from_path_recursive(comps, i + 1, c)
                        },
                        None => Err(VfsError::PathNotFound),
                    }
                } else {
                    match self.find_child(&dir.children, &comps[i]) {
                        Some(c) => {
                            proof {
                                lemma_first_named_in(self.inodes@, dir.children@, cs[i as int]);
                            }
                            Ok(c)
                        },
                        None => Err(VfsError::PathNotFound),
                    }
                }
            },
            Inode::Item(_) => Err(VfsError::NotADirectory),
        }
    }

    /// The node at the absolute path `path`, which names at least one node.
    pub fn get_node_from_path(&self, path: &str) -> (r: Result<&Inode, VfsError>)
        requires
            self.wf(),
            is_absolute(path@),
            split_path(path@).len() > 0,
        ensures
            match resolve(self.inodes@, split_path(path@), 0, 0) {
                Ok(id) => r matches Ok(n) && self.inodes@.contains_key(id) && *n == self.inodes@[id],
                Err(e) => r == Err::<&Inode, VfsError>(e),
            },
            r matches Ok(n) ==> exists|chain: Seq<u64>|
                chain.len() >= 1 && chain[0] == 0 && *n == self.inodes@[chain.last()]
                    && #[trigger] named_chain(self.inodes@, split_path(path@), 0, chain),
    {
        let comps = path_components(path);
        match self.get_node_from_path_recursive(&comps, 0, 0) {
            Ok(id) => {
                proof {
                    law_found_node_is_named_by_path(self.inodes@, split_path(path@), 0);
                }
                Ok(self.get_node(id))
            },
            Err(e) => Err(e),
        }
    }

    /// The node at the absolute path `path`, which names at least one node,
    /// to change.
    pub fn get_node_mut_from_path(&mut self, path: &str) -> (r: Result<&mut Inode, VfsError>)
        requires
            old(self).wf(),
            is_absolute(path@),
            split_path(path@).len() > 0,
        ensures
            final(self).data@ == old(self).data@,
            final(self).node_used_list@ == old(self).node_used_list@,
            final(self).data_used_list@ == old(self).data_used_list@,
            match resolve(old(self).inodes@, split_path(path@), 0, 0) {
                Ok(id) => r matches Ok(n) && old(self).inodes@.contains_key(id) && *n == old(self).inodes@[id]
                    && final(self).inodes@ == old(self).inodes@.insert(id, *final(n)),
                Err(e) => r matches Err(e2) && e2 == e && final(self).inodes@ == old(self).inodes@,
            },
    {
        let comps = path_components(path);
        match self.get_node_from_path_recursive(&comps, 0, 0) {
            Ok(id) => Ok(self.get_node_mut(id)),
            Err(e) => Err(e),
        }
    }

    /// Whether a node is at the absolute path `path`, which names at least
    /// one node.
    pub fn verify_path(&self, path: &str) -> (r: bool)
        requires
            self.wf(),
            is_absolute(path@),
            split_path(path@).len() > 0,
        ensures
            r == resolve(self.inodes@, split_path(path@), 0, 0) is Ok,
    {
        self.get_node_from_path(path).is_ok()
    }

    /// The payload `id`.
    pub fn get_item_payload(&self, id: u64) -> (r: Result<&P, VfsError>)
        ensures
            match r {
                Ok(p) => self.data@.contains_key(id) && *p == self.data@[id],
                Err(e) => !self.data@.contains_key(id) && e == VfsError::NoData(id),
            },
    {
        match self.data.get(&id) {
            Some(p) => Ok(p),
            None => Err(VfsError::NoData(id)),
        }
    }

    /// A random identifier that `used` does not hold; none where a few
    /// draws all hit used ones. A drawn identifier has `10` as its top two
    /// bits, so where no used identifier has them the first draw is taken.
    fn fresh_id(used: &Vec<u64>) -> (r: Option<u64>)
        ensures
            r matches Some(id) ==> !used@.contains(id) && id >> 62u64 == 2,
            (forall|j: int| 0 <= j < used@.len() ==> #[trigger] used@[j] >> 62u64 != 2) ==> r is Some,
    {
        let mut tries: usize = 0;
        while tries < 64
            invariant
                0 <= tries <= 64,
                tries > 0 ==> exists|j: int| 0 <= j < used@.len() && #[trigger] used@[j] >> 62u64 == 2,
            decreases 64 - tries,
        {
            let id = gen_64();
            let mut k: usize = 0;
            let mut found = false;
            while k < used.len()
                invariant
                    0 <= k <= used@.len(),
                    id >> 62u64 == 2,
                    !found ==> forall|j: int| 0 <= j < k ==> used@[j] != id,
                    found ==> exists|j: int| 0 <= j < k && used@[j] == id,
                decreases used@.len() - k,
            {
                if used[k] == id {
                    found = true;
                }
                k = k + 1;
            }
            if !found {
                return Some(id);
            }
            proof {
                let j = choose|j: int| 0 <= j < k && used@[j] == id;
                assert(used@[j] >> 62u64 == 2);
            }
            tries = tries + 1;
        }
        None
    }

    /// A new node identifier, recorded as used; none, and nothing changed,
    /// where a few random draws all hit used ones.
    fn new_node_id(&mut self) -> (r: Option<u64>)
        ensures
            match r {
                Some(id) => !old(self).node_used_list@.contains(id) && only_node_id_used(*old(self), *final(self))
                    && final(self).node_used_list@.last() == id && id >> 62u64 == 2,
                None => same_vfs(*old(self), *final(self)),
            },
            (forall|j: int| 0 <= j < old(self).node_used_list@.len() ==> #[trigger] old(self).node_used_list@[j] >> 62u64
                != 2) ==> r is Some,
    {
        match Self::fresh_id(&self.node_used_list) {
            Some(id) => {
                self.node_used_list.push(id);
                proof {
                    assert(self.node_used_list@.drop_last() =~= old(self).node_used_list@);
                }
                Some(id)
            },
            None => None,
        }
    }

    /// A payload identifier that is not in use yet; none where a few random
    /// draws all hit used ones. The caller records it when it stores the
    /// payload.
    fn new_item_id(&self) -> (r: Option<u64>)
        ensures
            r matches Some(id) ==> !self.data_used_list@.contains(id) && id >> 62u64 == 2,
            (forall|j: int| 0 <= j < self.data_used_list@.len() ==> #[trigger] self.data_used_list@[j] >> 62u64 != 2)
                ==> r is Some,
    {
        Self::fresh_id(&self.data_used_list)
    }

    /// Adds `item` as the payload of a new item named `item_name` in the
    /// directory at the absolute path `path`. The new identifiers are drawn
    /// at random; drawing can fail only where some used identifier has the
    /// top bits of a drawn one.
    pub fn add_item(&mut self, item: P, path: &str, item_name: String) -> (r: Result<(), VfsError>)
        requires
            old(self).wf(),
            is_absolute(path@),
            split_path(path@).len() > 0,
        ensures
            final(self).wf(),
            ({
                let res = resolve(old(self).inodes@, split_path(path@), 0, 0);
                match r {
                    Ok(()) => res is Ok && exists|id: u64, pid: u64|
                        item_added(*old(self), *final(self), res->Ok_0, id, pid, item, item_name@),
                    Err(e) => {
                        ||| e == VfsError::IdsExhausted && drawn_id_in_use(*old(self)) && same_vfs(*old(self), *final(self))
                        ||| res == Err::<u64, VfsError>(e) && only_node_id_used(*old(self), *final(self))
                        ||| res is Ok && old(self).inodes@[res->Ok_0] is Item && e == VfsError::NotADirectory
                            && only_node_id_used(*old(self), *final(self))
                    },
                }
            }),
            !drawn_id_in_use(*old(self)) ==> match resolve(old(self).inodes@, split_path(path@), 0, 0) {
                Ok(p) => if old(self).inodes@[p] is Dir {
                    r is Ok
                } else {
                    r == Err::<(), VfsError>(VfsError::NotADirectory)
                },
                Err(e) => r == Err::<(), VfsError>(e),
            },
    {
        let pid = match self.new_item_id() {
            Some(pid) => pid,
            None => return Err(VfsError::IdsExhausted),
        };
        let id = match self.new_node_id() {
            Some(id) => id,
            None => return Err(VfsError::IdsExhausted),
        };
        proof {
            if old(self).inodes@.contains_key(id) {
                assert(old(self).node_used_list@.contains(id));
            }
        }
        let ghost s1 = *self;
        proof {
            assert(s1.node_used_list@.drop_last() =~= old(self).node_used_list@);
            assert(s1.node_used_list@ =~= old(self).node_used_list@.push(id));
            assert forall|k: u64| #[trigger] s1.inodes@.contains_key(k) implies s1.node_used_list@.contains(k) by {
                assert(old(self).node_used_list@.contains(k));
                let j = choose|j: int| 0 <= j < old(self).node_used_list@.len() && old(self).node_used_list@[j] == k;
                assert(s1.node_used_list@[j] == k);
            }
        }
        let parent_dir = match self.get_node_mut_from_path(path) {
            Ok(n) => n,
            Err(e) => return Err(e),
        };
        let parent_id = parent_dir.id();
        match parent_dir.dir_add_item(id) {
            Ok(()) => {},
            Err(e) => {
                proof {
                    let p = resolve(old(self).inodes@, split_path(path@), 0, 0)->Ok_0;
                    assert(self.inodes@ =~= s1.inodes@);
                }
                return Err(e);
            },
        }
        let ghost s2 = *self;
        self.data_used_list.push(pid);
        self.data.insert(pid, item);
        let inode = Inode::Item(
            InodeData { id, parent_id, ext: ExtTypes::Binary, name: item_name, payload: pid },
        );
        self.inodes.insert(id, inode);
        proof {
            let p = resolve(old(self).inodes@, split_path(path@), 0, 0)->Ok_0;
            assert(parent_id == p) by {
                assert(old(self).inodes@[p].spec_id() == p);
            }
            assert(self.inodes@.dom() =~= old(self).inodes@.dom().insert(id));
            assert forall|k: u64, j: int| #[trigger] self.inodes@.contains_key(k) && self.inodes@[k] is Dir && 0 <= j
                < self.inodes@[k]->Dir_0.children@.len() implies self.inodes@.contains_key(
                #[trigger] self.inodes@[k]->Dir_0.children@[j],
            ) by {
                if k == p {
                    if j < old(self).inodes@[p]->Dir_0.children@.len() {
                        assert(self.inodes@[k]->Dir_0.children@[j] == old(self).inodes@[p]->Dir_0.children@[j]);
                        assert(old(self).inodes@.contains_key(old(self).inodes@[p]->Dir_0.children@[j]));
                    }
                } else if k != id {
                    assert(old(self).inodes@.contains_key(k));
                    assert(old(self).inodes@.contains_key(old(self).inodes@[k]->Dir_0.children@[j]));
                }
            }
            assert forall|k: u64| #[trigger] self.inodes@.contains_key(k) implies self.node_used_list@.contains(k) by {
                if k == id {
                    assert(self.node_used_list@[self.node_used_list@.len() - 1] == id);
                } else {
                    assert(s1.node_used_list@.contains(k));
                }
            }
            assert(item_added(*old(self), *self, p, id, pid, item, item_name@));
        }
        Ok(())
    }

    /// Makes a directory at the names `comps[i..]`: the last name is that
    /// of the new directory, the others lead to its parent from `parent_node`.
    fn create_dir_recursive(&mut self, comps: &Vec<String>, i: usize, parent_node: u64) -> (r: Result<(), VfsError>)
        requires
            old(self).wf(),
            old(self).inodes@.contains_key(parent_node),
            old(self).inodes@[parent_node] is Dir,
            i <= comps@.len(),
        ensures
            r is Ok,
            final(self).wf(),
            dir_created(
                *old(self),
                *final(self),
                create_target(old(self).inodes@, views(comps@), i as int, parent_node),
                last_name(views(comps@), i as int),
            ),
        decreases comps@.len() - i,
    {
        let ghost cs = views(comps@);
        if comps.len() > 0 && i < comps.len() - 1 {
            assert(cs[i as int] == comps@[i as int]@);
            let found = match self.inodes.get(&parent_node).unwrap() {
                Inode::Dir(dir) => {
                    proof {
                        assert forall|j: int| 0 <= j < dir.children@.len() implies self.inodes@.contains_key(
                            #[trigger] dir.children@[j],
                        ) by {
                            assert(self.inodes@[parent_node]->Dir_0.children@[j] == dir.children@[j]);
                        }
                    }
                    self.find_dir_child(&dir.children, &comps[i])
                },
                Inode::Item(_) => None,
            };
            match found {
                Some(c) => {
                    proof {
                        lemma_first_dir_named_in(self.inodes@, self.inodes@[parent_node]->Dir_0.children@, cs[i as int]);
                        let ch = self.inodes@[parent_node]->Dir_0.children@;
                        let j = choose|j: int| 0 <= j < ch.len() && ch[j] == c;
                        assert(self.inodes@.contains_key(ch[j]));
                    }
                    self.create_dir_recursive(comps, i + 1, c)
                },
                None => Ok(()),
            }
        } else {
            let id = self.node_used_list.len() as u64;
            let name = if i < comps.len() {
                assert(cs[i as int] == comps@[i as int]@);
                comps[i].clone()
            } else {
                String::new()
            };
            proof {
                assert(self.node_used_list@.contains(0));
            }
            self.node_used_list.push(id);
            let ghost s1 = *self;
            let parent = self.get_node_mut(parent_node);
            match parent {
                Inode::Dir(dir) => {
                    dir.children.push(id);
                },
                Inode::Item(_) => {},
            }
            let ghost s2 = *self;
            self.inodes.insert(
                id,
                Inode::Dir(DinodeData { id, parent_id: parent_node, ext: ExtTypes::Dir, name, children: Vec::new() }),
            );
            proof {
                assert(self.inodes@.dom() =~= old(self).inodes@.dom().insert(id));
                assert forall|k: u64, j: int| #[trigger] self.inodes@.contains_key(k) && self.inodes@[k] is Dir && 0 <= j
                    < self.inodes@[k]->Dir_0.children@.len() implies self.inodes@.contains_key(
                    #[trigger] self.inodes@[k]->Dir_0.children@[j],
                ) by {
                    if k == parent_node && k != id {
                        if j < old(self).inodes@[parent_node]->Dir_0.children@.len() {
                            assert(self.inodes@[k]->Dir_0.children@[j] == old(self).inodes@[parent_node]->Dir_0.children@[j]);
                            assert(old(self).inodes@.contains_key(old(self).inodes@[parent_node]->Dir_0.children@[j]));
                        }
                    } else if k != id {
                        assert(old(self).inodes@.contains_key(k));
                        assert(old(self).inodes@.contains_key(old(self).inodes@[k]->Dir_0.children@[j]));
                    }
                }
                assert forall|k: u64| #[trigger] self.inodes@.contains_key(k) implies self.node_used_list@.contains(k) by {
                    if k == id {
                        assert(self.node_used_list@[self.node_used_list@.len() - 1] == id);
                    } else {
                        assert(old(self).node_used_list@.contains(k));
                        let j = choose|j: int| 0 <= j < old(self).node_used_list@.len() && old(self).node_used_list@[j] == k;
                        assert(self.node_used_list@[j] == k);
                    }
                }
                assert(id != 0) by {
                    assert(old(self).node_used_list@.len() >= 1);
                }
            }
            Ok(())
        }
    }

    /// Makes a directory at `path`, whose first name is skipped: for an
    /// absolute path that is the root. The directories before the last name
    /// are found by name from the root; where one is missing nothing is made.
    /// The new directory's identifier is the number of identifiers used so
    /// far.
    pub fn create_dir(&mut self, path: &str) -> (r: Result<(), VfsError>)
        requires
            old(self).wf(),
            is_absolute(path@) || split_path(path@).len() > 0,
        ensures
            r is Ok,
            final(self).wf(),
            ({
                let start: int = if is_absolute(path@) { 0 } else { 1 };
                dir_created(
                    *old(self),
                    *final(self),
                    create_target(old(self).inodes@, split_path(path@), start, 0),
                    last_name(split_path(path@), start),
                )
            }),
    {
        let comps = path_components(path);
        let absolute = path.unicode_len() > 0 && path.get_char(0) == '/';
        let start: usize = if absolute { 0 } else { 1 };
        self.create_dir_recursive(&comps, start, 0)
    }
}

/// The name of the directory `create_dir` makes from the names `comps[i..]`:
/// the one name left, or none.
pub open spec fn last_name(comps: Seq<Seq<char>>, i: int) -> Seq<char>
    decreases comps.len() - i,
{
    if i + 1 < comps.len() {
        last_name(comps, i + 1)
    } else if i < comps.len() {
        comps[i]
    } else {
        Seq::empty()
    }
}

/// The two file systems hold the same.
pub open spec fn same_vfs<P: BinaryTy>(a: Vfs<P>, b: Vfs<P>) -> bool {
    &&& a.inodes@ == b.inodes@
    &&& a.data@ == b.data@
    &&& a.node_used_list@ == b.node_used_list@
    &&& a.data_used_list@ == b.data_used_list@
}

/// Some used node or payload identifier has `10` as its top two bits, as
/// every drawn identifier has.
pub open spec fn drawn_id_in_use<P: BinaryTy>(v: Vfs<P>) -> bool {
    ||| exists|j: int| 0 <= j < v.node_used_list@.len() && #[trigger] v.node_used_list@[j] >> 62u64 == 2
    ||| exists|j: int| 0 <= j < v.data_used_list@.len() && #[trigger] v.data_used_list@[j] >> 62u64 == 2
}

/// `after` is `before` with one more node identifier used, and nothing else.
pub open spec fn only_node_id_used<P: BinaryTy>(before: Vfs<P>, after: Vfs<P>) -> bool {
    &&& after.inodes@ == before.inodes@
    &&& after.data@ == before.data@
    &&& after.data_used_list@ == before.data_used_list@
    &&& after.node_used_list@.len() == before.node_used_list@.len() + 1
    &&& after.node_used_list@.drop_last() == before.node_used_list@
}

/// `after` is `before` with a new item `id` named `name` in the directory
/// `parent`, whose payload `pid` is `item`.
pub open spec fn item_added<P: BinaryTy>(
    before: Vfs<P>,
    after: Vfs<P>,
    parent: u64,
    id: u64,
    pid: u64,
    item: P,
    name: Seq<char>,
) -> bool {
    &&& before.inodes@.contains_key(parent)
    &&& before.inodes@[parent] is Dir
    &&& !before.node_used_list@.contains(id)
    &&& !before.data_used_list@.contains(pid)
    &&& after.node_used_list@ == before.node_used_list@.push(id)
    &&& after.data_used_list@ == before.data_used_list@.push(pid)
    &&& after.data@ == before.data@.insert(pid, item)
    &&& after.inodes@.dom() == before.inodes@.dom().insert(id)
    &&& after.inodes@[id] is Item
    &&& after.inodes@[id]->Item_0.id == id
    &&& after.inodes@[id]->Item_0.parent_id == parent
    &&& after.inodes@[id]->Item_0.ext == ExtTypes::Binary
    &&& after.inodes@[id]->Item_0.name@ == name
    &&& after.inodes@[id]->Item_0.payload == pid
    &&& after.inodes@[parent] is Dir
    &&& after.inodes@[parent]->Dir_0.children@ == before.inodes@[parent]->Dir_0.children@.push(id)
    &&& after.inodes@[parent]->Dir_0.id == before.inodes@[parent]->Dir_0.id
    &&& after.inodes@[parent]->Dir_0.name@ == before.inodes@[parent]->Dir_0.name@
    &&& forall|k: u64| k != id && k != parent && #[trigger] before.inodes@.contains_key(k) ==> after.inodes@[k]
        == before.inodes@[k]
}

/// `after` is `before` with a new directory named `name` in `target`, if
/// there is a target; its identifier is the number of identifiers used.
pub open spec fn dir_created<P: BinaryTy>(before: Vfs<P>, after: Vfs<P>, target: Option<u64>, name: Seq<char>) -> bool {
    match target {
        None => same_vfs(before, after),
        Some(t) => {
            let id = before.node_used_list@.len() as u64;
            &&& after.node_used_list@ == before.node_used_list@.push(id)
            &&& after.data@ == before.data@
            &&& after.data_used_list@ == before.data_used_list@
            &&& after.inodes@.dom() == before.inodes@.dom().insert(id)
            &&& after.inodes@[id] is Dir
            &&& after.inodes@[id]->Dir_0.id == id
            &&& after.inodes@[id]->Dir_0.parent_id == t
            &&& after.inodes@[id]->Dir_0.ext == ExtTypes::Dir
            &&& after.inodes@[id]->Dir_0.name@ == name
            &&& after.inodes@[id]->Dir_0.children@.len() == 0
            &&& t != id ==> {
                &&& after.inodes@[t] is Dir
                &&& after.inodes@[t]->Dir_0.children@ == before.inodes@[t]->Dir_0.children@.push(id)
                &&& after.inodes@[t]->Dir_0.id == before.inodes@[t]->Dir_0.id
                &&& after.inodes@[t]->Dir_0.name@ == before.inodes@[t]->Dir_0.name@
            }
            &&& forall|k: u64| k != id && k != t && #[trigger] before.inodes@.contains_key(k) ==> after.inodes@[k]
                == before.inodes@[k]
        },
    }
}

/// The first directory child named `name` is a child so named.
proof fn lemma_first_dir_named_in(inodes: Map<u64, Inode>, children: Seq<u64>, name: Seq<char>)
    ensures
        first_dir_named(inodes, children, name) matches Some(c) ==> children.contains(c)
            && inodes[c] is Dir && inodes[c].spec_name() == name,
    decreases children.len(),
{
    if children.len() > 0 {
        lemma_first_dir_named_in(inodes, children.drop_first(), name);
        if let Some(c) = first_dir_named(inodes, children.drop_first(), name) {
            if children.drop_first().contains(c) {
                let j = choose|j: int| 0 <= j < children.drop_first().len() && children.drop_first()[j] == c;
                assert(children[j + 1] == c);
            }
        }
        assert(children[0] == children[0]);
    }
}

/// `chain` walks from its first node down through the names `comps[i..]`
/// in turn: each node but the last is a directory that holds the next one
/// among its children, and the next one bears the name of that step.
pub open spec fn named_chain(inodes: Map<u64, Inode>, comps: Seq<Seq<char>>, i: int, chain: Seq<u64>) -> bool {
    &&& chain.len() == comps.len() - i + 1
    &&& forall|j: int|
        0 <= j < chain.len() - 1 ==> {
            &&& inodes[#[trigger] chain[j]] is Dir
            &&& inodes[chain[j]]->Dir_0.children@.contains(chain[j + 1])
            &&& inodes[chain[j + 1]].spec_name() == comps[i + j]
        }
}

/// The chain of nodes through which [`resolve`] finds its node.
proof fn lemma_resolve_chain(inodes: Map<u64, Inode>, comps: Seq<Seq<char>>, i: int, parent: u64) -> (chain: Seq<u64>)
    requires
        0 <= i < comps.len(),
        resolve(inodes, comps, i, parent) is Ok,
    ensures
        chain.len() >= 1,
        chain[0] == parent,
        chain.last() == resolve(inodes, comps, i, parent)->Ok_0,
        named_chain(inodes, comps, i, chain),
    decreases comps.len() - i,
{
    let d = inodes[parent]->Dir_0;
    if i + 1 < comps.len() {
        lemma_first_dir_named_in(inodes, d.children@, comps[i]);
        let c = first_dir_named(inodes, d.children@, comps[i])->0;
        let rest = lemma_resolve_chain(inodes, comps, i + 1, c);
        let chain = seq![parent] + rest;
        assert forall|j: int| 0 <= j < chain.len() - 1 implies {
            &&& inodes[#[trigger] chain[j]] is Dir
            &&& inodes[chain[j]]->Dir_0.children@.contains(chain[j + 1])
            &&& inodes[chain[j + 1]].spec_name() == comps[i + j]
        } by {
            if j == 0 {
                assert(chain[1] == rest[0]);
            } else {
                assert(chain[j] == rest[j - 1]);
                assert(chain[j + 1] == rest[j]);
                assert(i + j == (i + 1) + (j - 1));
            }
        }
        assert(chain.last() == rest.last());
        chain
    } else {
        lemma_first_named_in(inodes, d.children@, comps[i]);
        let c = first_named(inodes, d.children@, comps[i])->0;
        let chain = seq![parent, c];
        assert(chain[1] == c);
        chain
    }
}

/// A node found by a path sits at the end of a chain of directories named
/// by the path: from the directory the search starts at, each name of the
/// path leads to a child of that name, the last one being the node found.
/// So a name that no child bears is never skipped.
pub proof fn law_found_node_is_named_by_path(inodes: Map<u64, Inode>, comps: Seq<Seq<char>>, parent: u64)
    requires
        comps.len() > 0,
        resolve(inodes, comps, 0, parent) is Ok,
    ensures
        exists|chain: Seq<u64>|
            chain.len() >= 1 && chain[0] == parent && chain.last() == resolve(inodes, comps, 0, parent)->Ok_0
                && #[trigger] named_chain(inodes, comps, 0, chain),
{
    let chain = lemma_resolve_chain(inodes, comps, 0, parent);
    assert(named_chain(inodes, comps, 0, chain));
}

/// The first child named `name` is a child so named.
proof fn lemma_first_named_in(inodes: Map<u64, Inode>, children: Seq<u64>, name: Seq<char>)
    ensures
        first_named(inodes, children, name) matches Some(c) ==> children.contains(c) && inodes[c].spec_name() == name,
    decreases children.len(),
{
    if children.len() > 0 {
        lemma_first_named_in(inodes, children.drop_first(), name);
        if let Some(c) = first_named(inodes, children.drop_first(), name) {
            if children.drop_first().contains(c) {
                let j = choose|j: int| 0 <= j < children.drop_first().len() && children.drop_first()[j] == c;
                assert(children[j + 1] == c);
            }
        }
        assert(children[0] == children[0]);
    }
}

/// The nodes of `before` look the same in `after` to a search by name:
/// the same kind and the same name.
pub open spec fn same_names(before: Map<u64, Inode>, after: Map<u64, Inode>) -> bool {
    forall|x: u64|
        #[trigger] before.contains_key(x) ==> (after[x] is Dir <==> before[x] is Dir) && after[x].spec_name()
            == before[x].spec_name()
}

/// Searches by name among nodes that look the same find the same.
proof fn lemma_same_names_search(before: Map<u64, Inode>, after: Map<u64, Inode>, l: Seq<u64>, name: Seq<char>)
    requires
        same_names(before, after),
        forall|j: int| 0 <= j < l.len() ==> before.contains_key(#[trigger] l[j]),
    ensures
        first_dir_named(after, l, name) == first_dir_named(before, l, name),
        first_named(after, l, name) == first_named(before, l, name),
    decreases l.len(),
{
    if l.len() > 0 {
        assert(before.contains_key(l[0]));
        assert forall|j: int| 0 <= j < l.drop_first().len() implies before.contains_key(#[trigger] l.drop_first()[j]) by {
            assert(l.drop_first()[j] == l[j + 1]);
        }
        lemma_same_names_search(before, after, l.drop_first(), name);
    }
}

/// A search by name in a list with one more node at its end finds what it
/// found before, or else that node where it fits.
proof fn lemma_search_push(m: Map<u64, Inode>, l: Seq<u64>, x: u64, name: Seq<char>)
    ensures
        first_dir_named(m, l.push(x), name) == match first_dir_named(m, l, name) {
            Some(c) => Some(c),
            None => if m[x] is Dir && m[x].spec_name() == name {
                Some(x)
            } else {
                None
            },
        },
        first_named(m, l.push(x), name) == match first_named(m, l, name) {
            Some(c) => Some(c),
            None => if m[x].spec_name() == name {
                Some(x)
            } else {
                None
            },
        },
    decreases l.len(),
{
    let lx = l.push(x);
    if l.len() > 0 {
        assert(lx.drop_first() =~= l.drop_first().push(x));
        assert(lx[0] == l[0]);
        assert(lx.len() > 0);
        lemma_search_push(m, l.drop_first(), x, name);
        assert(first_dir_named(m, lx, name) == if m[l[0]] is Dir && m[l[0]].spec_name() == name {
            Some(l[0])
        } else {
            first_dir_named(m, l.drop_first().push(x), name)
        });
        assert(first_named(m, lx, name) == if m[l[0]].spec_name() == name {
            Some(l[0])
        } else {
            first_named(m, l.drop_first().push(x), name)
        });
    } else {
        assert(lx.drop_first() =~= Seq::<u64>::empty());
        assert(lx[0] == x);
        assert(first_dir_named(m, lx.drop_first(), name) is None);
        assert(first_named(m, lx.drop_first(), name) is None);
    }
}

/// The name that `create_dir` gives is the last one of the path.
proof fn lemma_last_name(comps: Seq<Seq<char>>, i: int)
    requires
        0 <= i < comps.len(),
    ensures
        last_name(comps, i) == comps[comps.len() - 1],
    decreases comps.len() - i,
{
    if i + 1 < comps.len() {
        lemma_last_name(comps, i + 1);
    }
}

/// The walk of `create_dir` from `p` ends at a directory of `before`.
proof fn lemma_create_target_dir(inodes: Map<u64, Inode>, comps: Seq<Seq<char>>, i: int, p: u64)
    requires
        0 <= i < comps.len(),
        inodes.contains_key(p),
        inodes[p] is Dir,
        children_exist(inodes),
        create_target(inodes, comps, i, p) is Some,
    ensures
        inodes.contains_key(create_target(inodes, comps, i, p)->0),
        inodes[create_target(inodes, comps, i, p)->0] is Dir,
    decreases comps.len() - i,
{
    if i + 1 < comps.len() {
        let ch = inodes[p]->Dir_0.children@;
        lemma_first_dir_named_in(inodes, ch, comps[i]);
        let c = first_dir_named(inodes, ch, comps[i])->0;
        let j = choose|j: int| 0 <= j < ch.len() && ch[j] == c;
        assert(inodes.contains_key(ch[j]));
        lemma_create_target_dir(inodes, comps, i + 1, c);
    }
}

/// Along the walk of `create_dir`, the path from `p` leads, after the
/// directory is made, to the new directory.
proof fn lemma_resolve_created<P: BinaryTy>(before: Vfs<P>, after: Vfs<P>, comps: Seq<Seq<char>>, i: int, p: u64, t: u64)
    requires
        before.wf(),
        0 <= i < comps.len(),
        before.inodes@.contains_key(p),
        before.inodes@[p] is Dir,
        create_target(before.inodes@, comps, i, p) == Some(t),
        before.inodes@.contains_key(t),
        before.inodes@[t] is Dir,
        !before.inodes@.contains_key(before.node_used_list@.len() as u64),
        dir_created(before, after, Some(t), comps[comps.len() - 1]),
        same_names(before.inodes@, after.inodes@),
        first_named(before.inodes@, before.inodes@[t]->Dir_0.children@, comps[comps.len() - 1]) is None,
    ensures
        resolve(after.inodes@, comps, i, p) == Ok::<u64, VfsError>(before.node_used_list@.len() as u64),
    decreases comps.len() - i,
{
    let id = before.node_used_list@.len() as u64;
    let b = before.inodes@;
    let a = after.inodes@;
    let ch = b[p]->Dir_0.children@;
    assert(p != id);
    assert forall|j: int| 0 <= j < ch.len() implies b.contains_key(#[trigger] ch[j]) by {
    }
    lemma_same_names_search(b, a, ch, comps[i]);
    assert(a[p] is Dir);
    let cha = a[p]->Dir_0.children@;
    if p == t {
        assert(cha == ch.push(id));
        lemma_search_push(a, ch, id, comps[i]);
    } else {
        assert(a[p] == b[p]);
    }
    if i + 1 < comps.len() {
        lemma_first_dir_named_in(b, ch, comps[i]);
        let c = first_dir_named(b, ch, comps[i])->0;
        assert(first_dir_named(a, cha, comps[i]) == Some(c));
        let j = choose|j: int| 0 <= j < ch.len() && ch[j] == c;
        assert(b.contains_key(ch[j]));
        lemma_resolve_created(before, after, comps, i + 1, c, t);
    } else {
        assert(p == t);
        assert(first_named(a, cha, comps[i]) == Some(id));
    }
}

/// What making a directory gives back: where the walk to its parent
/// succeeds, the parent has no child of that name yet, and the new
/// identifier is not taken, the path then leads to the new directory.
pub proof fn law_created_dir_is_found<P: BinaryTy>(before: Vfs<P>, after: Vfs<P>, comps: Seq<Seq<char>>)
    requires
        before.wf(),
        comps.len() > 0,
        create_target(before.inodes@, comps, 0, 0) is Some,
        dir_created(before, after, create_target(before.inodes@, comps, 0, 0), last_name(comps, 0)),
        !before.inodes@.contains_key(before.node_used_list@.len() as u64),
        first_named(
            before.inodes@,
            before.inodes@[create_target(before.inodes@, comps, 0, 0)->0]->Dir_0.children@,
            last_name(comps, 0),
        ) is None,
    ensures
        resolve(after.inodes@, comps, 0, 0) == Ok::<u64, VfsError>(before.node_used_list@.len() as u64),
        after.inodes@[before.node_used_list@.len() as u64] is Dir,
        after.inodes@[before.node_used_list@.len() as u64].spec_name() == comps[comps.len() - 1],
{
    let t = create_target(before.inodes@, comps, 0, 0)->0;
    let id = before.node_used_list@.len() as u64;
    lemma_last_name(comps, 0);
    lemma_create_target_dir(before.inodes@, comps, 0, 0);
    assert(same_names(before.inodes@, after.inodes@)) by {
        assert forall|x: u64| #[trigger] before.inodes@.contains_key(x) implies (after.inodes@[x] is Dir
            <==> before.inodes@[x] is Dir) && after.inodes@[x].spec_name() == before.inodes@[x].spec_name() by {
            assert(x != id);
        }
    }
    lemma_resolve_created(before, after, comps, 0, 0, t);
}

/// What adding an item gives back: the new item is a child of its
/// directory, and its payload identifier leads to the stored payload.
pub proof fn law_added_item_payload<P: BinaryTy>(
    before: Vfs<P>,
    after: Vfs<P>,
    parent: u64,
    id: u64,
    pid: u64,
    item: P,
    name: Seq<char>,
)
    requires
        item_added(before, after, parent, id, pid, item, name),
    ensures
        after.inodes@.contains_key(id),
        after.inodes@[id] is Item,
        after.inodes@[parent]->Dir_0.children@.contains(id),
        after.data@.contains_key(after.inodes@[id]->Item_0.payload),
        after.data@[after.inodes@[id]->Item_0.payload] == item,
{
    let ch = after.inodes@[parent]->Dir_0.children@;
    assert(ch[ch.len() - 1] == id);
}

} // verus!
