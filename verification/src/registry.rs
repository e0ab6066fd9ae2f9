//! The registry of requested shaders.
//!
//! For every source path that was asked for, the registry keeps the handle
//! of the load of that source. While the registry holds the handle, the
//! asset server keeps the source loaded and watched, so that a change of the
//! source compiles it again.

use vstd::prelude::*;
use bevy::asset::UntypedHandle;
use bevy::utils::HashMap;
use crate::path::{binary_of, output_path};

verus! {

/// `bevy::asset::UntypedHandle`: a handle of the asset server to an asset of
/// any type. A strong handle keeps its asset loaded for as long as the handle
/// lives. Verus knows nothing of what a handle holds.
#[verifier::external_type_specification]
#[verifier::external_body]
pub struct ExUntypedHandle(UntypedHandle);

/// The table behind a registry: a `bevy::utils::HashMap` from source paths
/// to handles, which is a `hashbrown::HashMap` with bevy's hasher.
///
/// Verus does not look into this struct. What a table holds is named by
/// `table_entries`, and what the map's methods do to it is stated, without
/// proof, by `table_new`, `table_insert`, `table_len` and `table_get`.
#[verifier::external_body]
pub struct HandleTable {
    entries: HashMap<String, UntypedHandle>,
}

/// The entries of a table: for each source path that the map holds as a
/// key, the handle that the map holds as its value.
pub uninterp spec fn table_entries(table: HandleTable) -> Map<Seq<char>, UntypedHandle>;

/// The entries of a table that holds nothing.
pub open spec fn no_entries() -> Map<Seq<char>, UntypedHandle> {
    Map::empty()
}

/// `hashbrown::HashMap::default`: the new map has no entries.
#[verifier::external_body]
fn table_new() -> (table: HandleTable)
    ensures
        table_entries(table) == no_entries(),
{
    HandleTable { entries: HashMap::default() }
}

/// `hashbrown::HashMap::insert`: the map then holds `handle` under `path`,
/// in place of the handle that it held there if it held one, and every other
/// entry as before. The handle that was replaced is returned.
#[verifier::external_body]
fn table_insert(table: &mut HandleTable, path: String, handle: UntypedHandle) -> (previous: Option<
    UntypedHandle,
>)
    ensures
        table_entries(*final(table)) == table_entries(*old(table)).insert(path@, handle),
        previous == if table_entries(*old(table)).contains_key(path@) {
            Some(table_entries(*old(table))[path@])
        } else {
            None
        },
{
    table.entries.insert(path, handle)
}

/// `hashbrown::HashMap::len`: the number of entries of the map.
#[verifier::external_body]
fn table_len(table: &HandleTable) -> (len: usize)
    ensures
        len == table_entries(*table).dom().len(),
{
    table.entries.len()
}

/// `hashbrown::HashMap::get`: the handle that the map holds under `path`, or
/// `None` where it holds none.
#[verifier::external_body]
fn table_get<'a>(table: &'a HandleTable, path: &str) -> (handle: Option<&'a UntypedHandle>)
    ensures
        handle == if table_entries(*table).contains_key(path@) {
            Some(&table_entries(*table)[path@])
        } else {
            None
        },
{
    table.entries.get(path)
}

/// The registry: at most one handle for each source path.
pub struct SlangRegistry {
    table: HandleTable,
}

impl View for SlangRegistry {
    type V = Map<Seq<char>, UntypedHandle>;

    /// The handle kept for each source path.
    closed spec fn view(&self) -> Map<Seq<char>, UntypedHandle> {
        table_entries(self.table)
    }
}

impl SlangRegistry {
    /// A registry is well formed where it holds finitely many paths, so that
    /// their number is the size of its domain. Every registry that `new` made
    /// and `load` filled is.
    pub open spec fn wf(&self) -> bool {
        self@.dom().finite()
    }

    /// A registry without entries.
    pub fn new() -> (registry: Self)
        ensures
            registry.wf(),
            registry@ == no_entries(),
    {
        SlangRegistry { table: table_new() }
    }

    /// Records `marker`, the handle of the load of the source at `path`, and
    /// returns the path of the binary compiled from that source. A handle
    /// recorded earlier for the same path is replaced; the entries of other
    /// paths stay.
    pub fn load(&mut self, path: &str, marker: UntypedHandle) -> (binary: String)
        ensures
            final(self)@ == old(self)@.insert(path@, marker),
            old(self).wf() ==> final(self).wf(),
            binary@ == binary_of(path@),
    {
        table_insert(&mut self.table, path.to_owned(), marker);
        output_path(path)
    }

    /// The number of source paths that the registry holds.
    pub fn len(&self) -> (len: usize)
        ensures
            len == self@.dom().len(),
    {
        table_len(&self.table)
    }

    /// Whether the registry holds no source path.
    pub fn is_empty(&self) -> (empty: bool)
        ensures
            empty == (self@.dom().len() == 0),
            self.wf() ==> empty == (self@ == no_entries()),
    {
        proof {
            if self.wf() && self@.dom().len() == 0 {
                self@.dom().lemma_len0_is_empty();
                assert(self@ =~= no_entries());
            }
        }
        table_len(&self.table) == 0
    }

    /// The handle recorded for `path`, if one was.
    pub fn handle(&self, path: &str) -> (handle: Option<&UntypedHandle>)
        ensures
            handle == if self@.contains_key(path@) {
                Some(&self@[path@])
            } else {
                None
            },
    {
        table_get(&self.table, path)
    }
}

impl Default for SlangRegistry {
    /// A registry without entries.
    fn default() -> (registry: Self)
        ensures
            registry.wf(),
            registry@ == no_entries(),
    {
        SlangRegistry::new()
    }
}

/// The entries after the handles of `markers` were recorded under `path`,
/// one after the other.
pub open spec fn recorded(
    entries: Map<Seq<char>, UntypedHandle>,
    path: Seq<char>,
    markers: Seq<UntypedHandle>,
) -> Map<Seq<char>, UntypedHandle>
    decreases markers.len(),
{
    if markers.len() == 0 {
        entries
    } else {
        recorded(entries, path, markers.drop_last()).insert(path, markers.last())
    }
}

/// Loading a path again replaces its entry. After any number of loads of one
/// path the registry holds that path once, with the handle of the last load,
/// and every other path as before; a registry that was empty holds one
/// entry.
pub proof fn lemma_same_path_one_entry(
    entries: Map<Seq<char>, UntypedHandle>,
    path: Seq<char>,
    markers: Seq<UntypedHandle>,
)
    requires
        entries.dom().finite(),
        markers.len() > 0,
    ensures
        recorded(entries, path, markers) == entries.insert(path, markers.last()),
        recorded(entries, path, markers).dom().len() == if entries.contains_key(path) {
            entries.dom().len()
        } else {
            entries.dom().len() + 1
        },
        recorded(no_entries(), path, markers).dom().len() == 1,
{
    lemma_recorded_last(entries, path, markers);
    lemma_recorded_last(no_entries(), path, markers);
}

/// Of the handles recorded under one path, the last one stays.
proof fn lemma_recorded_last(
    entries: Map<Seq<char>, UntypedHandle>,
    path: Seq<char>,
    markers: Seq<UntypedHandle>,
)
    requires
        markers.len() > 0,
    ensures
        recorded(entries, path, markers) == entries.insert(path, markers.last()),
    decreases markers.len(),
{
    let earlier = markers.drop_last();
    if earlier.len() > 0 {
        lemma_recorded_last(entries, path, earlier);
    } else {
        assert(recorded(entries, path, earlier) == entries);
    }
}

/// Loading two different paths leaves one entry for each, which holds the
/// handle of its own load; a registry that was empty holds two entries.
pub proof fn lemma_two_paths_two_entries(
    entries: Map<Seq<char>, UntypedHandle>,
    first: Seq<char>,
    first_marker: UntypedHandle,
    second: Seq<char>,
    second_marker: UntypedHandle,
)
    requires
        first != second,
    ensures
        entries.insert(first, first_marker).insert(second, second_marker).contains_key(first),
        entries.insert(first, first_marker).insert(second, second_marker)[first] == first_marker,
        entries.insert(first, first_marker).insert(second, second_marker).contains_key(second),
        entries.insert(first, first_marker).insert(second, second_marker)[second]
            == second_marker,
        no_entries().insert(first, first_marker).insert(second, second_marker).dom().len() == 2,
{
    assert(no_entries().insert(first, first_marker).insert(second, second_marker).dom() =~= set![
        first,
        second,
    ]);
}

} // verus!
