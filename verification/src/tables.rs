//! The hash tables the library keeps, each over one table of the `hashbrown` crate.
//!
//! Each table holds a `hashbrown` collection in a private field, a name says what it contains,
//! and one function per method that is called states what the method does to the contents. The
//! keys are integers and texts, whose equality and hashing std defines.
use vstd::prelude::*;

use crate::inventory::mft::VolumeRecord;
use crate::text::texts;

verus! {

/// A set of directory identities: pairs of a volume serial and a file id.
#[verifier::external_body]
pub struct IdentitySet {
    set: hashbrown::HashSet<(u64, u128)>,
}

/// The identities that the set contains.
pub uninterp spec fn identities(set: IdentitySet) -> Set<(u64, u128)>;

impl View for IdentitySet {
    type V = Set<(u64, u128)>;

    open spec fn view(&self) -> Set<(u64, u128)> {
        identities(*self)
    }
}

impl IdentitySet {
    /// `hashbrown::HashSet::new`: an empty set.
    #[verifier::external_body]
    pub(crate) fn new() -> (r: Self)
        ensures
            identities(r) == Set::<(u64, u128)>::empty(),
    {
        IdentitySet { set: hashbrown::HashSet::new() }
    }

    /// `hashbrown::HashSet::insert`: puts the value in and says whether it was new.
    #[verifier::external_body]
    pub(crate) fn insert(&mut self, volume_serial: u64, file_id: u128) -> (r: bool)
        ensures
            identities(*final(self)) == identities(*old(self)).insert((volume_serial, file_id)),
            r == !identities(*old(self)).contains((volume_serial, file_id)),
    {
        self.set.insert((volume_serial, file_id))
    }
}

/// A set of paths, each given by its components.
#[verifier::external_body]
pub struct PathSet {
    set: hashbrown::HashSet<Vec<String>>,
}

/// The component lists that the set contains.
pub uninterp spec fn paths_in(set: PathSet) -> Set<Seq<Seq<char>>>;

impl View for PathSet {
    type V = Set<Seq<Seq<char>>>;

    open spec fn view(&self) -> Set<Seq<Seq<char>>> {
        paths_in(*self)
    }
}

impl PathSet {
    /// `hashbrown::HashSet::new`: an empty set.
    #[verifier::external_body]
    pub(crate) fn new() -> (r: Self)
        ensures
            paths_in(r) == Set::<Seq<Seq<char>>>::empty(),
    {
        PathSet { set: hashbrown::HashSet::new() }
    }

    /// `hashbrown::HashSet::insert`: puts the value in and says whether it was new.
    #[verifier::external_body]
    pub(crate) fn insert(&mut self, components: Vec<String>) -> (r: bool)
        ensures
            paths_in(*final(self)) == paths_in(*old(self)).insert(texts(components@)),
            r == !paths_in(*old(self)).contains(texts(components@)),
    {
        self.set.insert(components)
    }
}

/// The records of a volume, by file number.
#[verifier::external_body]
pub struct RecordTable {
    map: hashbrown::HashMap<u64, VolumeRecord>,
}

/// The records that the table contains.
pub uninterp spec fn records_in(table: RecordTable) -> Map<u64, VolumeRecord>;

impl View for RecordTable {
    type V = Map<u64, VolumeRecord>;

    open spec fn view(&self) -> Map<u64, VolumeRecord> {
        records_in(*self)
    }
}

impl RecordTable {
    /// `hashbrown::HashMap::new`: an empty map.
    #[verifier::external_body]
    pub(crate) fn new() -> (r: Self)
        ensures
            (records_in(r) == Map::<u64, VolumeRecord>::empty()),
    {
        RecordTable { map: hashbrown::HashMap::new() }
    }

    /// `hashbrown::HashMap::insert`: puts the record in, in place of one under the same number.
    #[verifier::external_body]
    pub(crate) fn insert(&mut self, file_ref: u64, record: VolumeRecord)
        ensures
            records_in(*final(self)) == records_in(*old(self)).insert(file_ref, record),
    {
        let _ = self.map.insert(file_ref, record);
    }

    /// `hashbrown::HashMap::get`: the record under the number, if there is one.
    #[verifier::external_body]
    pub(crate) fn get(&self, file_ref: u64) -> (r: Option<&VolumeRecord>)
        ensures
            match r {
                Some(record) => records_in(*self).contains_key(file_ref) && *record == records_in(
                    *self,
                )[file_ref],
                None => !records_in(*self).contains_key(file_ref),
            },
    {
        self.map.get(&file_ref)
    }

    /// `hashbrown::HashMap::contains_key`: whether there is a record under the number.
    #[verifier::external_body]
    pub(crate) fn contains_key(&self, file_ref: u64) -> (r: bool)
        ensures
            r == records_in(*self).contains_key(file_ref),
    {
        self.map.contains_key(&file_ref)
    }

    /// `hashbrown::HashMap::remove`: takes the record under the number out, and says whether
    /// there was one.
    #[verifier::external_body]
    pub(crate) fn remove(&mut self, file_ref: u64) -> (r: bool)
        ensures
            records_in(*final(self)) == records_in(*old(self)).remove(file_ref),
            r == records_in(*old(self)).contains_key(file_ref),
    {
        self.map.remove(&file_ref).is_some()
    }

    /// `hashbrown::HashMap::keys`: every number once, in no particular order.
    #[verifier::external_body]
    pub(crate) fn keys(&self) -> (r: Vec<u64>)
        ensures
            r@.no_duplicates(),
            forall|k: u64| r@.contains(k) == records_in(*self).contains_key(k),
    {
        self.map.keys().copied().collect()
    }
}

/// Rebuilt paths, by file number.
#[verifier::external_body]
pub struct PathTable {
    map: hashbrown::HashMap<u64, String>,
}

/// The paths that the table contains.
pub uninterp spec fn paths_by_ref(table: PathTable) -> Map<u64, Seq<char>>;

impl View for PathTable {
    type V = Map<u64, Seq<char>>;

    open spec fn view(&self) -> Map<u64, Seq<char>> {
        paths_by_ref(*self)
    }
}

impl PathTable {
    /// `hashbrown::HashMap::new`: an empty map.
    #[verifier::external_body]
    pub(crate) fn new() -> (r: Self)
        ensures
            (paths_by_ref(r) == Map::<u64, Seq<char>>::empty()),
    {
        PathTable { map: hashbrown::HashMap::new() }
    }

    /// `hashbrown::HashMap::insert`: puts the path in, in place of one under the same number.
    #[verifier::external_body]
    pub(crate) fn insert(&mut self, file_ref: u64, path: String)
        ensures
            paths_by_ref(*final(self)) == paths_by_ref(*old(self)).insert(file_ref, path@),
    {
        let _ = self.map.insert(file_ref, path);
    }

    /// `hashbrown::HashMap::get`: the path under the number, if there is one.
    #[verifier::external_body]
    pub(crate) fn get(&self, file_ref: u64) -> (r: Option<&String>)
        ensures
            match r {
                Some(path) => paths_by_ref(*self).contains_key(file_ref) && path@ == paths_by_ref(
                    *self,
                )[file_ref],
                None => !paths_by_ref(*self).contains_key(file_ref),
            },
    {
        self.map.get(&file_ref)
    }
}

/// File sizes, by file number.
#[verifier::external_body]
pub struct SizeTable {
    map: hashbrown::HashMap<u64, u64>,
}

/// The sizes that the table contains.
pub uninterp spec fn sizes_by_ref(table: SizeTable) -> Map<u64, u64>;

impl View for SizeTable {
    type V = Map<u64, u64>;

    open spec fn view(&self) -> Map<u64, u64> {
        sizes_by_ref(*self)
    }
}

impl SizeTable {
    /// `hashbrown::HashMap::new`: an empty map.
    #[verifier::external_body]
    pub(crate) fn new() -> (r: Self)
        ensures
            (sizes_by_ref(r) == Map::<u64, u64>::empty()),
    {
        SizeTable { map: hashbrown::HashMap::new() }
    }

    /// `hashbrown::HashMap::insert`: puts the size in, in place of one under the same number.
    #[verifier::external_body]
    pub(crate) fn insert(&mut self, file_ref: u64, size: u64)
        ensures
            sizes_by_ref(*final(self)) == sizes_by_ref(*old(self)).insert(file_ref, size),
    {
        let _ = self.map.insert(file_ref, size);
    }

    /// `hashbrown::HashMap::get`: the size under the number, if there is one.
    #[verifier::external_body]
    pub(crate) fn get(&self, file_ref: u64) -> (r: Option<u64>)
        ensures
            match r {
                Some(size) => sizes_by_ref(*self).contains_key(file_ref) && size == sizes_by_ref(
                    *self,
                )[file_ref],
                None => !sizes_by_ref(*self).contains_key(file_ref),
            },
    {
        self.map.get(&file_ref).copied()
    }
}

/// Numbers, by name.
#[verifier::external_body]
pub struct NameTable {
    map: hashbrown::HashMap<String, u64>,
}

/// The numbers that the table contains.
pub uninterp spec fn numbers_by_name(table: NameTable) -> Map<Seq<char>, u64>;

impl View for NameTable {
    type V = Map<Seq<char>, u64>;

    open spec fn view(&self) -> Map<Seq<char>, u64> {
        numbers_by_name(*self)
    }
}

impl NameTable {
    /// `hashbrown::HashMap::new`: an empty map.
    #[verifier::external_body]
    pub(crate) fn new() -> (r: Self)
        ensures
            (numbers_by_name(r) == Map::<Seq<char>, u64>::empty()),
    {
        NameTable { map: hashbrown::HashMap::new() }
    }

    /// `hashbrown::HashMap::insert`: puts the number in, in place of one under the same name.
    #[verifier::external_body]
    pub(crate) fn insert(&mut self, name: String, number: u64)
        ensures
            numbers_by_name(*final(self)) == numbers_by_name(*old(self)).insert(name@, number),
    {
        let _ = self.map.insert(name, number);
    }

    /// `hashbrown::HashMap::get`: the number under the name, if there is one.
    #[verifier::external_body]
    pub(crate) fn get(&self, name: &str) -> (r: Option<u64>)
        ensures
            match r {
                Some(number) => numbers_by_name(*self).contains_key(name@) && number
                    == numbers_by_name(*self)[name@],
                None => !numbers_by_name(*self).contains_key(name@),
            },
    {
        self.map.get(name).copied()
    }
}

/// Numbers, by name in UTF-16 units.
#[verifier::external_body]
pub struct UnitTable {
    map: hashbrown::HashMap<Vec<u16>, u64>,
}

/// The numbers that the table contains.
pub uninterp spec fn numbers_by_units(table: UnitTable) -> Map<Seq<u16>, u64>;

impl View for UnitTable {
    type V = Map<Seq<u16>, u64>;

    open spec fn view(&self) -> Map<Seq<u16>, u64> {
        numbers_by_units(*self)
    }
}

impl UnitTable {
    /// `hashbrown::HashMap::new`: an empty map.
    #[verifier::external_body]
    pub(crate) fn new() -> (r: Self)
        ensures
            (numbers_by_units(r) == Map::<Seq<u16>, u64>::empty()),
    {
        UnitTable { map: hashbrown::HashMap::new() }
    }

    /// `hashbrown::HashMap::insert`: puts the number in, in place of one under the same name.
    #[verifier::external_body]
    pub(crate) fn insert(&mut self, name: Vec<u16>, number: u64)
        ensures
            numbers_by_units(*final(self)) == numbers_by_units(*old(self)).insert(name@, number),
    {
        let _ = self.map.insert(name, number);
    }

    /// `hashbrown::HashMap::get`: the number under the name, if there is one.
    #[verifier::external_body]
    pub(crate) fn get(&self, name: &Vec<u16>) -> (r: Option<u64>)
        ensures
            match r {
                Some(number) => numbers_by_units(*self).contains_key(name@) && number
                    == numbers_by_units(*self)[name@],
                None => !numbers_by_units(*self).contains_key(name@),
            },
    {
        self.map.get(name).copied()
    }
}

/// A set of places in a list.
#[verifier::external_body]
pub struct IndexSet {
    set: hashbrown::HashSet<usize>,
}

/// The places that the set contains.
pub uninterp spec fn indices(set: IndexSet) -> Set<usize>;

impl View for IndexSet {
    type V = Set<usize>;

    open spec fn view(&self) -> Set<usize> {
        indices(*self)
    }
}

impl IndexSet {
    /// `hashbrown::HashSet::new`: an empty set.
    #[verifier::external_body]
    pub(crate) fn new() -> (r: Self)
        ensures
            indices(r) == Set::<usize>::empty(),
    {
        IndexSet { set: hashbrown::HashSet::new() }
    }

    /// `hashbrown::HashSet::contains`: whether the place is in the set.
    #[verifier::external_body]
    pub(crate) fn contains(&self, index: usize) -> (r: bool)
        ensures
            r == indices(*self).contains(index),
    {
        self.set.contains(&index)
    }

    /// `hashbrown::HashSet::insert`: puts the place in.
    #[verifier::external_body]
    pub(crate) fn insert(&mut self, index: usize)
        ensures
            indices(*final(self)) == indices(*old(self)).insert(index),
    {
        let _ = self.set.insert(index);
    }

    /// `hashbrown::HashSet::remove`: takes the place out.
    #[verifier::external_body]
    pub(crate) fn remove(&mut self, index: usize)
        ensures
            indices(*final(self)) == indices(*old(self)).remove(index),
    {
        let _ = self.set.remove(&index);
    }
}

/// Choices the user has made, by drive.
#[verifier::external_body]
pub struct OverrideTable {
    map: hashbrown::HashMap<u32, bool>,
}

/// The choices that the table contains.
pub uninterp spec fn choices(table: OverrideTable) -> Map<u32, bool>;

impl View for OverrideTable {
    type V = Map<u32, bool>;

    open spec fn view(&self) -> Map<u32, bool> {
        choices(*self)
    }
}

impl OverrideTable {
    /// `hashbrown::HashMap::new`: an empty map.
    #[verifier::external_body]
    pub(crate) fn new() -> (r: Self)
        ensures
            (choices(r) == Map::<u32, bool>::empty()),
    {
        OverrideTable { map: hashbrown::HashMap::new() }
    }

    /// `hashbrown::HashMap::get`: the choice for the drive, if there is one.
    #[verifier::external_body]
    pub(crate) fn get(&self, drive: u32) -> (r: Option<bool>)
        ensures
            match r {
                Some(choice) => choices(*self).contains_key(drive) && choice == choices(
                    *self,
                )[drive],
                None => !choices(*self).contains_key(drive),
            },
    {
        self.map.get(&drive).copied()
    }

    /// `hashbrown::HashMap::insert`: puts the choice in, in place of an earlier one for the drive.
    #[verifier::external_body]
    pub(crate) fn insert(&mut self, drive: u32, choice: bool)
        ensures
            choices(*final(self)) == choices(*old(self)).insert(drive, choice),
    {
        let _ = self.map.insert(drive, choice);
    }

    /// `hashbrown::HashMap::remove`: takes the choice for the drive out.
    #[verifier::external_body]
    pub(crate) fn remove(&mut self, drive: u32)
        ensures
            choices(*final(self)) == choices(*old(self)).remove(drive),
    {
        let _ = self.map.remove(&drive);
    }
}

} // verus!
