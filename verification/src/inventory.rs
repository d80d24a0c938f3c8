//! Inventories: which files one side holds, and a fingerprint of each.

use vstd::prelude::*;
use vstd::hash_map::StringHashMap;
use crate::paths::{is_clean, is_clean_path};

verus! {

/// What stands for a file's content when two sides are held against each
/// other: the host's content hash, or the content itself. One run uses one
/// kind on both sides; a hash and a content never count as equal.
#[derive(Debug)]
pub enum Fingerprint {
    /// The blob hash, forty hexadecimal digits.
    Hash(String),
    /// The bytes of the file.
    Content(Vec<u8>),
}

/// A fingerprint as a mathematical value.
pub enum FingerprintView {
    Hash(Seq<char>),
    Content(Seq<u8>),
}

impl View for Fingerprint {
    type V = FingerprintView;

    open spec fn view(&self) -> FingerprintView {
        match self {
            Fingerprint::Hash(h) => FingerprintView::Hash(h@),
            Fingerprint::Content(c) => FingerprintView::Content(c@),
        }
    }
}

/// Whether two byte strings are the same.
pub fn same_bytes(a: &[u8], b: &[u8]) -> (yes: bool)
    ensures
        yes == (a@ == b@),
{
    if a.len() != b.len() {
        return false;
    }
    let mut i: usize = 0;
    while i < a.len()
        invariant
            i <= a.len() == b.len(),
            forall|j: int| 0 <= j < i ==> a@[j] == b@[j],
        decreases a.len() - i,
    {
        if a[i] != b[i] {
            return false;
        }
        i += 1;
    }
    assert(a@ =~= b@);
    true
}

impl Fingerprint {
    /// Whether the two stand for the same content.
    pub fn matches(&self, other: &Fingerprint) -> (yes: bool)
        ensures
            yes == (self@ == other@),
    {
        match (self, other) {
            (Fingerprint::Hash(a), Fingerprint::Hash(b)) => *a == *b,
            (Fingerprint::Content(a), Fingerprint::Content(b)) => same_bytes(
                a.as_slice(),
                b.as_slice(),
            ),
            _ => false,
        }
    }

    /// A copy of the fingerprint.
    pub fn duplicate(&self) -> (copy: Fingerprint)
        ensures
            copy@ == self@,
    {
        match self {
            Fingerprint::Hash(h) => Fingerprint::Hash(h.clone()),
            Fingerprint::Content(c) => {
                let copy = c.clone();
                assert(copy@ =~= c@);
                Fingerprint::Content(copy)
            },
        }
    }
}

/// One file of an inventory.
#[derive(Debug)]
pub struct FileRecord {
    /// Where the file stands below the root, with `/` between segments.
    pub relative_path: String,
    /// What its content is known by.
    pub fingerprint: Fingerprint,
}

/// A record as a mathematical value.
pub struct RecordView {
    pub relative_path: Seq<char>,
    pub fingerprint: FingerprintView,
}

impl View for FileRecord {
    type V = RecordView;

    open spec fn view(&self) -> RecordView {
        RecordView { relative_path: self.relative_path@, fingerprint: self.fingerprint@ }
    }
}

impl DeepView for FileRecord {
    type V = RecordView;

    open spec fn deep_view(&self) -> RecordView {
        self@
    }
}

/// The paths with one more recorded: a path that is there keeps its place.
pub open spec fn listed(paths: Seq<Seq<char>>, path: Seq<char>) -> Seq<Seq<char>> {
    if paths.contains(path) {
        paths
    } else {
        paths.push(path)
    }
}

/// What an inventory holds after the records were entered in order: for
/// each path the fingerprint of its last record.
pub open spec fn holdings_of(records: Seq<RecordView>) -> Map<Seq<char>, FingerprintView>
    decreases records.len(),
{
    if records.len() == 0 {
        Map::empty()
    } else {
        holdings_of(records.drop_last()).insert(
            records.last().relative_path,
            records.last().fingerprint,
        )
    }
}

/// The paths of the records in the order of their first occurrence.
pub open spec fn listing_of(records: Seq<RecordView>) -> Seq<Seq<char>>
    decreases records.len(),
{
    if records.len() == 0 {
        Seq::empty()
    } else {
        listed(listing_of(records.drop_last()), records.last().relative_path)
    }
}

/// The path of every record names a place below the root.
pub open spec fn all_clean(records: Seq<RecordView>) -> bool {
    forall|i: int| 0 <= i < records.len() ==> is_clean((#[trigger] records[i]).relative_path)
}

/// Whether the path of every record names a place below the root.
pub fn all_clean_paths(records: &Vec<FileRecord>) -> (clean: bool)
    ensures
        clean == all_clean(records.deep_view()),
{
    let mut i: usize = 0;
    while i < records.len()
        invariant
            i <= records.len(),
            forall|j: int|
                0 <= j < i ==> is_clean((#[trigger] records.deep_view()[j]).relative_path),
        decreases records.len() - i,
    {
        if !is_clean_path(records[i].relative_path.as_str()) {
            assert(!is_clean(records.deep_view()[i as int].relative_path));
            return false;
        }
        i += 1;
    }
    true
}

/// A listing names each path that a side holds, once.
pub open spec fn lists(paths: Seq<Seq<char>>, side: Map<Seq<char>, FingerprintView>) -> bool {
    &&& paths.no_duplicates()
    &&& forall|p: Seq<char>| side.contains_key(p) <==> paths.contains(p)
}

/// The index names for each recorded path the place of its record, and
/// names nothing else.
spec fn consistent(records: Seq<FileRecord>, index: Map<Seq<char>, usize>) -> bool {
    &&& forall|i: int|
        0 <= i < records.len() ==> index.contains_key(#[trigger] records[i].relative_path@)
            && index[records[i].relative_path@] == i
    &&& forall|p: Seq<char>| #[trigger]
        index.contains_key(p) ==> index[p] < records.len() && records[index[p] as int].relative_path@
            == p
}

/// The files of one side, each path once, in the order in which they were
/// first recorded.
pub struct Inventory {
    records: Vec<FileRecord>,
    index: StringHashMap<usize>,
}

impl View for Inventory {
    type V = Map<Seq<char>, FingerprintView>;

    /// The fingerprint recorded for each path.
    closed spec fn view(&self) -> Map<Seq<char>, FingerprintView> {
        Map::new(
            |p: Seq<char>| self.index@.contains_key(p),
            |p: Seq<char>| self.records@[self.index@[p] as int].fingerprint@,
        )
    }
}

impl Inventory {
    #[verifier::type_invariant]
    spec fn well_formed(self) -> bool {
        consistent(self.records@, self.index@)
    }

    /// The recorded paths, in the order of their first recording.
    pub closed spec fn paths(self) -> Seq<Seq<char>> {
        Seq::new(self.records@.len(), |i: int| self.records@[i].relative_path@)
    }

    /// An inventory of no files.
    pub fn new() -> (inventory: Inventory)
        ensures
            inventory@ == Map::<Seq<char>, FingerprintView>::empty(),
            inventory.paths() == Seq::<Seq<char>>::empty(),
    {
        let inventory = Inventory { records: Vec::new(), index: StringHashMap::new() };
        assert(inventory@ =~= Map::<Seq<char>, FingerprintView>::empty());
        assert(inventory.paths() =~= Seq::<Seq<char>>::empty());
        inventory
    }

    /// How many files are recorded. Each recorded path occurs once among
    /// `paths()`, and they are the paths that have a fingerprint.
    pub fn len(&self) -> (n: usize)
        ensures
            n == self.paths().len(),
            lists(self.paths(), self@),
    {
        proof {
            use_type_invariant(self);
            assert forall|p: Seq<char>| self@.contains_key(p) implies self.paths().contains(
                p,
            ) by {
                assert(self.paths()[self.index@[p] as int] == p);
            }
        }
        self.records.len()
    }

    /// The file recorded at a position.
    pub fn record_at(&self, i: usize) -> (record: &FileRecord)
        requires
            i < self.paths().len(),
        ensures
            record.relative_path@ == self.paths()[i as int],
            self@.contains_key(record.relative_path@),
            self@[record.relative_path@] == record.fingerprint@,
    {
        proof {
            use_type_invariant(self);
        }
        &self.records[i]
    }

    /// Whether the path is recorded.
    pub fn contains(&self, path: &str) -> (yes: bool)
        ensures
            yes == self@.contains_key(path@),
    {
        self.index.contains_key(path)
    }

    /// The fingerprint recorded for a path.
    pub fn get(&self, path: &str) -> (found: Option<&Fingerprint>)
        ensures
            match found {
                Some(f) => self@.contains_key(path@) && self@[path@] == f@,
                None => !self@.contains_key(path@),
            },
    {
        proof {
            use_type_invariant(self);
        }
        match self.index.get(path) {
            Some(i) => Some(&self.records[*i].fingerprint),
            None => None,
        }
    }

    /// The inventory with one more file recorded. A path that was recorded
    /// before keeps its place and takes the new fingerprint.
    pub fn with(self, path: String, fingerprint: Fingerprint) -> (out: Inventory)
        ensures
            out@ == self@.insert(path@, fingerprint@),
            out.paths() == listed(self.paths(), path@),
    {
        proof {
            use_type_invariant(&self);
            if self.paths().contains(path@) {
                let i = choose|i: int| 0 <= i < self.paths().len() && self.paths()[i] == path@;
                assert(self.records@[i].relative_path@ == path@);
            }
            if self@.contains_key(path@) {
                assert(self.paths()[self.index@[path@] as int] == path@);
            }
        }
        let ghost before = self;
        let Inventory { mut records, mut index } = self;
        let ghost old_records = records@;
        let ghost old_index = index@;
        let known: Option<usize> = match index.get(path.as_str()) {
            Some(i) => Some(*i),
            None => None,
        };
        match known {
            Some(i) => {
                records.set(i, FileRecord { relative_path: path, fingerprint });
                proof {
                    assert forall|j: int| 0 <= j < records@.len() implies index@.contains_key(
                        #[trigger] records@[j].relative_path@,
                    ) && index@[records@[j].relative_path@] == j by {
                        assert(records@[j].relative_path@ == old_records[j].relative_path@);
                    }
                    assert forall|p: Seq<char>| #[trigger] index@.contains_key(p) implies index@[p]
                        < records@.len() && records@[index@[p] as int].relative_path@ == p by {
                        assert(old_records[index@[p] as int].relative_path@ == p);
                    }
                }
            },
            None => {
                let at: usize = records.len();
                index.insert(path.clone(), at);
                records.push(FileRecord { relative_path: path, fingerprint });
                proof {
                    assert forall|j: int| 0 <= j < records@.len() implies index@.contains_key(
                        #[trigger] records@[j].relative_path@,
                    ) && index@[records@[j].relative_path@] == j by {
                        if j < at {
                            assert(records@[j] == old_records[j]);
                            assert(old_index.contains_key(old_records[j].relative_path@));
                        }
                    }
                    assert forall|p: Seq<char>| #[trigger] index@.contains_key(p) implies index@[p]
                        < records@.len() && records@[index@[p] as int].relative_path@ == p by {
                        if p != path@ {
                            assert(old_index.contains_key(p));
                            assert(records@[old_index[p] as int] == old_records[old_index[p] as int]);
                        }
                    }
                }
            },
        }
        assert(consistent(records@, index@));
        let out = Inventory { records, index };
        proof {
            assert(out@ =~= before@.insert(path@, fingerprint@));
            if before@.contains_key(path@) {
                assert(out.paths() =~= before.paths());
            } else {
                assert(out.paths() =~= before.paths().push(path@));
            }
        }
        out
    }

    /// Records a file. A path that was recorded before keeps its place and
    /// takes the new fingerprint.
    pub fn insert(&mut self, path: String, fingerprint: Fingerprint)
        ensures
            final(self)@ == old(self)@.insert(path@, fingerprint@),
            final(self).paths() == listed(old(self).paths(), path@),
    {
        let mut taken = Inventory::new();
        std::mem::swap(self, &mut taken);
        *self = taken.with(path, fingerprint);
    }

    /// The inventory of the records, entered in order. Where a path occurs
    /// more than once, its last record counts.
    pub fn from_records(records: Vec<FileRecord>) -> (inventory: Inventory)
        ensures
            inventory@ == holdings_of(records.deep_view()),
            inventory.paths() == listing_of(records.deep_view()),
    {
        let ghost raw = records@;
        let ghost all = records.deep_view();
        let mut inventory = Inventory::new();
        assert(all.take(0) =~= Seq::<RecordView>::empty());
        for record in it: records
            invariant
                it.seq() == raw,
                all.len() == raw.len(),
                forall|i: int| 0 <= i < raw.len() ==> all[i] == raw[i]@,
                inventory@ == holdings_of(all.take(it.index() as int)),
                inventory.paths() == listing_of(all.take(it.index() as int)),
        {
            proof {
                let k = it.index() as int;
                assert(record@ == all[k]);
                assert(all.take(k + 1).drop_last() =~= all.take(k));
                assert(all.take(k + 1).last() == all[k]);
            }
            let FileRecord { relative_path, fingerprint } = record;
            inventory.insert(relative_path, fingerprint);
        }
        assert(all.take(all.len() as int) =~= all);
        inventory
    }
}

} // verus!
