//! Storage keys, the storage capability, and the three kinds of slot that
//! address it.

use vstd::prelude::*;

use crate::codec::{bytes_equal, copy_bytes, zero_word};

verus! {

/// Which part of a slot a key addresses.
pub enum SlotPart {
    /// The slot as a whole (a scalar).
    Whole,
    /// One element of an array slot.
    Index(u64),
    /// One entry of a map slot, by its 32-byte key.
    Key(Vec<u8>),
}

pub enum SlotPartView {
    Whole,
    Index(u64),
    Key(Seq<u8>),
}

impl View for SlotPart {
    type V = SlotPartView;

    open spec fn view(&self) -> SlotPartView {
        match self {
            SlotPart::Whole => SlotPartView::Whole,
            SlotPart::Index(i) => SlotPartView::Index(*i),
            SlotPart::Key(k) => SlotPartView::Key(k@),
        }
    }
}

/// A key of the storage space: contract address, slot identifier, and the
/// part of the slot.
pub struct StorageKey {
    pub address: Vec<u8>,
    pub slot: Vec<u8>,
    pub part: SlotPart,
}

pub struct KeyView {
    pub address: Seq<u8>,
    pub slot: Seq<u8>,
    pub part: SlotPartView,
}

impl View for StorageKey {
    type V = KeyView;

    open spec fn view(&self) -> KeyView {
        KeyView { address: self.address@, slot: self.slot@, part: self.part@ }
    }
}

impl StorageKey {
    /// Whether two keys address the same place.
    pub fn same_as(&self, other: &StorageKey) -> (r: bool)
        ensures
            r == (self@ == other@),
    {
        if !bytes_equal(&self.address, &other.address) || !bytes_equal(&self.slot, &other.slot) {
            return false;
        }
        match (&self.part, &other.part) {
            (SlotPart::Whole, SlotPart::Whole) => true,
            (SlotPart::Index(i), SlotPart::Index(j)) => *i == *j,
            (SlotPart::Key(a), SlotPart::Key(b)) => bytes_equal(a, b),
            _ => false,
        }
    }
}

/// A failure reported by the storage capability, handed on unchanged.
#[derive(Debug)]
pub struct StorageError {
    pub message: String,
}

/// The word stored under `k`; a key never written reads as zero.
pub open spec fn stored_word(m: Map<KeyView, Seq<u8>>, k: KeyView) -> Seq<u8> {
    if m.contains_key(k) {
        m[k]
    } else {
        zero_word()
    }
}

/// Every stored word is 32 bytes long.
pub open spec fn words_sized(m: Map<KeyView, Seq<u8>>) -> bool {
    forall|k: KeyView| m.contains_key(k) ==> #[trigger] m[k].len() == 32
}

/// The byte string stored under `k`; a key never written reads as empty.
pub open spec fn stored_bytes(m: Map<KeyView, Seq<u8>>, k: KeyView) -> Seq<u8> {
    if m.contains_key(k) {
        m[k]
    } else {
        Seq::empty()
    }
}

/// Persistent key/value storage as the contract sees it: 32-byte words and
/// byte strings, each under a storage key. Any operation may fail; a failed
/// write changes nothing.
pub trait StorageAccess {
    spec fn inv(&self) -> bool;

    /// Whether this store never fails.
    spec fn reliable(&self) -> bool;

    /// The words held, by key.
    spec fn words(&self) -> Map<KeyView, Seq<u8>>;

    /// The byte strings held, by key.
    spec fn blobs(&self) -> Map<KeyView, Seq<u8>>;

    fn get_word(&self, key: &StorageKey) -> (r: Result<Vec<u8>, StorageError>)
        requires
            self.inv(),
        ensures
            self.reliable() ==> r is Ok,
            r is Ok ==> r->Ok_0@ == stored_word(self.words(), key@),
    ;

    fn set_word(&mut self, key: StorageKey, value: Vec<u8>) -> (r: Result<(), StorageError>)
        requires
            old(self).inv(),
            value@.len() == 32,
        ensures
            final(self).inv(),
            final(self).reliable() == old(self).reliable(),
            old(self).reliable() ==> r is Ok,
            final(self).blobs() == old(self).blobs(),
            r is Ok ==> final(self).words() == old(self).words().insert(key@, value@),
            r is Err ==> final(self).words() == old(self).words(),
    ;

    fn get_bytes(&self, key: &StorageKey) -> (r: Result<Vec<u8>, StorageError>)
        requires
            self.inv(),
        ensures
            self.reliable() ==> r is Ok,
            r is Ok ==> r->Ok_0@ == stored_bytes(self.blobs(), key@),
    ;

    fn set_bytes(&mut self, key: StorageKey, value: Vec<u8>) -> (r: Result<(), StorageError>)
        requires
            old(self).inv(),
        ensures
            final(self).inv(),
            final(self).reliable() == old(self).reliable(),
            old(self).reliable() ==> r is Ok,
            final(self).words() == old(self).words(),
            r is Ok ==> final(self).blobs() == old(self).blobs().insert(key@, value@),
            r is Err ==> final(self).blobs() == old(self).blobs(),
    ;
}

/// What a log of writes holds: the last value written under each key.
pub open spec fn replay(keys: Seq<KeyView>, values: Seq<Seq<u8>>) -> Map<KeyView, Seq<u8>>
    decreases keys.len(),
{
    if keys.len() == 0 || keys.len() != values.len() {
        Map::empty()
    } else {
        replay(keys.drop_last(), values.drop_last()).insert(keys.last(), values.last())
    }
}

/// Writes after position `i` that miss `k` leave what `k` reads unchanged.
pub proof fn lemma_replay_prefix(keys: Seq<KeyView>, values: Seq<Seq<u8>>, i: int, k: KeyView)
    requires
        keys.len() == values.len(),
        0 <= i <= keys.len(),
        forall|j: int| i <= j < keys.len() ==> keys[j] != k,
    ensures
        replay(keys, values).contains_key(k) == replay(keys.take(i), values.take(i)).contains_key(k),
        replay(keys, values).contains_key(k) ==> replay(keys, values)[k] == replay(
            keys.take(i),
            values.take(i),
        )[k],
    decreases keys.len(),
{
    if i == keys.len() {
        assert(keys.take(i) =~= keys);
        assert(values.take(i) =~= values);
    } else {
        assert(keys.drop_last().take(i) =~= keys.take(i));
        assert(values.drop_last().take(i) =~= values.take(i));
        lemma_replay_prefix(keys.drop_last(), values.drop_last(), i, k);
    }
}

/// A log of writes, read from its newest end.
struct WriteLog {
    keys: Vec<StorageKey>,
    values: Vec<Vec<u8>>,
}

impl WriteLog {
    spec fn key_views(&self) -> Seq<KeyView> {
        Seq::new(self.keys@.len(), |j: int| self.keys@[j]@)
    }

    spec fn value_views(&self) -> Seq<Seq<u8>> {
        Seq::new(self.values@.len(), |j: int| self.values@[j]@)
    }

    spec fn wf(&self) -> bool {
        self.keys@.len() == self.values@.len()
    }

    spec fn contents(&self) -> Map<KeyView, Seq<u8>> {
        replay(self.key_views(), self.value_views())
    }

    fn new() -> (r: WriteLog)
        ensures
            r.wf(),
            r.contents() == Map::<KeyView, Seq<u8>>::empty(),
    {
        WriteLog { keys: Vec::new(), values: Vec::new() }
    }

    fn lookup(&self, key: &StorageKey) -> (r: Option<Vec<u8>>)
        requires
            self.wf(),
        ensures
            r is Some <==> self.contents().contains_key(key@),
            r is Some ==> r->Some_0@ == self.contents()[key@],
    {
        let ghost ks = self.key_views();
        let ghost vs = self.value_views();
        let mut i: usize = self.keys.len();
        while i > 0
            invariant
                self.wf(),
                ks == self.key_views(),
                vs == self.value_views(),
                i <= self.keys@.len(),
                forall|j: int| i <= j < self.keys@.len() ==> ks[j] != key@,
            decreases i,
        {
            if self.keys[i - 1].same_as(key) {
                proof {
                    lemma_replay_prefix(ks, vs, i as int, key@);
                    assert(ks.take(i as int).drop_last() =~= ks.take(i - 1));
                    assert(vs.take(i as int).drop_last() =~= vs.take(i - 1));
                }
                return Some(copy_bytes(&self.values[i - 1]));
            }
            i = i - 1;
        }
        proof {
            lemma_replay_prefix(ks, vs, 0, key@);
        }
        None
    }

    fn append(&mut self, key: StorageKey, value: Vec<u8>)
        requires
            old(self).wf(),
        ensures
            final(self).wf(),
            final(self).contents() == old(self).contents().insert(key@, value@),
    {
        let ghost k = key@;
        let ghost v = value@;
        let ghost ks = self.key_views();
        let ghost vs = self.value_views();
        self.keys.push(key);
        self.values.push(value);
        assert(self.key_views().drop_last() =~= ks);
        assert(self.value_views().drop_last() =~= vs);
        assert(self.key_views().last() == k);
        assert(self.value_views().last() == v);
    }
}

/// Storage held in memory: every write is logged, and a read finds the
/// newest write under its key. It never fails.
pub struct MemoryStore {
    words: WriteLog,
    blobs: WriteLog,
}

impl MemoryStore {
    pub fn new() -> (r: MemoryStore)
        ensures
            r.inv(),
            r.reliable(),
            r.words() == Map::<KeyView, Seq<u8>>::empty(),
            r.blobs() == Map::<KeyView, Seq<u8>>::empty(),
    {
        MemoryStore { words: WriteLog::new(), blobs: WriteLog::new() }
    }
}

impl StorageAccess for MemoryStore {
    closed spec fn inv(&self) -> bool {
        self.words.wf() && self.blobs.wf()
    }

    closed spec fn reliable(&self) -> bool {
        true
    }

    closed spec fn words(&self) -> Map<KeyView, Seq<u8>> {
        self.words.contents()
    }

    closed spec fn blobs(&self) -> Map<KeyView, Seq<u8>> {
        self.blobs.contents()
    }

    fn get_word(&self, key: &StorageKey) -> (r: Result<Vec<u8>, StorageError>) {
        match self.words.lookup(key) {
            Some(v) => Ok(v),
            None => {
                let mut z: Vec<u8> = Vec::new();
                let mut i: usize = 0;
                while i < 32
                    invariant
                        i <= 32,
                        z@ == Seq::new(i as nat, |j: int| 0u8),
                    decreases 32 - i,
                {
                    z.push(0u8);
                    i = i + 1;
                    assert(z@ =~= Seq::new(i as nat, |j: int| 0u8));
                }
                Ok(z)
            },
        }
    }

    fn set_word(&mut self, key: StorageKey, value: Vec<u8>) -> (r: Result<(), StorageError>) {
        self.words.append(key, value);
        Ok(())
    }

    fn get_bytes(&self, key: &StorageKey) -> (r: Result<Vec<u8>, StorageError>) {
        match self.blobs.lookup(key) {
            Some(v) => Ok(v),
            None => Ok(Vec::new()),
        }
    }

    fn set_bytes(&mut self, key: StorageKey, value: Vec<u8>) -> (r: Result<(), StorageError>) {
        self.blobs.append(key, value);
        Ok(())
    }
}

} // verus!
