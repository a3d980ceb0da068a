//! The native storage contract: selector dispatch, argument decoding, and the
//! encoding of what each operation returns.

use vstd::prelude::*;

use crate::codec::{
    abi_bytes, be_value, lemma_be_value_bound, lemma_pow256_4, lemma_pow256_8, low_u64, push_be,
    read_be, read_range, word_at, word_of, word_value,
};
use crate::slots::{array_key, map_key, scalar_key, Array, MapSlot, Scalar};
use crate::storage::{
    stored_bytes, stored_word, words_sized, KeyView, StorageAccess, StorageError, StorageKey,
};
use crate::text::{is_utf8, utf8_valid};

verus! {

pub const INIT: u32 = 0x00000000;

pub const SET_UINT: u32 = 0xaa91543e;

pub const GET_UINT: u32 = 0x832b4580;

pub const SET_STRING: u32 = 0xc9615770;

pub const GET_STRING: u32 = 0xe3135d14;

pub const SET_ARRAY: u32 = 0x118b229c;

pub const GET_ARRAY: u32 = 0x180a4bbf;

pub const SET_MAP: u32 = 0xaaf27175;

pub const GET_MAP: u32 = 0xc567dff6;

/// The quota that every operation reports as consumed.
pub const NOMINAL_QUOTA: u64 = 100;

/// The operations that the contract offers.
#[derive(PartialEq, Eq, Structural, Clone, Copy, Debug)]
pub enum Operation {
    Init,
    SetUint,
    GetUint,
    SetString,
    GetString,
    SetArray,
    GetArray,
    SetMap,
    GetMap,
}

/// The operation that a selector names, if any.
pub open spec fn operation_of(selector: nat) -> Option<Operation> {
    if selector == INIT as nat {
        Some(Operation::Init)
    } else if selector == SET_UINT as nat {
        Some(Operation::SetUint)
    } else if selector == GET_UINT as nat {
        Some(Operation::GetUint)
    } else if selector == SET_STRING as nat {
        Some(Operation::SetString)
    } else if selector == GET_STRING as nat {
        Some(Operation::GetString)
    } else if selector == SET_ARRAY as nat {
        Some(Operation::SetArray)
    } else if selector == GET_ARRAY as nat {
        Some(Operation::GetArray)
    } else if selector == SET_MAP as nat {
        Some(Operation::SetMap)
    } else if selector == GET_MAP as nat {
        Some(Operation::GetMap)
    } else {
        None
    }
}

impl Operation {
    pub fn from_selector(selector: u32) -> (r: Option<Operation>)
        ensures
            r == operation_of(selector as nat),
    {
        match selector {
            INIT => Some(Operation::Init),
            SET_UINT => Some(Operation::SetUint),
            GET_UINT => Some(Operation::GetUint),
            SET_STRING => Some(Operation::SetString),
            GET_STRING => Some(Operation::GetString),
            SET_ARRAY => Some(Operation::SetArray),
            GET_ARRAY => Some(Operation::GetArray),
            SET_MAP => Some(Operation::SetMap),
            GET_MAP => Some(Operation::GetMap),
            _ => None,
        }
    }
}

/// Why a call failed.
#[derive(Debug)]
pub enum NativeError {
    /// The call data ends before the window that the operation reads.
    InsufficientData,
    /// A string's offset or length points outside the call data, or its
    /// payload is not well-formed UTF-8.
    InvalidEncoding,
    /// The selector names no operation.
    UnknownOperation,
    /// The storage capability failed; its error is handed on unchanged.
    Storage(StorageError),
}

/// What the contract is called with.
pub struct CallParams {
    /// A 4-byte big-endian selector, then the arguments.
    pub data: Vec<u8>,
    /// The address of the called contract, which scopes its storage.
    pub code_address: Vec<u8>,
}

/// What a successful call returns.
#[derive(Debug)]
pub struct ExecOutput {
    /// The return data.
    pub data: Vec<u8>,
    /// The quota that the call consumed.
    pub quota_used: u64,
}

/// Storage contents, as the contract sees them.
pub struct Ledger {
    pub words: Map<KeyView, Seq<u8>>,
    pub blobs: Map<KeyView, Seq<u8>>,
}

/// What a store holds.
pub open spec fn ledger<S: StorageAccess>(store: &S) -> Ledger {
    Ledger { words: store.words(), blobs: store.blobs() }
}

/// The slot identifiers of the four fields.
pub open spec fn uint_slot() -> Seq<u8> {
    word_of(0)
}

pub open spec fn string_slot() -> Seq<u8> {
    word_of(1)
}

pub open spec fn array_slot() -> Seq<u8> {
    word_of(2)
}

pub open spec fn map_slot() -> Seq<u8> {
    word_of(3)
}

/// The selector at the front of the call data.
pub open spec fn selector_of(data: Seq<u8>) -> nat {
    be_value(data.take(4))
}

/// The string argument: a word at byte 4 holds the offset, counted from byte
/// 4, of a word holding the length, which the payload follows.
pub open spec fn string_arg(data: Seq<u8>) -> Result<Seq<u8>, NativeError> {
    if data.len() < 36 {
        Err(NativeError::InsufficientData)
    } else {
        let start: int = 4 + be_value(word_at(data, 4)) as int;
        if start + 32 > data.len() {
            Err(NativeError::InvalidEncoding)
        } else {
            let n: int = be_value(word_at(data, start)) as int;
            if start + 32 + n > data.len() {
                Err(NativeError::InvalidEncoding)
            } else {
                let payload = data.subrange(start + 32, start + 32 + n);
                if utf8_valid(payload) {
                    Ok(payload)
                } else {
                    Err(NativeError::InvalidEncoding)
                }
            }
        }
    }
}

/// The array index argument: the low 64 bits of the word at byte 4.
pub open spec fn index_arg(data: Seq<u8>) -> u64 {
    low_u64(word_at(data, 4)) as u64
}

pub open spec fn with_word(st: Ledger, k: KeyView, v: Seq<u8>) -> Ledger {
    Ledger { words: st.words.insert(k, v), blobs: st.blobs }
}

pub open spec fn with_bytes(st: Ledger, k: KeyView, v: Seq<u8>) -> Ledger {
    Ledger { words: st.words, blobs: st.blobs.insert(k, v) }
}

/// The one storage access that a call makes.
pub enum Access {
    Nothing,
    WriteWord(StorageKey, Vec<u8>),
    ReadWord(StorageKey),
    WriteBytes(StorageKey, Vec<u8>),
    ReadBytes(StorageKey),
}

pub enum AccessView {
    Nothing,
    WriteWord(KeyView, Seq<u8>),
    ReadWord(KeyView),
    WriteBytes(KeyView, Seq<u8>),
    ReadBytes(KeyView),
}

impl View for Access {
    type V = AccessView;

    open spec fn view(&self) -> AccessView {
        match self {
            Access::Nothing => AccessView::Nothing,
            Access::WriteWord(k, v) => AccessView::WriteWord(k@, v@),
            Access::ReadWord(k) => AccessView::ReadWord(k@),
            Access::WriteBytes(k, v) => AccessView::WriteBytes(k@, v@),
            Access::ReadBytes(k) => AccessView::ReadBytes(k@),
        }
    }
}

/// Words written are whole words.
pub open spec fn access_wf(a: AccessView) -> bool {
    a is WriteWord ==> a->WriteWord_1.len() == 32
}

pub open spec fn planned_as(r: Result<Access, NativeError>) -> Result<AccessView, NativeError> {
    match r {
        Ok(a) => Ok(a@),
        Err(e) => Err(e),
    }
}

/// The storage access that an operation makes, or why it makes none.
pub open spec fn planned(op: Operation, address: Seq<u8>, data: Seq<u8>) -> Result<
    AccessView,
    NativeError,
> {
    match op {
        Operation::Init => Ok(AccessView::Nothing),
        Operation::SetUint => if data.len() < 36 {
            Err(NativeError::InsufficientData)
        } else {
            Ok(AccessView::WriteWord(scalar_key(uint_slot(), address), word_at(data, 4)))
        },
        Operation::GetUint => Ok(AccessView::ReadWord(scalar_key(uint_slot(), address))),
        Operation::SetString => match string_arg(data) {
            Ok(payload) => Ok(AccessView::WriteBytes(scalar_key(string_slot(), address), payload)),
            Err(e) => Err(e),
        },
        Operation::GetString => Ok(AccessView::ReadBytes(scalar_key(string_slot(), address))),
        Operation::SetArray => if data.len() < 68 {
            Err(NativeError::InsufficientData)
        } else {
            Ok(
                AccessView::WriteWord(
                    array_key(array_slot(), address, index_arg(data)),
                    word_at(data, 36),
                ),
            )
        },
        Operation::GetArray => if data.len() < 36 {
            Err(NativeError::InsufficientData)
        } else {
            Ok(AccessView::ReadWord(array_key(array_slot(), address, index_arg(data))))
        },
        Operation::SetMap => if data.len() < 68 {
            Err(NativeError::InsufficientData)
        } else {
            Ok(
                AccessView::WriteWord(
                    map_key(map_slot(), address, word_at(data, 4)),
                    word_at(data, 36),
                ),
            )
        },
        Operation::GetMap => if data.len() < 36 {
            Err(NativeError::InsufficientData)
        } else {
            Ok(AccessView::ReadWord(map_key(map_slot(), address, word_at(data, 4))))
        },
    }
}

/// The storage access that a call makes, or why it makes none.
pub open spec fn plan_call(address: Seq<u8>, data: Seq<u8>) -> Result<AccessView, NativeError> {
    if data.len() < 4 {
        Err(NativeError::InsufficientData)
    } else {
        match operation_of(selector_of(data)) {
            None => Err(NativeError::UnknownOperation),
            Some(op) => planned(op, address, data),
        }
    }
}

/// What an access returns and leaves in storage, when storage does not fail:
/// a write returns nothing, a word is returned as it is, a byte string in the
/// dynamic layout.
pub open spec fn apply(a: AccessView, st: Ledger) -> (Seq<u8>, Ledger) {
    match a {
        AccessView::Nothing => (Seq::empty(), st),
        AccessView::WriteWord(k, v) => (Seq::empty(), with_word(st, k, v)),
        AccessView::ReadWord(k) => (stored_word(st.words, k), st),
        AccessView::WriteBytes(k, v) => (Seq::empty(), with_bytes(st, k, v)),
        AccessView::ReadBytes(k) => (abi_bytes(stored_bytes(st.blobs, k)), st),
    }
}

/// What a call returns and leaves in storage, when storage does not fail.
pub open spec fn call(address: Seq<u8>, data: Seq<u8>, st: Ledger) -> Result<
    (Seq<u8>, Ledger),
    NativeError,
> {
    match plan_call(address, data) {
        Ok(a) => Ok(apply(a, st)),
        Err(e) => Err(e),
    }
}

/// `r` is an outcome that `expected` allows: the expected output and storage,
/// or a storage failure that left storage as it was; an expected error comes
/// as it is, with storage untouched.
pub open spec fn outcome(
    expected: Result<(Seq<u8>, Ledger), NativeError>,
    r: Result<ExecOutput, NativeError>,
    before: Ledger,
    after: Ledger,
) -> bool {
    match expected {
        Err(e) => r == Err::<ExecOutput, NativeError>(e) && after == before,
        Ok((out, next)) => match r {
            Ok(o) => o.data@ == out && o.quota_used == NOMINAL_QUOTA && after == next,
            Err(e) => e is Storage && after == before,
        },
    }
}

/// The contract; it holds only the fixed slots of its four fields.
#[derive(Clone)]
pub struct SimpleStorage {
    uint_value: Scalar,
    string_value: Scalar,
    array_value: Array,
    map_value: MapSlot,
}

fn slot_id(n: u64) -> (r: Vec<u8>)
    ensures
        r@ == word_of(n as nat),
{
    let mut r: Vec<u8> = Vec::new();
    push_be(&mut r, n, 32);
    assert(r@ =~= word_of(n as nat));
    r
}

/// The output of a write, or of init.
pub fn reply_empty() -> (r: ExecOutput)
    ensures
        r.data@ == Seq::<u8>::empty(),
        r.quota_used == NOMINAL_QUOTA,
{
    ExecOutput { data: Vec::new(), quota_used: NOMINAL_QUOTA }
}

/// The output of a word read.
pub fn reply_word(word: Vec<u8>) -> (r: ExecOutput)
    ensures
        r.data@ == word@,
        r.quota_used == NOMINAL_QUOTA,
{
    ExecOutput { data: word, quota_used: NOMINAL_QUOTA }
}

/// The output of a byte-string read: the bytes in the dynamic layout.
pub fn reply_bytes(text: &Vec<u8>) -> (r: ExecOutput)
    ensures
        r.data@ == abi_bytes(text@),
        r.quota_used == NOMINAL_QUOTA,
{
    let mut out: Vec<u8> = Vec::new();
    push_be(&mut out, 32, 32);
    push_be(&mut out, text.len() as u64, 32);
    let mut i: usize = 0;
    while i < text.len()
        invariant
            i <= text@.len(),
            out@ == word_of(32) + word_of(text@.len()) + text@.subrange(0, i as int),
        decreases text@.len() - i,
    {
        out.push(text[i]);
        i = i + 1;
        assert(out@ =~= word_of(32) + word_of(text@.len()) + text@.subrange(0, i as int));
    }
    let pad: usize = (32 - text.len() % 32) % 32;
    let ghost filled = out@;
    let mut j: usize = 0;
    while j < pad
        invariant
            j <= pad,
            out@ == filled + Seq::new(j as nat, |k: int| 0u8),
        decreases pad - j,
    {
        out.push(0u8);
        j = j + 1;
        assert(out@ =~= filled + Seq::new(j as nat, |k: int| 0u8));
    }
    assert(text@.subrange(0, text@.len() as int) =~= text@);
    assert(out@ =~= abi_bytes(text@));
    ExecOutput { data: out, quota_used: NOMINAL_QUOTA }
}

/// What a storage access brought back.
pub enum Fetched {
    /// A write, or no access at all.
    Nothing,
    /// A word that was read.
    Word(Vec<u8>),
    /// A byte string that was read.
    Bytes(Vec<u8>),
}

/// `f` is what the access `a` brings back from storage holding `st`.
pub open spec fn fetched_as(f: Fetched, a: AccessView, st: Ledger) -> bool {
    match a {
        AccessView::ReadWord(k) => f is Word && f->Word_0@ == stored_word(st.words, k),
        AccessView::ReadBytes(k) => f is Bytes && f->Bytes_0@ == stored_bytes(st.blobs, k),
        _ => f is Nothing,
    }
}

/// The return data for what an access brought back.
pub open spec fn reply_data(f: Fetched) -> Seq<u8> {
    match f {
        Fetched::Nothing => Seq::empty(),
        Fetched::Word(w) => w@,
        Fetched::Bytes(b) => abi_bytes(b@),
    }
}

/// Makes a planned storage access. An access that calls no store operation
/// succeeds, and so does every access on a reliable store; a failed access
/// leaves storage as it was.
pub fn fetch<S: StorageAccess>(access: Access, store: &mut S) -> (r: Result<Fetched, StorageError>)
    requires
        old(store).inv(),
        access_wf(access@),
    ensures
        final(store).inv(),
        final(store).reliable() == old(store).reliable(),
        old(store).reliable() || access@ is Nothing ==> r is Ok,
        r is Ok ==> fetched_as(r->Ok_0, access@, ledger(old(store))) && ledger(final(store))
            == apply(access@, ledger(old(store))).1,
        r is Err ==> ledger(final(store)) == ledger(old(store)),
{
    match access {
        Access::Nothing => Ok(Fetched::Nothing),
        Access::WriteWord(key, value) => match store.set_word(key, value) {
            Ok(()) => Ok(Fetched::Nothing),
            Err(e) => Err(e),
        },
        Access::ReadWord(key) => match store.get_word(&key) {
            Ok(w) => Ok(Fetched::Word(w)),
            Err(e) => Err(e),
        },
        Access::WriteBytes(key, value) => match store.set_bytes(key, value) {
            Ok(()) => Ok(Fetched::Nothing),
            Err(e) => Err(e),
        },
        Access::ReadBytes(key) => match store.get_bytes(&key) {
            Ok(text) => Ok(Fetched::Bytes(text)),
            Err(e) => Err(e),
        },
    }
}

/// Encodes what an access brought back; a storage error is handed on
/// unchanged.
pub fn respond(fetched: Result<Fetched, StorageError>) -> (r: Result<ExecOutput, NativeError>)
    ensures
        match fetched {
            Ok(f) => r is Ok && r->Ok_0.data@ == reply_data(f) && r->Ok_0.quota_used
                == NOMINAL_QUOTA,
            Err(e) => r == Err::<ExecOutput, NativeError>(NativeError::Storage(e)),
        },
{
    match fetched {
        Ok(Fetched::Nothing) => Ok(reply_empty()),
        Ok(Fetched::Word(w)) => Ok(reply_word(w)),
        Ok(Fetched::Bytes(text)) => Ok(reply_bytes(&text)),
        Err(e) => Err(NativeError::Storage(e)),
    }
}

/// Makes a planned storage access and encodes what it returns; a storage
/// failure is handed on and leaves storage as it was. An access that calls
/// no store operation succeeds, and so does every access on a reliable store.
pub fn perform<S: StorageAccess>(access: Access, store: &mut S) -> (r: Result<
    ExecOutput,
    NativeError,
>)
    requires
        old(store).inv(),
        access_wf(access@),
    ensures
        final(store).inv(),
        final(store).reliable() == old(store).reliable(),
        old(store).reliable() || access@ is Nothing ==> r is Ok,
        outcome(
            Ok(apply(access@, ledger(old(store)))),
            r,
            ledger(old(store)),
            ledger(final(store)),
        ),
{
    let ghost a = access@;
    let fetched = fetch(access, store);
    proof {
        if fetched is Ok {
            let f = fetched->Ok_0;
            assert(reply_data(f) == apply(a, ledger(old(store))).0);
        }
    }
    respond(fetched)
}

impl Default for SimpleStorage {
    fn default() -> (r: SimpleStorage)
        ensures
            r.wf(),
    {
        SimpleStorage::new()
    }
}

impl SimpleStorage {
    pub closed spec fn wf(&self) -> bool {
        &&& self.uint_value.position@ == uint_slot()
        &&& self.string_value.position@ == string_slot()
        &&& self.array_value.position@ == array_slot()
        &&& self.map_value.position@ == map_slot()
    }

    pub fn new() -> (r: SimpleStorage)
        ensures
            r.wf(),
    {
        SimpleStorage {
            uint_value: Scalar::new(slot_id(0)),
            string_value: Scalar::new(slot_id(1)),
            array_value: Array::new(slot_id(2)),
            map_value: MapSlot::new(slot_id(3)),
        }
    }

    /// A fresh instance: the contract keeps nothing between calls.
    pub fn create(&self) -> (r: SimpleStorage)
        ensures
            r.wf(),
    {
        SimpleStorage::new()
    }

    /// Plans init: no storage access, whatever follows the selector.
    pub fn init(&self, params: &CallParams) -> (r: Result<Access, NativeError>)
        requires
            self.wf(),
        ensures
            planned_as(r) == planned(Operation::Init, params.code_address@, params.data@),
    {
        Ok(Access::Nothing)
    }

    /// Plans writing the word at bytes 4..36 to the scalar word field.
    pub fn uint_set(&self, params: &CallParams) -> (r: Result<Access, NativeError>)
        requires
            self.wf(),
        ensures
            planned_as(r) == planned(Operation::SetUint, params.code_address@, params.data@),
    {
        if params.data.len() < 36 {
            return Err(NativeError::InsufficientData);
        }
        let value = read_range(&params.data, 4, 36);
        Ok(Access::WriteWord(self.uint_value.key(&params.code_address), value))
    }

    /// Plans reading the scalar word field.
    pub fn uint_get(&self, params: &CallParams) -> (r: Result<Access, NativeError>)
        requires
            self.wf(),
        ensures
            planned_as(r) == planned(Operation::GetUint, params.code_address@, params.data@),
    {
        Ok(Access::ReadWord(self.uint_value.key(&params.code_address)))
    }

    /// Decodes the string argument and plans writing its bytes to the string
    /// field.
    pub fn string_set(&self, params: &CallParams) -> (r: Result<Access, NativeError>)
        requires
            self.wf(),
        ensures
            planned_as(r) == planned(Operation::SetString, params.code_address@, params.data@),
    {
        let data = &params.data;
        if data.len() < 36 {
            return Err(NativeError::InsufficientData);
        }
        proof {
            lemma_pow256_8();
        }
        let offset_word = read_range(data, 4, 36);
        let offset = match word_value(&offset_word) {
            Some(v) => v,
            None => return Err(NativeError::InvalidEncoding),
        };
        if offset > (data.len() - 36) as u64 {
            return Err(NativeError::InvalidEncoding);
        }
        let start = 4 + offset as usize;
        let length_word = read_range(data, start, start + 32);
        let length = match word_value(&length_word) {
            Some(v) => v,
            None => return Err(NativeError::InvalidEncoding),
        };
        if length > (data.len() - start - 32) as u64 {
            return Err(NativeError::InvalidEncoding);
        }
        let end = start + 32 + length as usize;
        let payload = read_range(data, start + 32, end);
        if !is_utf8(&payload) {
            return Err(NativeError::InvalidEncoding);
        }
        Ok(Access::WriteBytes(self.string_value.key(&params.code_address), payload))
    }

    /// Plans reading the string field.
    pub fn string_get(&self, params: &CallParams) -> (r: Result<Access, NativeError>)
        requires
            self.wf(),
        ensures
            planned_as(r) == planned(Operation::GetString, params.code_address@, params.data@),
    {
        Ok(Access::ReadBytes(self.string_value.key(&params.code_address)))
    }

    /// Plans writing the word at bytes 36..68 at the index that bytes 4..36
    /// give.
    pub fn array_set(&self, params: &CallParams) -> (r: Result<Access, NativeError>)
        requires
            self.wf(),
        ensures
            planned_as(r) == planned(Operation::SetArray, params.code_address@, params.data@),
    {
        if params.data.len() < 68 {
            return Err(NativeError::InsufficientData);
        }
        let index = read_be(&params.data, 28, 8);
        assert(word_at(params.data@, 4).subrange(24, 32) =~= params.data@.subrange(28, 36));
        let value = read_range(&params.data, 36, 68);
        Ok(Access::WriteWord(self.array_value.key(&params.code_address, index), value))
    }

    /// Plans reading the word at the index that bytes 4..36 give.
    pub fn array_get(&self, params: &CallParams) -> (r: Result<Access, NativeError>)
        requires
            self.wf(),
        ensures
            planned_as(r) == planned(Operation::GetArray, params.code_address@, params.data@),
    {
        if params.data.len() < 36 {
            return Err(NativeError::InsufficientData);
        }
        let index = read_be(&params.data, 28, 8);
        assert(word_at(params.data@, 4).subrange(24, 32) =~= params.data@.subrange(28, 36));
        Ok(Access::ReadWord(self.array_value.key(&params.code_address, index)))
    }

    /// Plans writing the word at bytes 36..68 under the key at bytes 4..36.
    pub fn map_set(&self, params: &CallParams) -> (r: Result<Access, NativeError>)
        requires
            self.wf(),
        ensures
            planned_as(r) == planned(Operation::SetMap, params.code_address@, params.data@),
    {
        if params.data.len() < 68 {
            return Err(NativeError::InsufficientData);
        }
        let key = read_range(&params.data, 4, 36);
        let value = read_range(&params.data, 36, 68);
        Ok(Access::WriteWord(self.map_value.key(&params.code_address, &key), value))
    }

    /// Plans reading the word under the key at bytes 4..36.
    pub fn map_get(&self, params: &CallParams) -> (r: Result<Access, NativeError>)
        requires
            self.wf(),
        ensures
            planned_as(r) == planned(Operation::GetMap, params.code_address@, params.data@),
    {
        if params.data.len() < 36 {
            return Err(NativeError::InsufficientData);
        }
        let key = read_range(&params.data, 4, 36);
        Ok(Access::ReadWord(self.map_value.key(&params.code_address, &key)))
    }

    /// Reads the selector and plans the storage access of its operation.
    pub fn plan(&self, params: &CallParams) -> (r: Result<Access, NativeError>)
        requires
            self.wf(),
        ensures
            planned_as(r) == plan_call(params.code_address@, params.data@),
            r is Ok ==> access_wf(r->Ok_0@),
    {
        if params.data.len() < 4 {
            return Err(NativeError::InsufficientData);
        }
        let selector = read_be(&params.data, 0, 4);
        proof {
            assert(params.data@.subrange(0, 4) =~= params.data@.take(4));
            lemma_be_value_bound(params.data@.take(4));
            lemma_pow256_4();
        }
        match Operation::from_selector(selector as u32) {
            None => Err(NativeError::UnknownOperation),
            Some(Operation::Init) => self.init(params),
            Some(Operation::SetUint) => self.uint_set(params),
            Some(Operation::GetUint) => self.uint_get(params),
            Some(Operation::SetString) => self.string_set(params),
            Some(Operation::GetString) => self.string_get(params),
            Some(Operation::SetArray) => self.array_set(params),
            Some(Operation::GetArray) => self.array_get(params),
            Some(Operation::SetMap) => self.map_set(params),
            Some(Operation::GetMap) => self.map_get(params),
        }
    }

    /// Runs one call: plans its storage access and makes it.
    pub fn exec<S: StorageAccess>(&self, params: &CallParams, store: &mut S) -> (r: Result<
        ExecOutput,
        NativeError,
    >)
        requires
            self.wf(),
            old(store).inv(),
        ensures
            final(store).inv(),
            final(store).reliable() == old(store).reliable(),
            old(store).reliable() && call(params.code_address@, params.data@, ledger(old(store)))
                is Ok ==> r is Ok,
            plan_call(params.code_address@, params.data@) == Ok::<AccessView, NativeError>(
                AccessView::Nothing,
            ) ==> r is Ok && r->Ok_0.data@.len() == 0 && r->Ok_0.quota_used == NOMINAL_QUOTA,
            words_sized(old(store).words()) ==> words_sized(final(store).words()),
            outcome(
                call(params.code_address@, params.data@, ledger(old(store))),
                r,
                ledger(old(store)),
                ledger(final(store)),
            ),
    {
        match self.plan(params) {
            Ok(access) => perform(access, store),
            Err(e) => Err(e),
        }
    }
}

} // verus!
