//! Properties of whole calls, stated over the meaning of a call, `call`.
//! `SimpleStorage::exec` is proved to return exactly what `call` gives
//! whenever the store is reliable, and to fail only with a storage error that
//! leaves storage as it was otherwise; so each property below holds of `exec`
//! on a reliable store such as `MemoryStore`.

use vstd::prelude::*;

use crate::codec::{
    abi_bytes, be_bytes, lemma_be_bytes_value, lemma_pow256_4, lemma_pow256_8,
    lemma_pow_mono, low_u64, padding_len, pow256, word_at, word_of, zero_word,
};
use crate::contract::{
    array_slot, call, map_slot, operation_of, selector_of, string_arg, string_slot,
    uint_slot, with_bytes, with_word, Ledger, NativeError, Operation, GET_ARRAY, GET_MAP,
    GET_STRING, GET_UINT, INIT, SET_ARRAY, SET_MAP, SET_STRING, SET_UINT,
};
use crate::slots::{array_key, map_key, scalar_key};
use crate::storage::{stored_bytes, stored_word, KeyView};
use crate::text::utf8_valid;

verus! {

/// Call data: the selector in four big-endian bytes, then the arguments.
pub open spec fn call_data(selector: u32, args: Seq<u8>) -> Seq<u8> {
    be_bytes(selector as nat, 4) + args
}

/// The shortest call data that an operation reads in full.
pub open spec fn arg_window(op: Operation) -> nat {
    match op {
        Operation::Init | Operation::GetUint | Operation::GetString => 4,
        Operation::SetUint | Operation::SetString | Operation::GetArray | Operation::GetMap => 36,
        Operation::SetArray | Operation::SetMap => 68,
    }
}

/// What a call returns, without what it leaves in storage.
pub open spec fn returned(r: Result<(Seq<u8>, Ledger), NativeError>) -> Result<
    Seq<u8>,
    NativeError,
> {
    match r {
        Ok((out, _)) => Ok(out),
        Err(e) => Err(e),
    }
}

/// Call data read back: the selector is the one written, the arguments follow.
pub proof fn lemma_call_data(selector: u32, args: Seq<u8>)
    ensures
        call_data(selector, args).len() == 4 + args.len(),
        selector_of(call_data(selector, args)) == selector as nat,
        call_data(selector, args).subrange(4, 4 + args.len() as int) == args,
        forall|i: int| 0 <= i < args.len() ==> call_data(selector, args)[4 + i] == args[i],
{
    lemma_pow256_4();
    lemma_be_bytes_value(selector as nat, 4);
    assert(call_data(selector, args).take(4) =~= be_bytes(selector as nat, 4));
    assert(call_data(selector, args).subrange(4, 4 + args.len() as int) =~= args);
}

/// A word stored in the scalar field reads back unchanged.
pub proof fn uint_round_trip(address: Seq<u8>, v: Seq<u8>, st: Ledger)
    requires
        v.len() == 32,
    ensures
        ({
            let next = with_word(st, scalar_key(uint_slot(), address), v);
            &&& call(address, call_data(SET_UINT, v), st) == Ok::<(Seq<u8>, Ledger), NativeError>(
                (Seq::empty(), next),
            )
            &&& call(address, call_data(GET_UINT, Seq::empty()), next) == Ok::<
                (Seq<u8>, Ledger),
                NativeError,
            >((v, next))
        }),
{
    lemma_call_data(SET_UINT, v);
    lemma_call_data(GET_UINT, Seq::empty());
    assert(word_at(call_data(SET_UINT, v), 4) =~= v);
}

/// A UTF-8 string stored in the string field comes back in the dynamic
/// layout in which it was sent, and that layout decodes to the string.
pub proof fn string_round_trip(address: Seq<u8>, s: Seq<u8>, st: Ledger)
    requires
        utf8_valid(s),
        s.len() < pow256(8),
    ensures
        ({
            let next = with_bytes(st, scalar_key(string_slot(), address), s);
            &&& call(address, call_data(SET_STRING, abi_bytes(s)), st) == Ok::<
                (Seq<u8>, Ledger),
                NativeError,
            >((Seq::empty(), next))
            &&& call(address, call_data(GET_STRING, Seq::empty()), next) == Ok::<
                (Seq<u8>, Ledger),
                NativeError,
            >((abi_bytes(s), next))
            &&& string_arg(call_data(SET_STRING, abi_bytes(s))) == Ok::<Seq<u8>, NativeError>(s)
        }),
{
    let enc = abi_bytes(s);
    let data = call_data(SET_STRING, enc);
    lemma_call_data(SET_STRING, enc);
    lemma_call_data(GET_STRING, Seq::empty());
    lemma_pow256_8();
    lemma_pow_mono(8, 32);
    lemma_be_bytes_value(32, 32);
    lemma_be_bytes_value(s.len(), 32);
    assert(word_at(data, 4) =~= word_of(32));
    assert(word_at(data, 36) =~= word_of(s.len()));
    assert(data.subrange(68, 68 + s.len() as int) =~= s);
    assert(data.len() == 4 + 64 + s.len() + padding_len(s.len()));
}

/// A word stored at an index of the array field reads back unchanged at that
/// index; an index never written reads as zero.
pub proof fn array_round_trip(address: Seq<u8>, index: Seq<u8>, v: Seq<u8>, st: Ledger)
    requires
        index.len() == 32,
        v.len() == 32,
    ensures
        ({
            let key = array_key(array_slot(), address, low_u64(index) as u64);
            let next = with_word(st, key, v);
            &&& call(address, call_data(SET_ARRAY, index + v), st) == Ok::<
                (Seq<u8>, Ledger),
                NativeError,
            >((Seq::empty(), next))
            &&& call(address, call_data(GET_ARRAY, index), next) == Ok::<
                (Seq<u8>, Ledger),
                NativeError,
            >((v, next))
            &&& !st.words.contains_key(key) ==> call(address, call_data(GET_ARRAY, index), st)
                == Ok::<(Seq<u8>, Ledger), NativeError>((zero_word(), st))
        }),
{
    lemma_call_data(SET_ARRAY, index + v);
    lemma_call_data(GET_ARRAY, index);
    assert(word_at(call_data(SET_ARRAY, index + v), 4) =~= index);
    assert(word_at(call_data(SET_ARRAY, index + v), 36) =~= v);
    assert(word_at(call_data(GET_ARRAY, index), 4) =~= index);
}

/// A word stored under a key of the map field reads back unchanged under
/// that key; a key never written reads as zero.
pub proof fn map_round_trip(address: Seq<u8>, key: Seq<u8>, v: Seq<u8>, st: Ledger)
    requires
        key.len() == 32,
        v.len() == 32,
    ensures
        ({
            let k = map_key(map_slot(), address, key);
            let next = with_word(st, k, v);
            &&& call(address, call_data(SET_MAP, key + v), st) == Ok::<
                (Seq<u8>, Ledger),
                NativeError,
            >((Seq::empty(), next))
            &&& call(address, call_data(GET_MAP, key), next) == Ok::<
                (Seq<u8>, Ledger),
                NativeError,
            >((v, next))
            &&& !st.words.contains_key(k) ==> call(address, call_data(GET_MAP, key), st) == Ok::<
                (Seq<u8>, Ledger),
                NativeError,
            >((zero_word(), st))
        }),
{
    lemma_call_data(SET_MAP, key + v);
    lemma_call_data(GET_MAP, key);
    assert(word_at(call_data(SET_MAP, key + v), 4) =~= key);
    assert(word_at(call_data(SET_MAP, key + v), 36) =~= v);
    assert(word_at(call_data(GET_MAP, key), 4) =~= key);
}

/// A call under one contract address changes nothing that a call under
/// another address returns.
pub proof fn isolation(a: Seq<u8>, b: Seq<u8>, first: Seq<u8>, second: Seq<u8>, st: Ledger)
    requires
        a != b,
        call(a, first, st) is Ok,
    ensures
        returned(call(b, second, call(a, first, st)->Ok_0.1)) == returned(call(b, second, st)),
{
    let next = call(a, first, st)->Ok_0.1;
    assert(forall|k: KeyView| k.address == b ==> stored_word(next.words, k) == stored_word(st.words, k));
    assert(forall|k: KeyView| k.address == b ==> stored_bytes(next.blobs, k) == stored_bytes(st.blobs, k));
}

/// The init selector succeeds with empty output and leaves storage as it
/// was, whatever follows it.
pub proof fn init_always_succeeds(address: Seq<u8>, rest: Seq<u8>, st: Ledger)
    ensures
        call(address, call_data(INIT, rest), st) == Ok::<(Seq<u8>, Ledger), NativeError>(
            (Seq::empty(), st),
        ),
{
    lemma_call_data(INIT, rest);
}

/// A selector outside the table fails as an unrecognized operation.
pub proof fn unknown_selector_fails(address: Seq<u8>, selector: u32, rest: Seq<u8>, st: Ledger)
    requires
        operation_of(selector as nat) is None,
    ensures
        call(address, call_data(selector, rest), st) == Err::<(Seq<u8>, Ledger), NativeError>(
            NativeError::UnknownOperation,
        ),
{
    lemma_call_data(selector, rest);
}

/// Call data that ends before the selector, or before the window that its
/// operation reads, fails as insufficient data.
pub proof fn truncated_call_fails(address: Seq<u8>, data: Seq<u8>, st: Ledger)
    requires
        data.len() < 4 || (operation_of(selector_of(data)) is Some && data.len() < arg_window(
            operation_of(selector_of(data))->Some_0,
        )),
    ensures
        call(address, data, st) == Err::<(Seq<u8>, Ledger), NativeError>(
            NativeError::InsufficientData,
        ),
{
}

} // verus!
