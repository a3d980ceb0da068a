use simple_storage::storage::SlotPart;
use simple_storage::{
    fetch, reply_bytes, reply_empty, reply_word, respond, Access, CallParams, Fetched, StorageError, ExecOutput, MemoryStore, NativeError,
    SimpleStorage,
};

const SET_UINT: u32 = 0xaa91543e;
const GET_UINT: u32 = 0x832b4580;
const SET_STRING: u32 = 0xc9615770;
const GET_STRING: u32 = 0xe3135d14;
const SET_ARRAY: u32 = 0x118b229c;
const GET_ARRAY: u32 = 0x180a4bbf;
const SET_MAP: u32 = 0xaaf27175;
const GET_MAP: u32 = 0xc567dff6;

fn address(hex: &str) -> Vec<u8> {
    let digits = hex.trim_start_matches("0x").as_bytes();
    digits
        .chunks(2)
        .map(|pair| u8::from_str_radix(std::str::from_utf8(pair).unwrap(), 16).unwrap())
        .collect()
}

fn word(n: u64) -> Vec<u8> {
    let mut w = vec![0u8; 24];
    w.extend_from_slice(&n.to_be_bytes());
    w
}

fn input(selector: u32, args: &[Vec<u8>]) -> Vec<u8> {
    let mut data = selector.to_be_bytes().to_vec();
    for a in args {
        data.extend_from_slice(a);
    }
    data
}

fn run(store: &mut MemoryStore, addr: &[u8], data: Vec<u8>) -> Result<ExecOutput, NativeError> {
    let params = CallParams { data, code_address: addr.to_vec() };
    SimpleStorage::default().create().exec(&params, store)
}

fn output(r: Result<ExecOutput, NativeError>) -> Vec<u8> {
    match r {
        Ok(o) => {
            assert_eq!(o.quota_used, 100);
            o.data
        }
        Err(e) => panic!("call failed: {:?}", e),
    }
}

fn abi_string(s: &[u8]) -> Vec<u8> {
    let mut out = word(32);
    out.extend_from_slice(&word(s.len() as u64));
    out.extend_from_slice(s);
    while out.len() % 32 != 0 {
        out.push(0);
    }
    out
}

#[test]
fn test_native_contract() {
    let addr = address("0x4b5ae4567ad5d9fb92bc9afd6a657e6fa13a2523");
    let mut store = MemoryStore::new();
    let value = word(0x1234);
    let set = run(&mut store, &addr, input(SET_UINT, &[value.clone()]));
    assert!(set.is_ok(), "Set value failed.");
    match run(&mut store, &addr, input(GET_UINT, &[])) {
        Ok(o) => assert!(o.data == value),
        Err(_) => assert!(false, "no output data"),
    }
}

#[test]
fn uint_get_returns_big_endian_word() {
    let addr = address("0x4b5ae4567ad5d9fb92bc9afd6a657e6fa13a2523");
    let mut store = MemoryStore::new();
    output(run(&mut store, &addr, input(SET_UINT, &[word(0x1234)])));
    let out = output(run(&mut store, &addr, input(GET_UINT, &[])));
    let mut expected = vec![0u8; 32];
    expected[30] = 0x12;
    expected[31] = 0x34;
    assert_eq!(out, expected);
}

#[test]
fn uint_unset_reads_zero_and_overwrite_keeps_last() {
    let addr = vec![7u8; 20];
    let mut store = MemoryStore::new();
    assert_eq!(output(run(&mut store, &addr, input(GET_UINT, &[]))), vec![0u8; 32]);
    let big: Vec<u8> = (1..=32).collect();
    output(run(&mut store, &addr, input(SET_UINT, &[word(5)])));
    output(run(&mut store, &addr, input(SET_UINT, &[big.clone()])));
    assert_eq!(output(run(&mut store, &addr, input(GET_UINT, &[]))), big);
}

#[test]
fn init_succeeds_with_empty_output_whatever_follows() {
    let addr = vec![1u8; 20];
    let mut store = MemoryStore::new();
    assert!(output(run(&mut store, &addr, vec![0, 0, 0, 0])).is_empty());
    assert!(output(run(&mut store, &addr, vec![0, 0, 0, 0, 9, 9, 9])).is_empty());
}

#[test]
fn unknown_selector_is_unrecognized() {
    let addr = vec![1u8; 20];
    let mut store = MemoryStore::new();
    let r = run(&mut store, &addr, input(0xdeadbeef, &[word(1)]));
    assert!(matches!(r, Err(NativeError::UnknownOperation)));
}

#[test]
fn truncated_call_data_is_insufficient() {
    let addr = vec![1u8; 20];
    let mut store = MemoryStore::new();
    let r = run(&mut store, &addr, vec![0xaa, 0x91, 0x54, 0x3e, 0x12, 0x34]);
    assert!(matches!(r, Err(NativeError::InsufficientData)));
    let r = run(&mut store, &addr, vec![0xaa, 0x91]);
    assert!(matches!(r, Err(NativeError::InsufficientData)));
    let r = run(&mut store, &addr, input(SET_ARRAY, &[word(1)]));
    assert!(matches!(r, Err(NativeError::InsufficientData)));
    let r = run(&mut store, &addr, input(SET_MAP, &[word(1), vec![0u8; 31]]));
    assert!(matches!(r, Err(NativeError::InsufficientData)));
    let r = run(&mut store, &addr, input(GET_ARRAY, &[vec![0u8; 31]]));
    assert!(matches!(r, Err(NativeError::InsufficientData)));
    let r = run(&mut store, &addr, input(SET_STRING, &[]));
    assert!(matches!(r, Err(NativeError::InsufficientData)));
}

#[test]
fn string_round_trip_short_empty_and_whole_words() {
    let addr = vec![2u8; 20];
    let mut store = MemoryStore::new();
    let samples: Vec<Vec<u8>> = vec![
        b"hello".to_vec(),
        Vec::new(),
        vec![b'a'; 32],
        vec![b'b'; 33],
        "héllo wörld".as_bytes().to_vec(),
    ];
    for s in samples {
        output(run(&mut store, &addr, input(SET_STRING, &[abi_string(&s)])));
        let out = output(run(&mut store, &addr, input(GET_STRING, &[])));
        assert_eq!(out, abi_string(&s));
    }
}

#[test]
fn string_get_layout_is_exact() {
    let addr = vec![2u8; 20];
    let mut store = MemoryStore::new();
    assert_eq!(output(run(&mut store, &addr, input(GET_STRING, &[]))), [word(32), word(0)].concat());
    output(run(&mut store, &addr, input(SET_STRING, &[abi_string(b"abc")])));
    let out = output(run(&mut store, &addr, input(GET_STRING, &[])));
    assert_eq!(out.len(), 96);
    assert_eq!(&out[0..32], &word(32)[..]);
    assert_eq!(&out[32..64], &word(3)[..]);
    assert_eq!(&out[64..67], b"abc");
    assert!(out[67..].iter().all(|b| *b == 0));
    output(run(&mut store, &addr, input(SET_STRING, &[abi_string(&[b'z'; 64])])));
    assert_eq!(output(run(&mut store, &addr, input(GET_STRING, &[]))).len(), 128);
}

#[test]
fn string_with_other_offset_is_read_from_there() {
    let addr = vec![2u8; 20];
    let mut store = MemoryStore::new();
    let args = [word(64), vec![0xffu8; 32], word(2), b"ok".to_vec()].concat();
    output(run(&mut store, &addr, input(SET_STRING, &[args])));
    assert_eq!(output(run(&mut store, &addr, input(GET_STRING, &[]))), abi_string(b"ok"));
}

#[test]
fn string_with_bad_encoding_is_rejected() {
    let addr = vec![2u8; 20];
    let mut store = MemoryStore::new();
    let r = run(&mut store, &addr, input(SET_STRING, &[abi_string(&[0xff, 0xfe])]));
    assert!(matches!(r, Err(NativeError::InvalidEncoding)));
    let r = run(&mut store, &addr, input(SET_STRING, &[word(32)]));
    assert!(matches!(r, Err(NativeError::InvalidEncoding)));
    let r = run(&mut store, &addr, input(SET_STRING, &[word(32), word(5), b"abc".to_vec()]));
    assert!(matches!(r, Err(NativeError::InvalidEncoding)));
    let mut huge = word(32);
    huge[0] = 1;
    let r = run(&mut store, &addr, input(SET_STRING, &[huge, word(0)]));
    assert!(matches!(r, Err(NativeError::InvalidEncoding)));
    assert_eq!(output(run(&mut store, &addr, input(GET_STRING, &[]))), [word(32), word(0)].concat());
}

#[test]
fn array_round_trip_and_unset_zero() {
    let addr = vec![3u8; 20];
    let mut store = MemoryStore::new();
    output(run(&mut store, &addr, input(SET_ARRAY, &[word(7), word(0xabcdef)])));
    assert_eq!(output(run(&mut store, &addr, input(GET_ARRAY, &[word(7)]))), word(0xabcdef));
    assert_eq!(output(run(&mut store, &addr, input(GET_ARRAY, &[word(8)]))), vec![0u8; 32]);
    let mut high = word(7);
    high[0] = 0x80;
    assert_eq!(output(run(&mut store, &addr, input(GET_ARRAY, &[high]))), word(0xabcdef));
}

#[test]
fn array_get_output_does_not_accumulate() {
    let addr = vec![3u8; 20];
    let mut store = MemoryStore::new();
    output(run(&mut store, &addr, input(SET_ARRAY, &[word(1), word(11)])));
    let contract = SimpleStorage::new();
    let params = CallParams { data: input(GET_ARRAY, &[word(1)]), code_address: addr.clone() };
    let first = output(contract.exec(&params, &mut store));
    let second = output(contract.exec(&params, &mut store));
    assert_eq!(first, word(11));
    assert_eq!(second, word(11));
}

#[test]
fn map_round_trip_and_unset_zero() {
    let addr = vec![4u8; 20];
    let mut store = MemoryStore::new();
    let key: Vec<u8> = (100..132).collect();
    output(run(&mut store, &addr, input(SET_MAP, &[key.clone(), word(42)])));
    assert_eq!(output(run(&mut store, &addr, input(GET_MAP, &[key.clone()]))), word(42));
    let mut other = key.clone();
    other[0] = 0;
    assert_eq!(output(run(&mut store, &addr, input(GET_MAP, &[other]))), vec![0u8; 32]);
}

#[test]
fn fields_do_not_share_storage() {
    let addr = vec![5u8; 20];
    let mut store = MemoryStore::new();
    output(run(&mut store, &addr, input(SET_UINT, &[word(9)])));
    assert_eq!(output(run(&mut store, &addr, input(GET_ARRAY, &[word(0)]))), vec![0u8; 32]);
    assert_eq!(output(run(&mut store, &addr, input(GET_MAP, &[word(0)]))), vec![0u8; 32]);
    assert_eq!(output(run(&mut store, &addr, input(GET_STRING, &[]))), [word(32), word(0)].concat());
}

#[test]
fn addresses_are_isolated() {
    let a = address("0x4b5ae4567ad5d9fb92bc9afd6a657e6fa13a2523");
    let b = address("0x1111111111111111111111111111111111111111");
    let mut store = MemoryStore::new();
    output(run(&mut store, &a, input(SET_UINT, &[word(1)])));
    output(run(&mut store, &a, input(SET_STRING, &[abi_string(b"mine")])));
    output(run(&mut store, &a, input(SET_ARRAY, &[word(0), word(2)])));
    output(run(&mut store, &a, input(SET_MAP, &[word(0), word(3)])));
    assert_eq!(output(run(&mut store, &b, input(GET_UINT, &[]))), vec![0u8; 32]);
    assert_eq!(output(run(&mut store, &b, input(GET_STRING, &[]))), [word(32), word(0)].concat());
    assert_eq!(output(run(&mut store, &b, input(GET_ARRAY, &[word(0)]))), vec![0u8; 32]);
    assert_eq!(output(run(&mut store, &b, input(GET_MAP, &[word(0)]))), vec![0u8; 32]);
    assert_eq!(output(run(&mut store, &a, input(GET_UINT, &[]))), word(1));
}

#[test]
fn plan_names_the_access_of_each_operation() {
    let addr = vec![6u8; 20];
    let contract = SimpleStorage::new();
    let params = CallParams { data: input(SET_ARRAY, &[word(5), word(77)]), code_address: addr.clone() };
    match contract.plan(&params) {
        Ok(Access::WriteWord(key, value)) => {
            assert_eq!(key.address, addr);
            assert_eq!(key.slot, word(2));
            assert!(matches!(key.part, SlotPart::Index(5)));
            assert_eq!(value, word(77));
        }
        other => panic!("unexpected plan: {:?}", other.is_ok()),
    }
    let params = CallParams { data: input(GET_STRING, &[]), code_address: addr.clone() };
    match contract.plan(&params) {
        Ok(Access::ReadBytes(key)) => {
            assert_eq!(key.slot, word(1));
            assert!(matches!(key.part, SlotPart::Whole));
        }
        other => panic!("unexpected plan: {:?}", other.is_ok()),
    }
    let params = CallParams { data: input(GET_MAP, &[word(9)]), code_address: addr.clone() };
    match contract.plan(&params) {
        Ok(Access::ReadWord(key)) => {
            assert_eq!(key.slot, word(3));
            assert!(matches!(key.part, SlotPart::Key(ref k) if *k == word(9)));
        }
        other => panic!("unexpected plan: {:?}", other.is_ok()),
    }
    let params = CallParams { data: vec![0, 0, 0, 0], code_address: addr };
    assert!(matches!(contract.plan(&params), Ok(Access::Nothing)));
}

#[test]
fn replies_encode_exactly() {
    assert!(reply_empty().data.is_empty());
    assert_eq!(reply_word(word(3)).data, word(3));
    let r = reply_bytes(&b"hi".to_vec());
    assert_eq!(r.quota_used, 100);
    let mut expected = [word(32), word(2)].concat();
    expected.extend_from_slice(b"hi");
    expected.extend_from_slice(&[0u8; 30]);
    assert_eq!(r.data, expected);
    assert_eq!(reply_bytes(&Vec::new()).data, [word(32), word(0)].concat());
}

#[test]
fn storage_error_is_handed_on_unchanged() {
    let failure = StorageError { message: "disk gone".to_string() };
    match respond(Err(failure)) {
        Err(NativeError::Storage(e)) => assert_eq!(e.message, "disk gone"),
        other => panic!("unexpected response: {:?}", other.is_ok()),
    }
    let r = respond(Ok(Fetched::Word(word(8)))).unwrap();
    assert_eq!(r.data, word(8));
    assert_eq!(r.quota_used, 100);
}

#[test]
fn init_ignores_trailing_bytes() {
    let addr = address("0x4b5ae4567ad5d9fb92bc9afd6a657e6fa13a2523");
    let mut store = MemoryStore::new();
    let out = output(run(&mut store, &addr, vec![0x00, 0x00, 0x00, 0x00, 0xde, 0xad, 0xbe, 0xef, 0x01]));
    assert!(out.is_empty());
    assert_eq!(output(run(&mut store, &addr, input(GET_UINT, &[]))), vec![0u8; 32]);
}

#[test]
fn fetch_reads_and_writes_the_memory_store() {
    let addr = vec![8u8; 20];
    let contract = SimpleStorage::new();
    let mut store = MemoryStore::new();
    let set = CallParams { data: input(SET_MAP, &[word(4), vec![0xff; 32]]), code_address: addr.clone() };
    assert!(matches!(fetch(contract.plan(&set).unwrap(), &mut store), Ok(Fetched::Nothing)));
    let get = CallParams { data: input(GET_MAP, &[word(4)]), code_address: addr };
    match fetch(contract.plan(&get).unwrap(), &mut store) {
        Ok(Fetched::Word(w)) => assert_eq!(w, vec![0xff; 32]),
        other => panic!("unexpected fetch: {:?}", other.is_ok()),
    }
}
