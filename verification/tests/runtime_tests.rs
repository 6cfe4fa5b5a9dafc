//! The decoding semantics the generated marshalling code implements:
//! zero lengths never touch the data pointer, nullable pointers and
//! tagged wrappers round-trip, and destructors free each handle exactly
//! once.

use diplomat_tool::runtime::{
    decode_option_ptr, decode_option_value, decode_owned_slice, decode_slice, encode_option_ptr,
    encode_option_value, encode_result, HandleLedger, NullablePtr,
};

#[test]
fn zero_length_slice_decodes_to_empty_without_a_pointer() {
    // the data pointer may be absent (null or dangling): length zero
    // must never read it
    let r: Vec<u8> = decode_slice(None, 0);
    assert_eq!(r.len(), 0);
    let o: Vec<u16> = decode_owned_slice(None, 0);
    assert_eq!(o.len(), 0);
}

#[test]
fn nonzero_slice_decodes_to_contents() {
    let mem: Vec<u8> = vec![104, 101, 108, 108, 111];
    let r = decode_slice(Some(&mem), 5);
    assert_eq!(r, mem);
}

#[test]
fn borrowed_string_scenario_five_chars_observable() {
    // invoking with ("hello", 5) makes the five characters observable
    // to the underlying operation
    let mem: Vec<u8> = b"hello".to_vec();
    let r = decode_slice(Some(&mem), 5);
    assert_eq!(String::from_utf8(r).unwrap(), "hello");
}

#[test]
fn option_pointer_round_trip() {
    let p = encode_option_ptr(Some(7u64));
    assert!(matches!(p, NullablePtr::Addr(7)));
    assert_eq!(decode_option_ptr(p), Some(7u64));
    let n = encode_option_ptr::<u64>(None);
    assert!(matches!(n, NullablePtr::Null));
    assert_eq!(decode_option_ptr(n), None);
}

#[test]
fn option_value_round_trip_through_wrapper() {
    for v in [None, Some(5i64), Some(-9i64)] {
        let w = encode_option_value(v);
        assert_eq!(w.is_ok, v.is_some());
        assert_eq!(decode_option_value(w), v);
    }
}

#[test]
fn failing_invocation_sets_flag_and_error_payload() {
    let w = encode_result::<(), u8>(Err(3));
    assert!(!w.is_ok);
    assert_eq!(w.err, Some(3));
    let ok = encode_result::<u32, u8>(Ok(10));
    assert!(ok.is_ok);
    assert_eq!(ok.ok, Some(10));
}

#[test]
fn destroying_each_instance_leaves_none_live() {
    let mut ledger = HandleLedger::new();
    let a = ledger.issue();
    let b = ledger.issue();
    let c = ledger.issue();
    assert_eq!(ledger.live.iter().filter(|x| **x).count(), 3);
    assert!(ledger.release(a));
    assert!(ledger.release(b));
    assert!(ledger.release(c));
    assert_eq!(ledger.live.iter().filter(|x| **x).count(), 0);
}
