use dapr_wasm::call::{CallAction, CallEvent, GuestCall};
use dapr_wasm::param::{Param, Settlement};
use dapr_wasm::ret::{
    collect_results, decode_result, decode_value, error_message, parse_result_table, ResultSlot, RetTypes,
    RetValue,
};

fn settle(p: Param) -> Settlement {
    p.settlement()
}

#[test]
fn settles_scalars_little_endian() {
    assert_eq!(settle(Param::I8(-1)), Settlement { alloc_size: 1, data: vec![0xff], length: 1 });
    assert_eq!(settle(Param::U8(200)), Settlement { alloc_size: 1, data: vec![200], length: 1 });
    assert_eq!(settle(Param::I16(-2)), Settlement { alloc_size: 2, data: vec![0xfe, 0xff], length: 1 });
    assert_eq!(settle(Param::I32(0x01020304)), Settlement {
        alloc_size: 4,
        data: vec![4, 3, 2, 1],
        length: 1,
    });
    assert_eq!(settle(Param::U32(0xdeadbeef)), Settlement {
        alloc_size: 4,
        data: vec![0xef, 0xbe, 0xad, 0xde],
        length: 1,
    });
    assert_eq!(settle(Param::I64(-1)), Settlement { alloc_size: 8, data: vec![0xff; 8], length: 1 });
    assert_eq!(settle(Param::U64(1)), Settlement {
        alloc_size: 8,
        data: vec![1, 0, 0, 0, 0, 0, 0, 0],
        length: 1,
    });
    assert_eq!(settle(Param::Bool(true)), Settlement { alloc_size: 1, data: vec![1], length: 1 });
    assert_eq!(settle(Param::Bool(false)), Settlement { alloc_size: 1, data: vec![0], length: 1 });
}

#[test]
fn settles_u16_with_length_two_in_four_bytes() {
    assert_eq!(settle(Param::U16(0x1234)), Settlement { alloc_size: 4, data: vec![0x34, 0x12], length: 2 });
}

#[test]
fn settles_floats_by_their_bits() {
    let f = 1.5f32;
    let s = settle(Param::F32(f.to_bits()));
    assert_eq!(s.data, f.to_le_bytes().to_vec());
    assert_eq!((s.alloc_size, s.length), (4, 1));
    let d = -2.25f64;
    let s = settle(Param::F64(d.to_bits()));
    assert_eq!(s.data, d.to_le_bytes().to_vec());
    assert_eq!((s.alloc_size, s.length), (8, 1));
}

#[test]
fn settles_vectors_element_by_element() {
    assert_eq!(settle(Param::VecI8(vec![-1, 2])), Settlement { alloc_size: 2, data: vec![0xff, 2], length: 2 });
    assert_eq!(settle(Param::VecU8(vec![9, 8, 7])), Settlement { alloc_size: 3, data: vec![9, 8, 7], length: 3 });
    assert_eq!(settle(Param::VecU16(vec![1, 0x0203])), Settlement {
        alloc_size: 4,
        data: vec![1, 0, 3, 2],
        length: 2,
    });
    assert_eq!(settle(Param::VecI16(vec![-1])), Settlement { alloc_size: 2, data: vec![0xff, 0xff], length: 1 });
    assert_eq!(settle(Param::VecI32(vec![-2, 1])), Settlement {
        alloc_size: 8,
        data: vec![0xfe, 0xff, 0xff, 0xff, 1, 0, 0, 0],
        length: 2,
    });
    assert_eq!(settle(Param::VecU32(vec![])), Settlement { alloc_size: 0, data: vec![], length: 0 });
    assert_eq!(settle(Param::VecU64(vec![0x0102])), Settlement {
        alloc_size: 8,
        data: vec![2, 1, 0, 0, 0, 0, 0, 0],
        length: 1,
    });
    assert_eq!(settle(Param::VecI64(vec![i64::MIN])), Settlement {
        alloc_size: 8,
        data: vec![0, 0, 0, 0, 0, 0, 0, 0x80],
        length: 1,
    });
}

#[test]
fn settles_strings_as_utf8_bytes() {
    let s = settle(Param::String("h\u{e9}!".to_string()));
    assert_eq!(s, Settlement { alloc_size: 4, data: vec![b'h', 0xc3, 0xa9, b'!'], length: 4 });
}

#[test]
fn ret_types_follow_their_tags() {
    assert_eq!(RetTypes::from_i32(1), Some(RetTypes::U8));
    assert_eq!(RetTypes::from_i32(12), Some(RetTypes::Char));
    assert_eq!(RetTypes::from_i32(21), Some(RetTypes::U8Array));
    assert_eq!(RetTypes::from_i32(28), Some(RetTypes::I64Array));
    assert_eq!(RetTypes::from_i32(31), Some(RetTypes::String));
    assert_eq!(RetTypes::from_i32(0), None);
    assert_eq!(RetTypes::from_i32(13), None);
    assert_eq!(RetTypes::from_i32(29), None);
    assert_eq!(RetTypes::from_i32(-1), None);
}

#[test]
fn decodes_scalars() {
    assert_eq!(decode_value(&RetTypes::U8, &vec![7, 9]), RetValue::U8(7));
    assert_eq!(decode_value(&RetTypes::I8, &vec![0x80]), RetValue::I8(-128));
    assert_eq!(decode_value(&RetTypes::U16, &vec![0x34, 0x12]), RetValue::U16(0x1234));
    assert_eq!(decode_value(&RetTypes::I16, &vec![0xfe, 0xff]), RetValue::I16(-2));
    assert_eq!(decode_value(&RetTypes::U32, &vec![1, 0, 0, 0x80]), RetValue::U32(0x8000_0001));
    assert_eq!(decode_value(&RetTypes::I32, &vec![0xff, 0xff, 0xff, 0xff]), RetValue::I32(-1));
    assert_eq!(decode_value(&RetTypes::U64, &vec![1, 2, 0, 0, 0, 0, 0, 0]), RetValue::U64(0x0201));
    assert_eq!(decode_value(&RetTypes::I64, &vec![0, 0, 0, 0, 0, 0, 0, 0x80]), RetValue::I64(i64::MIN));
    assert_eq!(decode_value(&RetTypes::F32, &2.5f32.to_le_bytes().to_vec()), RetValue::F32(2.5f32.to_bits()));
    assert_eq!(decode_value(&RetTypes::F64, &0.1f64.to_le_bytes().to_vec()), RetValue::F64(0.1f64.to_bits()));
    assert_eq!(decode_value(&RetTypes::Bool, &vec![1]), RetValue::Bool(true));
    assert_eq!(decode_value(&RetTypes::Bool, &vec![2]), RetValue::Bool(false));
}

#[test]
fn decodes_chars_and_rejects_surrogates() {
    assert_eq!(decode_value(&RetTypes::Char, &vec![0x41, 0, 0, 0]), RetValue::Char(Some('A')));
    assert_eq!(decode_value(&RetTypes::Char, &vec![0x00, 0xd8, 0, 0]), RetValue::Char(None));
    assert_eq!(decode_value(&RetTypes::Char, &vec![0x00, 0x00, 0x11, 0]), RetValue::Char(None));
}

#[test]
fn decodes_arrays_ignoring_a_partial_last_element() {
    assert_eq!(decode_value(&RetTypes::U8Array, &vec![1, 2, 3]), RetValue::U8Array(vec![1, 2, 3]));
    assert_eq!(decode_value(&RetTypes::I8Array, &vec![0xff, 1]), RetValue::I8Array(vec![-1, 1]));
    assert_eq!(decode_value(&RetTypes::U16Array, &vec![1, 0, 2, 0, 9]), RetValue::U16Array(vec![1, 2]));
    assert_eq!(decode_value(&RetTypes::I16Array, &vec![0xff, 0xff]), RetValue::I16Array(vec![-1]));
    assert_eq!(decode_value(&RetTypes::U32Array, &vec![1, 0, 0]), RetValue::U32Array(vec![]));
    assert_eq!(decode_value(&RetTypes::I32Array, &vec![0xfe, 0xff, 0xff, 0xff]), RetValue::I32Array(vec![-2]));
    assert_eq!(
        decode_value(&RetTypes::U64Array, &vec![5, 0, 0, 0, 0, 0, 0, 0, 6, 0, 0, 0, 0, 0, 0, 0]),
        RetValue::U64Array(vec![5, 6])
    );
    assert_eq!(decode_value(&RetTypes::I64Array, &vec![0xff; 8]), RetValue::I64Array(vec![-1]));
}

#[test]
fn decodes_strings() {
    assert_eq!(
        decode_value(&RetTypes::String, &"gr\u{e4}y".as_bytes().to_vec()),
        RetValue::String("gr\u{e4}y".to_string())
    );
}

#[test]
fn unknown_tags_decode_to_nothing() {
    assert_eq!(decode_result(99, &vec![1, 2, 3]), None);
    assert_eq!(decode_result(11, &vec![1]), Some(RetValue::Bool(true)));
}

#[test]
fn what_a_guest_receives_reads_back_the_same() {
    let params = vec![
        (Param::I16(-300), 4, RetValue::I16(-300)),
        (Param::U16(65535), 3, RetValue::U16(65535)),
        (Param::I32(i32::MIN), 6, RetValue::I32(i32::MIN)),
        (Param::U64(u64::MAX), 7, RetValue::U64(u64::MAX)),
        (Param::VecI16(vec![-5, 7, i16::MAX]), 24, RetValue::I16Array(vec![-5, 7, i16::MAX])),
        (Param::VecU32(vec![0, 1, u32::MAX]), 25, RetValue::U32Array(vec![0, 1, u32::MAX])),
        (Param::VecI64(vec![-9]), 28, RetValue::I64Array(vec![-9])),
        (Param::VecI8(vec![-128, 127]), 22, RetValue::I8Array(vec![-128, 127])),
        (Param::String("\u{1f600} ok".to_string()), 31, RetValue::String("\u{1f600} ok".to_string())),
    ];
    for (p, code, expected) in params {
        let s = p.settlement();
        assert_eq!(decode_result(code, &s.data), Some(expected));
    }
}

#[test]
fn parses_the_result_table() {
    let mut table = Vec::new();
    for v in [16i32, 31, 5, -1, 2, 1] {
        table.extend_from_slice(&v.to_le_bytes());
    }
    let slots = parse_result_table(&table, 2);
    assert_eq!(slots, vec![
        ResultSlot { pointer: 16, type_code: 31, length: 5 },
        ResultSlot { pointer: -1, type_code: 2, length: 1 },
    ]);
}

#[test]
fn collects_results_skipping_unknown_tags() {
    let slots = vec![
        ResultSlot { pointer: 0, type_code: 31, length: 2 },
        ResultSlot { pointer: 2, type_code: 40, length: 1 },
        ResultSlot { pointer: 3, type_code: 1, length: 1 },
    ];
    let blobs = vec![b"ok".to_vec(), vec![0], vec![42]];
    let results = collect_results(&slots, &blobs);
    assert_eq!(results, vec![RetValue::String("ok".to_string()), RetValue::U8(42)]);
}

#[test]
fn a_call_writes_parameters_and_their_table() {
    let inputs = vec![Param::U8(7), Param::String("ab".to_string())];
    let (mut call, first) = GuestCall::start(&inputs);
    assert_eq!(first, CallAction::Allocate(16));
    assert!(call.accepts(&CallEvent::Allocated(1000)));
    assert!(!call.accepts(&CallEvent::Completed));
    let expected = vec![
        (CallEvent::Allocated(1000), CallAction::Allocate(1)),
        (CallEvent::Allocated(2000), CallAction::Write(2000, vec![7])),
        (CallEvent::Completed, CallAction::Write(1000, 2000i32.to_le_bytes().to_vec())),
        (CallEvent::Completed, CallAction::Write(1004, vec![1, 0, 0, 0])),
        (CallEvent::Completed, CallAction::Allocate(2)),
        (CallEvent::Allocated(3000), CallAction::Write(3000, b"ab".to_vec())),
        (CallEvent::Completed, CallAction::Write(1008, 3000i32.to_le_bytes().to_vec())),
        (CallEvent::Completed, CallAction::Write(1012, vec![2, 0, 0, 0])),
        (CallEvent::Completed, CallAction::Invoke(1000, 2)),
        (CallEvent::Completed, CallAction::Deallocate(1000, 16)),
        (CallEvent::Completed, CallAction::Receive),
    ];
    for (event, action) in expected {
        assert!(call.accepts(&event));
        assert_eq!(call.step(event), action);
    }
    assert!(!call.accepts(&CallEvent::Completed));
}

#[test]
fn a_call_without_parameters_invokes_at_once() {
    let (mut call, first) = GuestCall::start(&Vec::<Param>::new());
    assert_eq!(first, CallAction::Allocate(0));
    assert_eq!(call.step(CallEvent::Allocated(64)), CallAction::Invoke(64, 0));
    assert_eq!(call.step(CallEvent::Completed), CallAction::Deallocate(64, 0));
    assert_eq!(call.step(CallEvent::Completed), CallAction::Receive);
}

#[test]
fn a_table_that_would_wrap_the_address_space_is_refused() {
    let (call, _) = GuestCall::start(&vec![Param::U8(1)]);
    assert!(!call.accepts(&CallEvent::Allocated(-8)));
    assert!(call.accepts(&CallEvent::Allocated(-16)));
}

#[test]
fn guest_errors_read_as_text() {
    assert_eq!(error_message(&b"bad input".to_vec()), "bad input");
    assert_eq!(error_message(&vec![b'a', 0xff, b'b']), "a\u{fffd}b");
}
