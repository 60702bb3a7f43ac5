use shared_bucket::codec::customer::encode_customer_as;
use shared_bucket::scan::{find_end, head_arg};
use shared_bucket::codec::create_customer_reply::encode_create_customer_reply_as;
use shared_bucket::{
    decode_create_customer_reply, decode_customer, decode_customer_group, decode_customer_list,
    decode_find_customer_reply, decode_service, decode_service_order, encode_customer,
    CreateCustomerReply, Customer, CustomerGroup, DecodeError, Decoder, Encoder,
    FindCustomerReply, Layout, Service, WireKind,
};

fn owned(s: &str) -> String {
    s.to_string()
}

fn item(s: &str) -> Vec<u8> {
    let mut e = Encoder::new();
    assert_eq!(e.text(s), Ok(()));
    e.into_inner()
}

fn join(parts: Vec<Vec<u8>>) -> Vec<u8> {
    parts.into_iter().flatten().collect()
}

fn carol() -> Customer {
    Customer {
        address: Some(owned("1 Main St")),
        city: None,
        email: owned("carol@example.org"),
        first_name: owned("Carol"),
        id: Some(owned("42")),
        last_name: None,
        telephone: None,
    }
}

#[test]
fn reader_with_fewer_fields_reads_an_array() {
    // Two fields were written; a reader of `Service` knows the first only.
    let mut e = Encoder::new();
    let written = CreateCustomerReply { id: owned("abc"), success: true };
    assert_eq!(encode_create_customer_reply_as(&mut e, &written, Layout::Array), Ok(()));
    let bytes = e.into_inner();
    let mut d = Decoder::new(&bytes);
    assert_eq!(decode_service(&mut d), Ok(Service { id: owned("abc") }));
    assert!(d.at_end());
}

#[test]
fn reader_with_fewer_fields_reads_a_map() {
    let mut e = Encoder::new();
    let written = CreateCustomerReply { id: owned("abc"), success: true };
    assert_eq!(encode_create_customer_reply_as(&mut e, &written, Layout::Mapping), Ok(()));
    let bytes = e.into_inner();
    let mut d = Decoder::new(&bytes);
    assert_eq!(decode_service(&mut d), Ok(Service { id: owned("abc") }));
    assert!(d.at_end());
}

#[test]
fn trailing_items_of_every_kind_are_skipped() {
    let extras: Vec<Vec<u8>> = vec![
        vec![0xf6],
        vec![0xf5],
        item("later"),
        vec![0x82, 0xf4, 0x61, b'x'],
        join(vec![vec![0xa1], item("k"), vec![0x81, 0xf6]]),
        vec![0x18, 0x2a],
        vec![0x39, 0x01, 0x00],
        vec![0x43, 1, 2, 3],
        vec![0x62, 0xc3, 0x28],
        vec![0x00],
        vec![0x17],
        vec![0x19, 0x01, 0x00],
        vec![0x1b, 0xff, 0xff, 0xff, 0xff, 0xff, 0xff, 0xff, 0xff],
        vec![0x20],
        vec![0x3b, 0, 0, 0, 0, 0, 0, 0, 1],
        vec![0xc1, 0x1a, 0x51, 0x4b, 0x67, 0xb0],
        vec![0xd8, 0x20, 0xc0, 0x61, b'u'],
        vec![0xe0],
        vec![0xf7],
        vec![0xf8, 0x20],
        vec![0xf9, 0x3c, 0x00],
        vec![0xfa, 0x3f, 0x80, 0, 0],
        vec![0xfb, 0x3f, 0xf0, 0, 0, 0, 0, 0, 0],
        vec![0x83, 0x01, 0x82, 0x02, 0x40, 0xa1, 0x03, 0xc2, 0x41, 0x09],
        vec![0x80],
        vec![0xa0],
        vec![0x9f, 0xff],
        vec![0xbf, 0xff],
        vec![0x5f, 0xff],
        vec![0x7f, 0xff],
        vec![0x9f, 0x01, 0x61, b'z', 0xff],
        vec![0xbf, 0x61, b'k', 0xf5, 0xff],
        vec![0x5f, 0x41, 0x00, 0x42, 0x01, 0x02, 0xff],
        vec![0x7f, 0x61, b'a', 0x60, 0x62, 0xc3, 0x28, 0xff],
        vec![0x81, 0x9f, 0xff],
        vec![0xc1, 0x9f, 0xff],
        vec![0x9f, 0x9f, 0x9f, 0xff, 0xff, 0xff],
        vec![0x82, 0x9f, 0xff, 0x01],
        vec![0x83, 0x9f, 0x01, 0xff, 0x02, 0xbf, 0x03, 0x04, 0xff],
        vec![0x9f, 0x84, 0x01, 0x9f, 0xff, 0x02, 0x03, 0xff],
        vec![0x9f, 0x83, 0x01, 0x9f, 0xff, 0x02, 0xff],
        vec![0x9f, 0x82, 0x9f, 0xff, 0x01, 0xff],
        vec![0xbf, 0x61, b'k', 0x82, 0x5f, 0x41, 0x07, 0xff, 0x9f, 0xff, 0xff],
        vec![0x82, 0x82, 0x9f, 0x82, 0x01, 0x02, 0xff, 0x03, 0x04],
    ];
    for extra in extras {
        let bytes = join(vec![vec![0x83], item("abc"), vec![0xf5], extra]);
        let mut d = Decoder::new(&bytes);
        assert_eq!(
            decode_create_customer_reply(&mut d),
            Ok(CreateCustomerReply { id: owned("abc"), success: true })
        );
        assert!(d.at_end());
    }
}

#[test]
fn unknown_keys_are_skipped_wherever_they_stand() {
    let bytes = join(vec![
        vec![0xa4],
        item("zeta"),
        vec![0x82, 0xf4, 0xf5],
        item("success"),
        vec![0xf4],
        item("Id"),
        item("not the id"),
        item("id"),
        item("abc"),
    ]);
    let mut d = Decoder::new(&bytes);
    assert_eq!(
        decode_create_customer_reply(&mut d),
        Ok(CreateCustomerReply { id: owned("abc"), success: false })
    );
    assert!(d.at_end());
}

#[test]
fn fields_by_name_come_in_any_order() {
    let bytes = join(vec![
        vec![0xa3],
        item("firstName"),
        item("Dan"),
        item("telephone"),
        item("555"),
        item("email"),
        item("dan@example.org"),
    ]);
    let mut d = Decoder::new(&bytes);
    assert_eq!(
        decode_customer(&mut d),
        Ok(Customer {
            address: None,
            city: None,
            email: owned("dan@example.org"),
            first_name: owned("Dan"),
            id: None,
            last_name: None,
            telephone: Some(owned("555")),
        })
    );
}

#[test]
fn a_key_that_comes_twice_counts_the_second_time() {
    let bytes = join(vec![vec![0xa2], item("id"), item("first"), item("id"), item("second")]);
    let mut d = Decoder::new(&bytes);
    assert_eq!(decode_service(&mut d), Ok(Service { id: owned("second") }));
}

#[test]
fn missing_email_by_name_is_reported() {
    let bytes = join(vec![vec![0xa1], item("firstName"), item("Ann")]);
    let mut d = Decoder::new(&bytes);
    assert_eq!(
        decode_customer(&mut d),
        Err(DecodeError::MissingField { struct_name: "Customer", field_name: "email", field_index: 2 })
    );
}

#[test]
fn missing_first_name_by_name_is_reported() {
    let bytes = join(vec![vec![0xa1], item("email"), item("a@x.com")]);
    let mut d = Decoder::new(&bytes);
    assert_eq!(
        decode_customer(&mut d),
        Err(DecodeError::MissingField {
            struct_name: "Customer",
            field_name: "first_name",
            field_index: 3,
        })
    );
}

#[test]
fn required_field_erased_from_an_encoded_customer() {
    // The entries of a written customer, all but the one of the email.
    let mut e = Encoder::new();
    assert_eq!(encode_customer(&mut e, &carol()), Ok(()));
    let whole = e.into_inner();
    let entry = join(vec![item("email"), item("carol@example.org")]);
    let at = whole.windows(entry.len()).position(|w| w == &entry[..]).unwrap();
    let mut bytes = vec![0xa6];
    bytes.extend_from_slice(&whole[1..at]);
    bytes.extend_from_slice(&whole[at + entry.len()..]);
    let mut d = Decoder::new(&bytes);
    assert_eq!(
        decode_customer(&mut d),
        Err(DecodeError::MissingField { struct_name: "Customer", field_name: "email", field_index: 2 })
    );
}

#[test]
fn optional_field_erased_from_an_encoded_customer() {
    let mut e = Encoder::new();
    assert_eq!(encode_customer(&mut e, &carol()), Ok(()));
    let whole = e.into_inner();
    let entry = join(vec![item("address"), item("1 Main St")]);
    let at = whole.windows(entry.len()).position(|w| w == &entry[..]).unwrap();
    let mut bytes = vec![0xa6];
    bytes.extend_from_slice(&whole[1..at]);
    bytes.extend_from_slice(&whole[at + entry.len()..]);
    let mut d = Decoder::new(&bytes);
    let mut expected = carol();
    expected.address = None;
    assert_eq!(decode_customer(&mut d), Ok(expected));
}

#[test]
fn array_that_ends_before_a_required_field() {
    let mut e = Encoder::new();
    assert_eq!(encode_customer_as(&mut e, &carol(), Layout::Array), Ok(()));
    let whole = e.into_inner();
    // Keep the address and the city only.
    let kept = 1 + item("1 Main St").len() + 1;
    let mut bytes = vec![0x82];
    bytes.extend_from_slice(&whole[1..kept]);
    let mut d = Decoder::new(&bytes);
    assert_eq!(
        decode_customer(&mut d),
        Err(DecodeError::MissingField { struct_name: "Customer", field_name: "email", field_index: 2 })
    );
    // With the email the first name is the first that is missing.
    let bytes = join(vec![vec![0x83, 0xf6, 0xf6], item("e@x")]);
    let mut d = Decoder::new(&bytes);
    assert_eq!(
        decode_customer(&mut d),
        Err(DecodeError::MissingField {
            struct_name: "Customer",
            field_name: "first_name",
            field_index: 3,
        })
    );
}

#[test]
fn array_that_ends_before_optional_fields() {
    let bytes = join(vec![vec![0x84, 0xf6, 0xf6], item("e@x"), item("Eve")]);
    let mut d = Decoder::new(&bytes);
    assert_eq!(
        decode_customer(&mut d),
        Ok(Customer {
            address: None,
            city: None,
            email: owned("e@x"),
            first_name: owned("Eve"),
            id: None,
            last_name: None,
            telephone: None,
        })
    );
}

#[test]
fn empty_struct_heads_miss_the_first_required_field() {
    for head in vec![0x80u8, 0xa0] {
        let bytes = vec![head];
        let mut d = Decoder::new(&bytes);
        assert_eq!(
            decode_create_customer_reply(&mut d),
            Err(DecodeError::MissingField {
                struct_name: "CreateCustomerReply",
                field_name: "id",
                field_index: 0,
            })
        );
        let mut d = Decoder::new(&bytes);
        assert_eq!(decode_find_customer_reply(&mut d), Ok(FindCustomerReply { customer: None }));
        let mut d = Decoder::new(&bytes);
        assert_eq!(
            decode_customer_group(&mut d),
            Err(DecodeError::MissingField {
                struct_name: "CustomerGroup",
                field_name: "name",
                field_index: 1,
            })
        );
    }
}

#[test]
fn flag_where_text_is_needed() {
    let bytes = vec![0x82, 0xf5, 0xf5];
    let mut d = Decoder::new(&bytes);
    assert_eq!(
        decode_create_customer_reply(&mut d),
        Err(DecodeError::TypeMismatch { expected: WireKind::Text, found: WireKind::Flag })
    );
}

#[test]
fn text_where_flag_is_needed() {
    let bytes = join(vec![vec![0x82], item("id"), item("true")]);
    let mut d = Decoder::new(&bytes);
    assert_eq!(
        decode_create_customer_reply(&mut d),
        Err(DecodeError::TypeMismatch { expected: WireKind::Flag, found: WireKind::Text })
    );
}

#[test]
fn null_where_a_required_text_is_needed() {
    let bytes = join(vec![vec![0xa1], item("id"), vec![0xf6]]);
    let mut d = Decoder::new(&bytes);
    assert_eq!(
        decode_service(&mut d),
        Err(DecodeError::TypeMismatch { expected: WireKind::Text, found: WireKind::Null })
    );
}

#[test]
fn number_where_text_is_needed() {
    let bytes = vec![0x81, 0x05];
    let mut d = Decoder::new(&bytes);
    assert_eq!(
        decode_service(&mut d),
        Err(DecodeError::TypeMismatch { expected: WireKind::Text, found: WireKind::Other })
    );
}

#[test]
fn key_that_is_no_text() {
    let bytes = vec![0xa1, 0x01, 0x61, b'a'];
    let mut d = Decoder::new(&bytes);
    assert_eq!(
        decode_service(&mut d),
        Err(DecodeError::TypeMismatch { expected: WireKind::Text, found: WireKind::Other })
    );
}

#[test]
fn members_that_are_no_list() {
    let bytes = join(vec![vec![0x82], item("C1"), item("G")]);
    let mut d = Decoder::new(&bytes);
    assert_eq!(
        decode_customer_group(&mut d),
        Err(DecodeError::TypeMismatch { expected: WireKind::Array, found: WireKind::Text })
    );
    let bytes = join(vec![vec![0x82, 0x81, 0xf5], item("G")]);
    let mut d = Decoder::new(&bytes);
    assert_eq!(
        decode_customer_group(&mut d),
        Err(DecodeError::TypeMismatch { expected: WireKind::Text, found: WireKind::Flag })
    );
}

#[test]
fn what_is_no_struct() {
    for (bytes, found) in vec![
        (item("Customer"), WireKind::Text),
        (vec![0xf5], WireKind::Flag),
        (vec![0xf6], WireKind::Null),
        (vec![0x07], WireKind::Other),
        (vec![0x9f, 0xff], WireKind::Other),
        (vec![0xbf, 0xff], WireKind::Other),
    ] {
        let mut d = Decoder::new(&bytes);
        assert_eq!(
            decode_customer(&mut d),
            Err(DecodeError::NotAStruct { struct_name: "Customer", found })
        );
        let mut d = Decoder::new(&bytes);
        assert_eq!(
            decode_service_order(&mut d),
            Err(DecodeError::NotAStruct { struct_name: "ServiceOrder", found })
        );
    }
}

#[test]
fn input_that_ends_too_early() {
    for bytes in vec![
        vec![],
        vec![0x98],
        vec![0xb9, 0x00],
        vec![0x81],
        vec![0x81, 0x63, b'a', b'b'],
        vec![0x81, 0x78],
        vec![0xa1, 0x62, b'i'],
        vec![0xa1, 0x62, b'i', b'd'],
        vec![0x82, 0x61, b'a'],
        vec![0xa2, 0x62, b'i', b'd', 0x61, b'a', 0x61, b'z'],
        vec![0x38],
    ] {
        let mut d = Decoder::new(&bytes);
        assert_eq!(decode_service(&mut d), Err(DecodeError::Malformed));
    }
}

#[test]
fn text_that_is_no_utf8() {
    let bytes = vec![0x81, 0x62, 0xc3, 0x28];
    let mut d = Decoder::new(&bytes);
    assert_eq!(decode_service(&mut d), Err(DecodeError::Malformed));
}

#[test]
fn text_of_indefinite_length_is_no_text() {
    let bytes = vec![0x81, 0x7f, 0x61, b'a', 0xff];
    let mut d = Decoder::new(&bytes);
    assert_eq!(
        decode_service(&mut d),
        Err(DecodeError::TypeMismatch { expected: WireKind::Text, found: WireKind::Other })
    );
}

#[test]
fn heads_in_longer_forms_are_read() {
    // Counts and lengths in one, two, four and eight bytes.
    for bytes in vec![
        vec![0x98, 0x01, 0x78, 0x01, b'a'],
        vec![0x99, 0x00, 0x01, 0x79, 0x00, 0x01, b'a'],
        vec![0x9a, 0, 0, 0, 1, 0x7a, 0, 0, 0, 1, b'a'],
        vec![0x9b, 0, 0, 0, 0, 0, 0, 0, 1, 0x7b, 0, 0, 0, 0, 0, 0, 0, 1, b'a'],
        vec![0xb8, 0x01, 0x62, b'i', b'd', 0x61, b'a'],
    ] {
        let mut d = Decoder::new(&bytes);
        assert_eq!(decode_service(&mut d), Ok(Service { id: owned("a") }));
        assert!(d.at_end());
    }
}

#[test]
fn failure_of_a_nested_struct_names_the_field() {
    let customer = join(vec![vec![0xa1], item("firstName"), item("Ann")]);
    let bytes = join(vec![vec![0xa1], item("customer"), customer.clone()]);
    let mut d = Decoder::new(&bytes);
    assert_eq!(
        decode_find_customer_reply(&mut d),
        Err(DecodeError::InField {
            struct_name: "FindCustomerReply",
            field_name: "customer",
            source: Box::new(DecodeError::MissingField {
                struct_name: "Customer",
                field_name: "email",
                field_index: 2,
            }),
        })
    );
    let bytes = join(vec![vec![0x81], customer]);
    let mut d = Decoder::new(&bytes);
    assert_eq!(
        decode_find_customer_reply(&mut d),
        Err(DecodeError::InField {
            struct_name: "FindCustomerReply",
            field_name: "customer",
            source: Box::new(DecodeError::MissingField {
                struct_name: "Customer",
                field_name: "email",
                field_index: 2,
            }),
        })
    );
}

#[test]
fn nested_struct_that_is_no_struct() {
    let bytes = join(vec![vec![0x82], item("5"), item("service")]);
    let mut d = Decoder::new(&bytes);
    assert_eq!(
        decode_service_order(&mut d),
        Err(DecodeError::InField {
            struct_name: "ServiceOrder",
            field_name: "service",
            source: Box::new(DecodeError::NotAStruct { struct_name: "Service", found: WireKind::Text }),
        })
    );
    // A required struct cannot be null.
    let bytes = join(vec![vec![0x82], item("5"), vec![0xf6]]);
    let mut d = Decoder::new(&bytes);
    assert_eq!(
        decode_service_order(&mut d),
        Err(DecodeError::InField {
            struct_name: "ServiceOrder",
            field_name: "service",
            source: Box::new(DecodeError::NotAStruct { struct_name: "Service", found: WireKind::Null }),
        })
    );
}

#[test]
fn nested_structs_may_use_the_other_layout() {
    let bytes = join(vec![
        vec![0xa2],
        item("service"),
        vec![0x81],
        item("s"),
        item("amount"),
        item("5"),
    ]);
    let mut d = Decoder::new(&bytes);
    assert_eq!(
        decode_service_order(&mut d),
        Ok(shared_bucket::ServiceOrder { amount: owned("5"), service: Service { id: owned("s") } })
    );
}

#[test]
fn list_of_customers_stops_at_the_first_failure() {
    let good = join(vec![vec![0xa2], item("email"), item("e"), item("firstName"), item("f")]);
    let bad = join(vec![vec![0xa1], item("email"), item("e")]);
    let bytes = join(vec![vec![0x82], good.clone(), bad]);
    let mut d = Decoder::new(&bytes);
    assert_eq!(
        decode_customer_list(&mut d),
        Err(DecodeError::MissingField {
            struct_name: "Customer",
            field_name: "first_name",
            field_index: 3,
        })
    );
    let bytes = join(vec![vec![0x82], good]);
    let mut d = Decoder::new(&bytes);
    assert_eq!(decode_customer_list(&mut d), Err(DecodeError::Malformed));
    let bytes = item("no list");
    let mut d = Decoder::new(&bytes);
    assert_eq!(
        decode_customer_list(&mut d),
        Err(DecodeError::TypeMismatch { expected: WireKind::Array, found: WireKind::Text })
    );
}

#[test]
fn decoder_reads_single_items() {
    let bytes = join(vec![vec![0xf5, 0xf4], item("t"), vec![0x82, 0xf6, 0xf6, 0xf6]]);
    let mut d = Decoder::new(&bytes);
    assert_eq!(d.kind(), Ok(WireKind::Flag));
    assert_eq!(d.flag(), Ok(true));
    assert_eq!(d.flag(), Ok(false));
    assert_eq!(d.flag(), Err(DecodeError::TypeMismatch { expected: WireKind::Flag, found: WireKind::Text }));
    assert_eq!(d.kind(), Ok(WireKind::Text));
    assert_eq!(d.text(), Ok(owned("t")));
    assert_eq!(d.kind(), Ok(WireKind::Array));
    assert_eq!(d.skip(), Ok(()));
    assert_eq!(d.kind(), Ok(WireKind::Null));
    assert!(d.absent(true));
    assert!(d.at_end());
    assert!(!d.absent(true));
    assert_eq!(d.kind(), Err(DecodeError::Malformed));
    assert_eq!(d.skip(), Err(DecodeError::Malformed));
    assert_eq!(d.text(), Err(DecodeError::Malformed));
    assert_eq!(d.array(), Err(DecodeError::Malformed));
}

#[test]
fn decoder_leaves_a_null_where_the_field_is_required() {
    let bytes = vec![0xf6];
    let mut d = Decoder::new(&bytes);
    assert!(!d.absent(false));
    assert!(!d.at_end());
    assert_eq!(d.text_field(false), Err(DecodeError::TypeMismatch { expected: WireKind::Text, found: WireKind::Null }));
    assert_eq!(d.text_field(true), Ok(None));
    assert!(d.at_end());
}

#[test]
fn decoder_reads_lists_of_texts() {
    let bytes = join(vec![vec![0x83], item("a"), item(""), item("c"), vec![0xf6]]);
    let mut d = Decoder::new(&bytes);
    assert_eq!(d.text_list(), Ok(vec![owned("a"), owned(""), owned("c")]));
    assert_eq!(d.text_list_field(true), Ok(None));
    let group = join(vec![vec![0x82, 0xf6], item("G")]);
    let mut d = Decoder::new(&group);
    assert_eq!(decode_customer_group(&mut d), Ok(CustomerGroup { members: None, name: owned("G") }));
}

#[test]
fn trailing_integer_is_skipped_in_both_layouts() {
    let bytes = join(vec![vec![0x83], item("abc"), vec![0xf5, 0x18, 0x2a]]);
    let mut d = Decoder::new(&bytes);
    assert_eq!(
        decode_create_customer_reply(&mut d),
        Ok(CreateCustomerReply { id: owned("abc"), success: true })
    );
    assert!(d.at_end());
    let bytes = join(vec![
        vec![0xa3],
        item("id"),
        item("abc"),
        item("version"),
        vec![0x18, 0x2a],
        item("success"),
        vec![0xf5],
    ]);
    let mut d = Decoder::new(&bytes);
    assert_eq!(
        decode_create_customer_reply(&mut d),
        Ok(CreateCustomerReply { id: owned("abc"), success: true })
    );
    assert!(d.at_end());
}

#[test]
fn item_left_open_at_the_end_is_malformed() {
    // An array of two: an empty text, then a byte string that never closes.
    for open in vec![
        vec![0x5f],
        vec![0x7f],
        vec![0x5f, 0x41, 0x00],
        vec![0x7f, 0x61, b'a'],
        vec![0x9f],
        vec![0x9f, 0x01],
        vec![0xbf, 0x61, b'k'],
    ] {
        let bytes = join(vec![vec![0x82, 0x60], open.clone()]);
        let mut d = Decoder::new(&bytes);
        assert_eq!(decode_service(&mut d), Err(DecodeError::Malformed));
        let bytes = join(vec![vec![0xa2], item("id"), item("a"), item("later"), open]);
        let mut d = Decoder::new(&bytes);
        assert_eq!(decode_service(&mut d), Err(DecodeError::Malformed));
    }
}

#[test]
fn items_of_indefinite_length_are_skipped() {
    for extra in vec![
        vec![0x9f, 0x01, 0x61, b'z', 0xff],
        vec![0xbf, 0x61, b'k', 0xf5, 0xff],
        vec![0x5f, 0x41, 0x00, 0xff],
        vec![0x7f, 0x61, b'a', 0xff],
        vec![0x81, 0x9f, 0xff],
        vec![0xc1, 0x9f, 0xff],
        vec![0x9f, 0xff],
    ] {
        let bytes = join(vec![vec![0x83], item("abc"), vec![0xf5], extra.clone()]);
        let mut d = Decoder::new(&bytes);
        assert_eq!(
            decode_create_customer_reply(&mut d),
            Ok(CreateCustomerReply { id: owned("abc"), success: true })
        );
        assert!(d.at_end());
        let bytes = join(vec![
            vec![0xa3],
            item("later"),
            extra,
            item("success"),
            vec![0xf4],
            item("id"),
            item("abc"),
        ]);
        let mut d = Decoder::new(&bytes);
        assert_eq!(
            decode_create_customer_reply(&mut d),
            Ok(CreateCustomerReply { id: owned("abc"), success: false })
        );
        assert!(d.at_end());
    }
}

#[test]
fn customer_with_a_trailing_empty_array_of_indefinite_length() {
    let mut e = Encoder::new();
    assert_eq!(encode_customer_as(&mut e, &carol(), Layout::Array), Ok(()));
    let mut bytes = e.into_inner();
    bytes[0] = 0x88;
    bytes.extend_from_slice(&[0x9f, 0xff]);
    let mut d = Decoder::new(&bytes);
    assert_eq!(decode_customer(&mut d), Ok(carol()));
    assert!(d.at_end());
}

#[test]
fn items_that_are_not_well_formed_are_not_skipped() {
    for extra in vec![
        vec![0xff],
        vec![0x82, 0x01, 0xff],
        vec![0x81, 0xff],
        vec![0xa1, 0x01, 0xff],
        vec![0xc1, 0xff],
        vec![0x9f, 0xc1, 0xff],
        vec![0x5f, 0x01, 0xff],
        vec![0x5f, 0x61, b'a', 0xff],
        vec![0x7f, 0x41, 0x00, 0xff],
        vec![0x5f, 0x5f, 0xff, 0xff],
        vec![0x7f, 0x7f, 0xff, 0xff],
        vec![0x5f, 0x9f, 0xff, 0xff],
        vec![0x1f],
        vec![0x3f],
        vec![0xdf],
        vec![0x9f, 0x1f, 0xff],
    ] {
        let bytes = join(vec![vec![0x83], item("abc"), vec![0xf5], extra, vec![0xff, 0xff, 0xff]]);
        let mut d = Decoder::new(&bytes);
        assert_eq!(decode_create_customer_reply(&mut d), Err(DecodeError::Malformed));
    }
}

#[test]
fn items_that_do_not_lie_within_the_input_are_not_skipped() {
    for extra in vec![
        vec![0x18],
        vec![0x19, 0x01],
        vec![0x43, 1, 2],
        vec![0x62, b'a'],
        vec![0x82, 0x01],
        vec![0xa1, 0x01],
        vec![0xc1],
        vec![0xfb, 0, 0, 0],
        vec![0x1c],
        vec![0x3d],
        vec![0x5e, 0x00],
        vec![0xdc, 0x00],
        vec![0xfc],
        vec![0x9b, 0xff, 0xff, 0xff, 0xff, 0xff, 0xff, 0xff, 0xff, 0x00],
        vec![0xbb, 0x80, 0, 0, 0, 0, 0, 0, 0, 0x00, 0x00],
    ] {
        let bytes = join(vec![vec![0x83], item("abc"), vec![0xf5], extra]);
        let mut d = Decoder::new(&bytes);
        assert_eq!(decode_create_customer_reply(&mut d), Err(DecodeError::Malformed));
    }
}

#[test]
fn heads_give_their_arguments() {
    assert_eq!(head_arg(&[0x17], 0), Some((23, 1)));
    assert_eq!(head_arg(&[0x00, 0x98, 0x2a], 1), Some((42, 3)));
    assert_eq!(head_arg(&[0x79, 0x01, 0x02], 0), Some((0x0102, 3)));
    assert_eq!(head_arg(&[0xba, 0x01, 0x02, 0x03, 0x04], 0), Some((0x0102_0304, 5)));
    assert_eq!(
        head_arg(&[0x1b, 0x01, 0x02, 0x03, 0x04, 0x05, 0x06, 0x07, 0x08], 0),
        Some((0x0102_0304_0506_0708, 9))
    );
    assert_eq!(
        head_arg(&[0x3b, 0xff, 0xff, 0xff, 0xff, 0xff, 0xff, 0xff, 0xff], 0),
        Some((u64::MAX, 9))
    );
    assert_eq!(head_arg(&[0xf6], 0), Some((22, 1)));
    assert_eq!(head_arg(&[0x18], 0), None);
    assert_eq!(head_arg(&[0x1a, 0, 0, 0], 0), None);
    assert_eq!(head_arg(&[0x1c], 0), None);
    assert_eq!(head_arg(&[0x1f], 0), None);
    assert_eq!(head_arg(&[], 0), None);
    assert_eq!(head_arg(&[0x00], 1), None);
    assert_eq!(head_arg(&[0x00], 7), None);
}

#[test]
fn ends_of_items() {
    assert_eq!(find_end(&[0xf5, 0xf4], 0), Some(1));
    assert_eq!(find_end(&[0xf5, 0xf4], 1), Some(2));
    assert_eq!(find_end(&[0xf5, 0xf4], 2), None);
    assert_eq!(find_end(&[0xf5, 0xf4], 9), None);
    assert_eq!(find_end(&[0x63, b'a', b'b', b'c', 0x00], 0), Some(4));
    assert_eq!(find_end(&[0x63, b'a', b'b'], 0), None);
    assert_eq!(find_end(&[0x82, 0x01, 0x81, 0x02, 0x03], 0), Some(4));
    assert_eq!(find_end(&[0xa1, 0x61, b'k', 0x82, 0xf6, 0x40], 0), Some(6));
    assert_eq!(find_end(&[0xa1, 0x61, b'k'], 0), None);
    assert_eq!(find_end(&[0xc1, 0xc2, 0x05], 0), Some(3));
    assert_eq!(find_end(&[0xc1], 0), None);
    assert_eq!(find_end(&[0x9f, 0xff], 0), Some(2));
    assert_eq!(find_end(&[0x9f, 0xff, 0xff], 0), Some(2));
    assert_eq!(find_end(&[0x81, 0x9f, 0xff], 0), Some(3));
    assert_eq!(find_end(&[0x9f, 0x01, 0x9f, 0x02, 0xff, 0xff, 0x03], 0), Some(6));
    assert_eq!(find_end(&[0x5f, 0x42, 0x01, 0x02, 0x40, 0xff, 0x00], 0), Some(6));
    assert_eq!(find_end(&[0x7f, 0x61, b'a', 0xff], 0), Some(4));
    assert_eq!(find_end(&[0x7f, 0x61, b'a'], 0), None);
    assert_eq!(find_end(&[0x7f, 0x62, b'a', 0xff], 0), None);
    assert_eq!(find_end(&[0x9f], 0), None);
    assert_eq!(find_end(&[0xff], 0), None);
    assert_eq!(find_end(&[], 0), None);
}
