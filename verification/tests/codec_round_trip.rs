use shared_bucket::codec::add_customer_reply::encode_add_customer_reply_as;
use shared_bucket::codec::add_customer_request::encode_add_customer_request_as;
use shared_bucket::codec::create_customer_group_reply::encode_create_customer_group_reply_as;
use shared_bucket::codec::create_customer_reply::encode_create_customer_reply_as;
use shared_bucket::codec::customer::encode_customer_as;
use shared_bucket::codec::customer_group::encode_customer_group_as;
use shared_bucket::codec::customer_list::encode_customer_list_as;
use shared_bucket::codec::find_customer_reply::encode_find_customer_reply_as;
use shared_bucket::codec::service::encode_service_as;
use shared_bucket::codec::service_order::encode_service_order_as;
use shared_bucket::codec::service_usage::encode_service_usage_as;
use shared_bucket::{
    decode_add_customer_reply, decode_add_customer_request, decode_create_customer_group_reply,
    decode_create_customer_reply, decode_customer, decode_customer_group, decode_customer_list,
    decode_find_customer_reply, decode_service, decode_service_order, decode_service_usage,
    encode_create_customer_reply, encode_customer, encode_customer_group, encode_customer_list,
    encode_find_customer_reply, encode_service, encode_service_order, encode_service_usage,
    AddCustomerReply, AddCustomerRequest, CreateCustomerGroupReply, CreateCustomerReply, Customer,
    CustomerGroup, Decoder, Encoder, FindCustomerReply, Layout, Service, ServiceOrder,
    ServiceUsage,
};

fn text(s: &str) -> String {
    s.to_string()
}

fn ann() -> Customer {
    Customer {
        address: None,
        city: None,
        email: text("a@x.com"),
        first_name: text("Ann"),
        id: None,
        last_name: None,
        telephone: None,
    }
}

fn bob() -> Customer {
    Customer {
        address: Some(text("12 Rue de la Paix")),
        city: Some(text("Orl\u{e9}ans")),
        email: text("bob@example.org"),
        first_name: text("Bob"),
        id: Some(text("7f1c")),
        last_name: Some(text("M\u{fc}ller")),
        telephone: Some(text("+33 1 23 45 67 89")),
    }
}

fn layouts() -> Vec<Layout> {
    vec![Layout::Array, Layout::Mapping]
}

#[test]
fn create_customer_reply_bytes_by_name() {
    let val = CreateCustomerReply { id: text("abc"), success: true };
    let mut e = Encoder::new();
    assert_eq!(encode_create_customer_reply(&mut e, &val), Ok(()));
    let mut expected: Vec<u8> = vec![0xa2, 0x62];
    expected.extend_from_slice(b"id");
    expected.push(0x63);
    expected.extend_from_slice(b"abc");
    expected.push(0x67);
    expected.extend_from_slice(b"success");
    expected.push(0xf5);
    assert_eq!(e.into_inner(), expected);
}

#[test]
fn create_customer_reply_bytes_by_position() {
    let val = CreateCustomerReply { id: text("abc"), success: false };
    let mut e = Encoder::new();
    assert_eq!(encode_create_customer_reply_as(&mut e, &val, Layout::Array), Ok(()));
    assert_eq!(e.into_inner(), vec![0x82, 0x63, b'a', b'b', b'c', 0xf4]);
}

#[test]
fn customer_bytes_by_name_with_absent_fields() {
    let mut e = Encoder::new();
    assert_eq!(encode_customer(&mut e, &ann()), Ok(()));
    let mut expected: Vec<u8> = vec![0xa7];
    expected.push(0x67);
    expected.extend_from_slice(b"address");
    expected.push(0xf6);
    expected.push(0x64);
    expected.extend_from_slice(b"city");
    expected.push(0xf6);
    expected.push(0x65);
    expected.extend_from_slice(b"email");
    expected.push(0x67);
    expected.extend_from_slice(b"a@x.com");
    expected.push(0x69);
    expected.extend_from_slice(b"firstName");
    expected.push(0x63);
    expected.extend_from_slice(b"Ann");
    expected.push(0x62);
    expected.extend_from_slice(b"id");
    expected.push(0xf6);
    expected.push(0x68);
    expected.extend_from_slice(b"lastName");
    expected.push(0xf6);
    expected.push(0x69);
    expected.extend_from_slice(b"telephone");
    expected.push(0xf6);
    assert_eq!(e.into_inner(), expected);
}

#[test]
fn customer_bytes_by_position() {
    let mut e = Encoder::new();
    assert_eq!(encode_customer_as(&mut e, &ann(), Layout::Array), Ok(()));
    let mut expected: Vec<u8> = vec![0x87, 0xf6, 0xf6, 0x67];
    expected.extend_from_slice(b"a@x.com");
    expected.push(0x63);
    expected.extend_from_slice(b"Ann");
    expected.extend_from_slice(&[0xf6, 0xf6, 0xf6]);
    assert_eq!(e.into_inner(), expected);
}

#[test]
fn customer_round_trip_in_both_layouts() {
    for layout in layouts() {
        for val in vec![ann(), bob()] {
            let mut e = Encoder::new();
            assert_eq!(encode_customer_as(&mut e, &val, layout), Ok(()));
            let bytes = e.into_inner();
            let mut d = Decoder::new(&bytes);
            assert_eq!(decode_customer(&mut d), Ok(val));
            assert!(d.at_end());
        }
    }
}

#[test]
fn customer_text_is_written_as_utf8() {
    let mut e = Encoder::new();
    assert_eq!(e.text("M\u{fc}"), Ok(()));
    assert_eq!(e.into_inner(), vec![0x63, b'M', 0xc3, 0xbc]);
}

#[test]
fn create_customer_reply_round_trip_in_both_layouts() {
    for layout in layouts() {
        for val in vec![
            CreateCustomerReply { id: text(""), success: false },
            CreateCustomerReply { id: text("c0ffee"), success: true },
        ] {
            let mut e = Encoder::new();
            assert_eq!(encode_create_customer_reply_as(&mut e, &val, layout), Ok(()));
            let bytes = e.into_inner();
            let mut d = Decoder::new(&bytes);
            assert_eq!(decode_create_customer_reply(&mut d), Ok(val));
            assert!(d.at_end());
        }
    }
}

#[test]
fn find_customer_reply_round_trip_in_both_layouts() {
    for layout in layouts() {
        for val in vec![
            FindCustomerReply { customer: None },
            FindCustomerReply { customer: Some(ann()) },
            FindCustomerReply { customer: Some(bob()) },
        ] {
            let mut e = Encoder::new();
            assert_eq!(encode_find_customer_reply_as(&mut e, &val, layout), Ok(()));
            let bytes = e.into_inner();
            let mut d = Decoder::new(&bytes);
            assert_eq!(decode_find_customer_reply(&mut d), Ok(val));
            assert!(d.at_end());
        }
    }
}

#[test]
fn find_customer_reply_bytes_without_customer() {
    let mut e = Encoder::new();
    assert_eq!(encode_find_customer_reply(&mut e, &FindCustomerReply { customer: None }), Ok(()));
    let mut expected: Vec<u8> = vec![0xa1, 0x68];
    expected.extend_from_slice(b"customer");
    expected.push(0xf6);
    assert_eq!(e.into_inner(), expected);
}

#[test]
fn service_round_trip_in_both_layouts() {
    for layout in layouts() {
        let val = Service { id: text("storage") };
        let mut e = Encoder::new();
        assert_eq!(encode_service_as(&mut e, &val, layout), Ok(()));
        let bytes = e.into_inner();
        let mut d = Decoder::new(&bytes);
        assert_eq!(decode_service(&mut d), Ok(val));
        assert!(d.at_end());
    }
}

#[test]
fn service_bytes_by_name() {
    let mut e = Encoder::new();
    assert_eq!(encode_service(&mut e, &Service { id: text("s1") }), Ok(()));
    assert_eq!(e.into_inner(), vec![0xa1, 0x62, b'i', b'd', 0x62, b's', b'1']);
}

#[test]
fn service_order_round_trip_in_both_layouts() {
    for layout in layouts() {
        let val = ServiceOrder { amount: text("12.50"), service: Service { id: text("storage") } };
        let mut e = Encoder::new();
        assert_eq!(encode_service_order_as(&mut e, &val, layout), Ok(()));
        let bytes = e.into_inner();
        let mut d = Decoder::new(&bytes);
        assert_eq!(decode_service_order(&mut d), Ok(val));
        assert!(d.at_end());
    }
}

#[test]
fn service_order_bytes_by_name() {
    let val = ServiceOrder { amount: text("5"), service: Service { id: text("s") } };
    let mut e = Encoder::new();
    assert_eq!(encode_service_order(&mut e, &val), Ok(()));
    let mut expected: Vec<u8> = vec![0xa2, 0x66];
    expected.extend_from_slice(b"amount");
    expected.extend_from_slice(&[0x61, b'5', 0x67]);
    expected.extend_from_slice(b"service");
    expected.extend_from_slice(&[0xa1, 0x62, b'i', b'd', 0x61, b's']);
    assert_eq!(e.into_inner(), expected);
}

#[test]
fn service_usage_round_trip_in_both_layouts() {
    for layout in layouts() {
        let val = ServiceUsage { client: text("acme"), service: Service { id: text("mail") } };
        let mut e = Encoder::new();
        assert_eq!(encode_service_usage_as(&mut e, &val, layout), Ok(()));
        let bytes = e.into_inner();
        let mut d = Decoder::new(&bytes);
        assert_eq!(decode_service_usage(&mut d), Ok(val));
        assert!(d.at_end());
    }
}

#[test]
fn service_usage_bytes_by_name() {
    let val = ServiceUsage { client: text("c"), service: Service { id: text("s") } };
    let mut e = Encoder::new();
    assert_eq!(encode_service_usage(&mut e, &val), Ok(()));
    let mut expected: Vec<u8> = vec![0xa2, 0x66];
    expected.extend_from_slice(b"client");
    expected.extend_from_slice(&[0x61, b'c', 0x67]);
    expected.extend_from_slice(b"service");
    expected.extend_from_slice(&[0xa1, 0x62, b'i', b'd', 0x61, b's']);
    assert_eq!(e.into_inner(), expected);
}

#[test]
fn customer_group_round_trip_in_both_layouts() {
    for layout in layouts() {
        for val in vec![
            CustomerGroup { members: None, name: text("G") },
            CustomerGroup { members: Some(vec![]), name: text("G") },
            CustomerGroup { members: Some(vec![text("C1"), text("C2")]), name: text("gold") },
        ] {
            let mut e = Encoder::new();
            assert_eq!(encode_customer_group_as(&mut e, &val, layout), Ok(()));
            let bytes = e.into_inner();
            let mut d = Decoder::new(&bytes);
            assert_eq!(decode_customer_group(&mut d), Ok(val));
            assert!(d.at_end());
        }
    }
}

#[test]
fn customer_group_bytes_by_name() {
    let val = CustomerGroup { members: Some(vec![text("C1"), text("C2")]), name: text("G") };
    let mut e = Encoder::new();
    assert_eq!(encode_customer_group(&mut e, &val), Ok(()));
    let mut expected: Vec<u8> = vec![0xa2, 0x67];
    expected.extend_from_slice(b"members");
    expected.extend_from_slice(&[0x82, 0x62, b'C', b'1', 0x62, b'C', b'2', 0x64]);
    expected.extend_from_slice(b"name");
    expected.extend_from_slice(&[0x61, b'G']);
    assert_eq!(e.into_inner(), expected);
}

#[test]
fn add_customer_request_round_trip_in_both_layouts() {
    for layout in layouts() {
        let val = AddCustomerRequest { customer: text("C1"), group: text("G") };
        let mut e = Encoder::new();
        assert_eq!(encode_add_customer_request_as(&mut e, &val, layout), Ok(()));
        let bytes = e.into_inner();
        let mut d = Decoder::new(&bytes);
        assert_eq!(decode_add_customer_request(&mut d), Ok(val));
        assert!(d.at_end());
    }
}

#[test]
fn success_replies_round_trip_in_both_layouts() {
    for layout in layouts() {
        for success in vec![false, true] {
            let mut e = Encoder::new();
            assert_eq!(encode_add_customer_reply_as(&mut e, &AddCustomerReply { success }, layout), Ok(()));
            let bytes = e.into_inner();
            let mut d = Decoder::new(&bytes);
            assert_eq!(decode_add_customer_reply(&mut d), Ok(AddCustomerReply { success }));
            assert!(d.at_end());

            let mut e = Encoder::new();
            assert_eq!(
                encode_create_customer_group_reply_as(&mut e, &CreateCustomerGroupReply { success }, layout),
                Ok(())
            );
            let bytes = e.into_inner();
            let mut d = Decoder::new(&bytes);
            assert_eq!(decode_create_customer_group_reply(&mut d), Ok(CreateCustomerGroupReply { success }));
            assert!(d.at_end());
        }
    }
}

#[test]
fn customer_list_round_trip_in_both_layouts() {
    for layout in layouts() {
        for val in vec![vec![], vec![ann()], vec![ann(), bob(), ann()]] {
            let mut e = Encoder::new();
            assert_eq!(encode_customer_list_as(&mut e, &val, layout), Ok(()));
            let bytes = e.into_inner();
            let mut d = Decoder::new(&bytes);
            assert_eq!(decode_customer_list(&mut d), Ok(val));
            assert!(d.at_end());
        }
    }
}

#[test]
fn customer_list_bytes_of_an_empty_list() {
    let mut e = Encoder::new();
    assert_eq!(encode_customer_list(&mut e, &vec![]), Ok(()));
    assert_eq!(e.into_inner(), vec![0x80]);
}

#[test]
fn text_heads_grow_with_the_length() {
    for (len, head) in vec![
        (0usize, vec![0x60u8]),
        (23, vec![0x77]),
        (24, vec![0x78, 24]),
        (255, vec![0x78, 255]),
        (256, vec![0x79, 1, 0]),
        (65535, vec![0x79, 255, 255]),
        (65536, vec![0x7a, 0, 1, 0, 0]),
    ] {
        let s = "x".repeat(len);
        let mut e = Encoder::new();
        assert_eq!(e.text(&s), Ok(()));
        let bytes = e.into_inner();
        assert_eq!(bytes.len(), head.len() + len);
        assert_eq!(&bytes[..head.len()], &head[..]);
        let mut d = Decoder::new(&bytes);
        assert_eq!(d.text(), Ok(s));
        assert!(d.at_end());
    }
}

#[test]
fn long_lists_round_trip() {
    let members: Vec<String> = (0..300).map(|i| format!("C{}", i)).collect();
    let val = CustomerGroup { members: Some(members), name: text("many") };
    for layout in layouts() {
        let mut e = Encoder::new();
        assert_eq!(encode_customer_group_as(&mut e, &val, layout), Ok(()));
        let bytes = e.into_inner();
        let mut d = Decoder::new(&bytes);
        assert_eq!(decode_customer_group(&mut d), Ok(CustomerGroup {
            members: Some((0..300).map(|i| format!("C{}", i)).collect()),
            name: text("many"),
        }));
    }
}

#[test]
fn structs_are_read_one_behind_the_other() {
    let mut e = Encoder::new();
    assert_eq!(encode_service(&mut e, &Service { id: text("a") }), Ok(()));
    assert_eq!(encode_service_as(&mut e, &Service { id: text("b") }, Layout::Array), Ok(()));
    let bytes = e.into_inner();
    let mut d = Decoder::new(&bytes);
    assert_eq!(decode_service(&mut d), Ok(Service { id: text("a") }));
    assert!(!d.at_end());
    assert_eq!(decode_service(&mut d), Ok(Service { id: text("b") }));
    assert!(d.at_end());
}
