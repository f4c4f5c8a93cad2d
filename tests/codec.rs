use tryteex::fastcgi::{
    BeginRequest, ContentData, FastCGI, Header, HeaderType, ReadStatus, Record, Role,
};

fn header(t: HeaderType, rid: u16, len: u16) -> Header {
    Header { version: 1, header_type: t, request_id: rid, content_length: len, padding_length: 0, reserved: 0 }
}

fn pair(k: &str, v: &str) -> (Vec<u8>, Vec<u8>) {
    (k.as_bytes().to_vec(), v.as_bytes().to_vec())
}

#[test]
fn header_is_read_big_endian() {
    let h = FastCGI::read_header(&[1, 4, 0x01, 0x02, 0x00, 0x10, 3, 0]).unwrap();
    assert_eq!(h.header_type, HeaderType::Params);
    assert_eq!(h.request_id, 258);
    assert_eq!(h.content_length, 16);
    assert_eq!(h.padding_length, 3);
}

#[test]
fn header_with_wrong_version_is_refused() {
    assert!(FastCGI::read_header(&[2, 1, 0, 1, 0, 8, 0, 0]).is_none());
    let (st, seek) = FastCGI::read(&[2, 1, 0, 1, 0, 8, 0, 0], 0, 8, 4);
    assert!(matches!(st, ReadStatus::ErrorStream));
    assert_eq!(seek, 0);
}

#[test]
fn header_type_bytes() {
    assert_eq!(FastCGI::set_header_type(FastCGI::get_header_type(11)), 11);
    assert_eq!(FastCGI::get_header_type(42), HeaderType::Error(42));
    assert_eq!(FastCGI::set_header_type(HeaderType::Error(42)), 0);
    assert_eq!(FastCGI::get_role(1), Role::Responder);
    assert_eq!(FastCGI::get_role(9), Role::Error);
}

#[test]
fn params_are_decoded_in_order() {
    let mut body = vec![3u8, 2];
    body.extend_from_slice(b"abcxy");
    body.extend_from_slice(&[0x80, 0, 0, 1, 0]);
    body.push(b'k');
    let ps = FastCGI::read_param(&body).unwrap();
    assert_eq!(ps, vec![pair("abc", "xy"), pair("k", "")]);
}

#[test]
fn malformed_params_are_refused() {
    assert!(FastCGI::read_param(&[]).is_none());
    assert!(FastCGI::read_param(&[5, 1, b'a']).is_none());
    assert!(FastCGI::read_param(&[0, 1, b'a']).is_none());
    assert!(FastCGI::read_param(&[1]).is_none());
}

#[test]
fn params_record_round_trip() {
    let ps = vec![pair("REQUEST_METHOD", "GET"), pair("K", &"v".repeat(200))];
    let mut payload = Vec::new();
    FastCGI::write_param(&mut payload, &ps);
    let rec = Record { header: header(HeaderType::Params, 1, payload.len() as u16), data: ContentData::Param(ps.clone()) };
    let bytes = FastCGI::record_array(&rec);
    let (st, seek) = FastCGI::read(&bytes, 0, bytes.len(), 4);
    assert_eq!(seek, bytes.len());
    match st {
        ReadStatus::Result(r) => {
            assert_eq!(r.header, rec.header);
            match r.data {
                ContentData::Param(got) => assert_eq!(got, ps),
                other => panic!("{:?}", other),
            }
        },
        other => panic!("{:?}", other),
    }
}

#[test]
fn begin_record_round_trip() {
    let rec = Record {
        header: header(HeaderType::BeginRequest, 1, 8),
        data: ContentData::BeginRequest(BeginRequest { role: Role::Responder, flags: 1, reserved: [0; 5] }),
    };
    let bytes = FastCGI::record_array(&rec);
    assert_eq!(bytes, vec![1, 1, 0, 1, 0, 8, 0, 0, 0, 1, 1, 0, 0, 0, 0, 0]);
    match FastCGI::read(&bytes, 0, bytes.len(), 4).0 {
        ReadStatus::Result(r) => match r.data {
            ContentData::BeginRequest(b) => {
                assert_eq!(b.role, Role::Responder);
                assert_eq!(b.flags, 1);
            },
            other => panic!("{:?}", other),
        },
        other => panic!("{:?}", other),
    }
}

#[test]
fn stdin_record_with_padding_round_trip() {
    let mut h = header(HeaderType::Stdin, 7, 3);
    h.padding_length = 5;
    let rec = Record { header: h, data: ContentData::Stream(b"abc".to_vec()) };
    let bytes = FastCGI::record_array(&rec);
    assert_eq!(bytes.len(), 16);
    let (st, seek) = FastCGI::read(&bytes, 0, bytes.len(), 4);
    assert_eq!(seek, 16);
    match st {
        ReadStatus::Result(r) => match r.data {
            ContentData::Stream(v) => assert_eq!(v, b"abc".to_vec()),
            other => panic!("{:?}", other),
        },
        other => panic!("{:?}", other),
    }
}

#[test]
fn partial_record_waits_for_more() {
    let bytes = [1u8, 5, 0, 1, 0, 4, 0, 0, b'a', b'b'];
    let (st, seek) = FastCGI::read(&bytes, 0, bytes.len(), 4);
    assert!(matches!(st, ReadStatus::Continue));
    assert_eq!(seek, 0);
    let (st, _) = FastCGI::read(&bytes, 0, 5, 4);
    assert!(matches!(st, ReadStatus::Continue));
}

#[test]
fn request_record_with_id_zero_is_skipped() {
    let bytes = [1u8, 5, 0, 0, 0, 1, 0, 0, b'a'];
    let (st, seek) = FastCGI::read(&bytes, 0, bytes.len(), 4);
    assert!(matches!(st, ReadStatus::Break));
    assert_eq!(seek, 9);
}

#[test]
fn malformed_params_record_closes() {
    let bytes = [1u8, 4, 0, 1, 0, 2, 0, 0, 9, 9];
    assert!(matches!(FastCGI::read(&bytes, 0, bytes.len(), 4).0, ReadStatus::ErrorStream));
}

#[test]
fn get_values_is_answered_with_worker_count() {
    let bytes = [1u8, 9, 0, 0, 0, 0, 0, 0];
    match FastCGI::read(&bytes, 0, 8, 3).0 {
        ReadStatus::Reply(out) => {
            assert_eq!(out[1], 10);
            let len = (out[4] as usize) * 256 + out[5] as usize;
            assert_eq!(out.len(), 8 + len);
            let ps = FastCGI::read_param(&out[8..]).unwrap();
            assert_eq!(ps, vec![pair("FCGI_MAX_CONNS", "3"), pair("FCGI_MAX_REQS", "3"), pair("FCGI_MPXS_CONNS", "3")]);
        },
        other => panic!("{:?}", other),
    }
    let with_id = [1u8, 9, 0, 1, 0, 0, 0, 0];
    assert!(matches!(FastCGI::read(&with_id, 0, 8, 3).0, ReadStatus::Next));
}

#[test]
fn unknown_type_is_answered() {
    let bytes = [1u8, 42, 0, 3, 0, 0, 0, 0];
    match FastCGI::read(&bytes, 0, 8, 3).0 {
        ReadStatus::Reply(out) => assert_eq!(out, vec![1, 11, 0, 3, 0, 8, 0, 0, 42, 0, 0, 0, 0, 0, 0, 0]),
        other => panic!("{:?}", other),
    }
    assert_eq!(FastCGI::write_unknown(42, 3), vec![1, 11, 0, 3, 0, 8, 0, 0, 42, 0, 0, 0, 0, 0, 0, 0]);
}

#[test]
fn response_is_split_into_stdout_records() {
    let h = header(HeaderType::BeginRequest, 2, 8);
    let body = vec![7u8; 70000];
    let out = FastCGI::write_response(&h, &body);
    assert_eq!(&out[0..8], &[1, 6, 0, 2, 0xff, 0xff, 0, 0]);
    let second = 8 + 65535;
    assert_eq!(&out[second..second + 8], &[1, 6, 0, 2, 0x11, 0x71, 0, 0]);
    let empty = second + 8 + 4465;
    assert_eq!(&out[empty..empty + 8], &[1, 6, 0, 2, 0, 0, 0, 0]);
    assert_eq!(&out[empty + 8..], &[1, 3, 0, 2, 0, 8, 0, 0, 0, 0, 0, 0, 0, 0, 0, 0]);
}

#[test]
fn empty_response_has_terminators_only() {
    let h = header(HeaderType::BeginRequest, 1, 8);
    let out = FastCGI::write_response(&h, &Vec::new());
    assert_eq!(out, vec![1, 6, 0, 1, 0, 0, 0, 0, 1, 3, 0, 1, 0, 8, 0, 0, 0, 0, 0, 0, 0, 0, 0, 0]);
    assert_eq!(FastCGI::write_abort(&h), out[8..].to_vec());
}
