use device_faker::companion::CompanionRequest;
use device_faker::strmap::{AssocVec, PropertyMap};
use device_faker::wire::{WireRequest, decode_request, encode_request, wire_request_of};

fn props(pairs: &[(&str, &str)]) -> PropertyMap {
    let mut m: PropertyMap = AssocVec::new();
    for (k, v) in pairs {
        m.set(k, (*v).to_string());
    }
    m
}

#[test]
fn restore_request_roundtrips() {
    let req = wire_request_of(&CompanionRequest::RestoreIfNeeded("com.example.app@0".to_string()));
    let buf = encode_request(&req).unwrap();
    match decode_request(&buf) {
        Some(WireRequest::Restore(id)) => {
            assert_eq!(id.as_slice(), "com.example.app@0".as_bytes());
        },
        other => panic!("decoded to the wrong request: {:?}", other.is_some()),
    }
}

#[test]
fn spoof_request_roundtrips_in_map_order() {
    let map = props(&[("ro.serialno", "FAKE123"), ("ro.product.model", "Pixel 9")]);
    let req = wire_request_of(&CompanionRequest::SpoofProps("com.example.app@0".to_string(), map));
    let buf = encode_request(&req).unwrap();
    match decode_request(&buf) {
        Some(WireRequest::Spoof(id, pairs)) => {
            assert_eq!(id.as_slice(), "com.example.app@0".as_bytes());
            assert_eq!(pairs.len(), 2);
            assert_eq!(pairs[0].0.as_slice(), "ro.serialno".as_bytes());
            assert_eq!(pairs[0].1.as_slice(), "FAKE123".as_bytes());
            assert_eq!(pairs[1].0.as_slice(), "ro.product.model".as_bytes());
            assert_eq!(pairs[1].1.as_slice(), "Pixel 9".as_bytes());
        },
        other => panic!("decoded to the wrong request: {:?}", other.is_some()),
    }
}

#[test]
fn malformed_frames_are_refused() {
    // empty buffer
    assert!(decode_request(&Vec::new()).is_none());
    // unknown tag
    assert!(decode_request(&vec![9u8, 0, 0, 0, 0]).is_none());
    // truncated length field
    assert!(decode_request(&vec![1u8, 5, 0]).is_none());
    // length field larger than the body
    assert!(decode_request(&vec![1u8, 5, 0, 0, 0, b'a']).is_none());
    // trailing bytes after a complete frame
    let req = wire_request_of(&CompanionRequest::RestoreIfNeeded("a".to_string()));
    let mut buf = encode_request(&req).unwrap();
    buf.push(0);
    assert!(decode_request(&buf).is_none());
}

#[test]
fn identity_crosses_as_utf8() {
    let req = wire_request_of(&CompanionRequest::RestoreIfNeeded("appé@0".to_string()));
    match &req {
        WireRequest::Restore(id) => assert_eq!(id.as_slice(), "appé@0".as_bytes()),
        _ => panic!("wrong request kind"),
    }
    let buf = encode_request(&req).unwrap();
    assert!(matches!(decode_request(&buf), Some(WireRequest::Restore(_))));
}
