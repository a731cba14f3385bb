use bytes::BytesMut;
use olympus::models::{Action, File};
use olympus::wire::{
    deserialize_byte_array, deserialize_tag, deserialize_text, serialize_byte_array,
    serialize_tag, serialize_text, WireError,
};

fn buffer(bytes: &[u8]) -> BytesMut {
    BytesMut::from(bytes)
}

#[test]
fn action_serialize_writes_the_declared_value_as_two_bytes() {
    assert_eq!(&Action::Delete.serialize()[..], &[0u8, 1][..]);
    assert_eq!(&Action::SecureDelete.serialize()[..], &[0u8, 2][..]);
    assert_eq!(&Action::Encrypt.serialize()[..], &[0u8, 3][..]);
}

#[test]
fn action_deserialize_maps_each_declared_value() {
    assert_eq!(Action::deserialize(&mut buffer(&[0, 1])), Ok(Action::Delete));
    assert_eq!(Action::deserialize(&mut buffer(&[0, 2])), Ok(Action::SecureDelete));
    assert_eq!(Action::deserialize(&mut buffer(&[0, 3])), Ok(Action::Encrypt));
}

#[test]
fn action_deserialize_rejects_tag_four_with_an_invalid_tag_error() {
    let error = Action::deserialize(&mut buffer(&[0, 4])).unwrap_err();
    assert_eq!(error, WireError::InvalidTag(4));
    assert_eq!(error.message(), "invalid tag: 4");
}

#[test]
fn action_deserialize_rejects_an_unused_tag_without_panicking() {
    assert_eq!(Action::deserialize(&mut buffer(&[0, 9])), Err(WireError::InvalidTag(9)));
    assert_eq!(Action::deserialize(&mut buffer(&[0, 0])), Err(WireError::InvalidTag(0)));
    assert_eq!(Action::deserialize(&mut buffer(&[1, 0])), Err(WireError::InvalidTag(256)));
    assert_eq!(Action::deserialize(&mut buffer(&[255, 255])), Err(WireError::InvalidTag(65535)));
}

#[test]
fn action_deserialize_rejects_short_input_and_consumes_nothing() {
    let mut empty = buffer(&[]);
    assert_eq!(Action::deserialize(&mut empty), Err(WireError::Truncated));
    let mut one = buffer(&[0]);
    assert_eq!(Action::deserialize(&mut one), Err(WireError::Truncated));
    assert_eq!(&one[..], &[0u8][..]);
}

#[test]
fn action_deserialize_consumes_exactly_two_bytes() {
    let mut input = buffer(&[0, 2, 0, 3, 9]);
    assert_eq!(Action::deserialize(&mut input), Ok(Action::SecureDelete));
    assert_eq!(&input[..], &[0u8, 3, 9][..]);
    assert_eq!(Action::deserialize(&mut input), Ok(Action::Encrypt));
    assert_eq!(&input[..], &[9u8][..]);
}

#[test]
fn action_round_trips() {
    for action in [Action::Delete, Action::SecureDelete, Action::Encrypt] {
        let mut encoded = action.serialize();
        let bytes = encoded.to_vec();
        let decoded = Action::deserialize(&mut encoded).unwrap();
        assert_eq!(decoded, action);
        assert!(encoded.is_empty());
        assert_eq!(decoded.serialize().to_vec(), bytes);
    }
}

#[test]
fn wire_error_messages() {
    assert_eq!(WireError::InvalidTag(65535).message(), "invalid tag: 65535");
    assert_eq!(WireError::InvalidTag(0).message(), "invalid tag: 0");
    assert_eq!(WireError::Truncated.message(), "truncated input");
    assert_eq!(WireError::Malformed.message(), "malformed input");
}

#[test]
fn tag_is_big_endian() {
    assert_eq!(&serialize_tag(0x0809)[..], &[8u8, 9][..]);
    assert_eq!(&serialize_tag(0)[..], &[0u8, 0][..]);
    assert_eq!(&serialize_tag(65535)[..], &[255u8, 255][..]);
    assert_eq!(deserialize_tag(&mut buffer(&[8, 9])), Ok(0x0809));
    assert_eq!(deserialize_tag(&mut buffer(&[1])), Err(WireError::Truncated));
}

#[test]
fn text_is_its_length_and_its_utf8_bytes() {
    let out = serialize_text(&"a.txt".to_string());
    assert_eq!(&out[..], &[0u8, 0, 0, 0, 0, 0, 0, 5, b'a', b'.', b't', b'x', b't'][..]);
    let empty = serialize_text(&String::new());
    assert_eq!(&empty[..], &[0u8; 8][..]);
    let accented = serialize_text(&"é€".to_string());
    assert_eq!(&accented[..], &[0u8, 0, 0, 0, 0, 0, 0, 5, 0xC3, 0xA9, 0xE2, 0x82, 0xAC][..]);
}

#[test]
fn text_decode_consumes_exactly_the_bytes_of_its_own_encoding() {
    let mut input = serialize_text(&"a.txt".to_string());
    input.extend_from_slice(&[7, 7]);
    assert_eq!(deserialize_text(&mut input), Ok("a.txt".to_string()));
    assert_eq!(&input[..], &[7u8, 7][..]);

    let mut alone = serialize_text(&"a.txt".to_string());
    assert_eq!(deserialize_text(&mut alone), Ok("a.txt".to_string()));
    assert!(alone.is_empty());
}

#[test]
fn text_round_trips_beyond_ascii() {
    for text in ["", "x", "héllo wörld", "日本語", "🦀 crab", "line\nbreak\ttab"] {
        let mut encoded = serialize_text(&text.to_string());
        let bytes = encoded.to_vec();
        let decoded = deserialize_text(&mut encoded).unwrap();
        assert_eq!(decoded, text);
        assert!(encoded.is_empty());
        assert_eq!(serialize_text(&decoded).to_vec(), bytes);
    }
}

#[test]
fn text_decode_rejects_bytes_that_are_not_utf8() {
    let mut input = buffer(&[0, 0, 0, 0, 0, 0, 0, 2, 0xC3, 0x28, 1]);
    assert_eq!(deserialize_text(&mut input), Err(WireError::Malformed));
    assert_eq!(&input[..], &[1u8][..]);
    let mut lone = buffer(&[0, 0, 0, 0, 0, 0, 0, 1, 0xFF]);
    assert_eq!(deserialize_text(&mut lone), Err(WireError::Malformed));
}

#[test]
fn text_decode_rejects_short_input() {
    let mut no_length = buffer(&[0, 0, 0, 0, 0, 0, 0]);
    assert_eq!(deserialize_text(&mut no_length), Err(WireError::Truncated));
    assert_eq!(no_length.len(), 7);
    let mut short_body = buffer(&[0, 0, 0, 0, 0, 0, 0, 3, b'a', b'b']);
    assert_eq!(deserialize_text(&mut short_body), Err(WireError::Truncated));
    assert_eq!(&short_body[..], &[b'a', b'b'][..]);
}

#[test]
fn byte_array_is_its_length_and_its_bytes() {
    let out = serialize_byte_array(&vec![9, 8, 7]);
    assert_eq!(&out[..], &[0u8, 0, 0, 0, 0, 0, 0, 3, 9, 8, 7][..]);
    let long = serialize_byte_array(&vec![1u8; 300]);
    assert_eq!(&long[..8], &[0u8, 0, 0, 0, 0, 0, 1, 44][..]);
    assert_eq!(long.len(), 308);
}

#[test]
fn byte_array_round_trips() {
    for content in [vec![], vec![0u8], vec![255u8, 0, 255], (0..=255u8).collect::<Vec<u8>>()] {
        let mut encoded = serialize_byte_array(&content);
        encoded.extend_from_slice(&[42]);
        assert_eq!(deserialize_byte_array(&mut encoded), Ok(content));
        assert_eq!(&encoded[..], &[42u8][..]);
    }
}

#[test]
fn byte_array_decode_rejects_a_length_beyond_the_input() {
    let mut huge = buffer(&[255, 255, 255, 255, 255, 255, 255, 255, 1, 2, 3]);
    assert_eq!(deserialize_byte_array(&mut huge), Err(WireError::Truncated));
    assert_eq!(&huge[..], &[1u8, 2, 3][..]);
    let mut by_one = buffer(&[0, 0, 0, 0, 0, 0, 0, 4, 1, 2, 3]);
    assert_eq!(deserialize_byte_array(&mut by_one), Err(WireError::Truncated));
}

#[test]
fn file_serialize_writes_the_fields_in_declaration_order() {
    let file = File { path: "a.txt".to_string(), content: vec![1, 2] };
    let out = file.serialize();
    assert_eq!(
        &out[..],
        &[
            0u8, 0, 0, 0, 0, 0, 0, 5, b'a', b'.', b't', b'x', b't', 0, 0, 0, 0, 0, 0, 0, 2, 1, 2
        ][..]
    );
}

#[test]
fn file_round_trips() {
    let file = File { path: "dir/ünïcode.bin".to_string(), content: vec![0, 1, 2, 253, 254, 255] };
    let mut encoded = file.clone().serialize();
    let bytes = encoded.to_vec();
    let decoded = File::deserialize(&mut encoded).unwrap();
    assert_eq!(decoded, file);
    assert!(encoded.is_empty());
    assert_eq!(decoded.serialize().to_vec(), bytes);
}

#[test]
fn file_decode_leaves_what_follows_the_file() {
    let mut input = File { path: "p".to_string(), content: vec![] }.serialize();
    input.extend_from_slice(&[0, 1]);
    assert_eq!(
        File::deserialize(&mut input),
        Ok(File { path: "p".to_string(), content: vec![] })
    );
    assert_eq!(Action::deserialize(&mut input), Ok(Action::Delete));
}

#[test]
fn file_decode_stops_at_the_first_failing_field() {
    let mut bad_path = buffer(&[0, 0, 0, 0, 0, 0, 0, 1, 0xFF, 0, 0, 0, 0, 0, 0, 0, 0]);
    assert_eq!(File::deserialize(&mut bad_path), Err(WireError::Malformed));
    assert_eq!(bad_path.len(), 8);

    let mut no_content = buffer(&[0, 0, 0, 0, 0, 0, 0, 1, b'p', 0, 0]);
    assert_eq!(File::deserialize(&mut no_content), Err(WireError::Truncated));
    assert_eq!(&no_content[..], &[0u8, 0][..]);

    let mut empty = buffer(&[]);
    assert_eq!(File::deserialize(&mut empty), Err(WireError::Truncated));
}

#[test]
fn delete_file_params_decode_consumes_exactly_its_own_encoding() {
    let params = olympus::models::DeleteFileParams { path: "a.txt".to_string() };
    let mut encoded = params.clone().serialize();
    assert_eq!(&encoded[..], &[0u8, 0, 0, 0, 0, 0, 0, 5, b'a', b'.', b't', b'x', b't'][..]);
    let produced = encoded.len();
    encoded.extend_from_slice(&[0, 2]);
    let decoded = olympus::models::DeleteFileParams::deserialize(&mut encoded).unwrap();
    assert_eq!(decoded, params);
    assert_eq!(encoded.len() + produced, 15);
    assert_eq!(Action::deserialize(&mut encoded), Ok(Action::SecureDelete));
    assert!(encoded.is_empty());
}

#[test]
fn delete_file_params_decode_fails_with_its_field() {
    let mut short = buffer(&[0, 0, 0, 0, 0, 0, 0, 9, b'a']);
    assert_eq!(
        olympus::models::DeleteFileParams::deserialize(&mut short),
        Err(WireError::Truncated)
    );
}
