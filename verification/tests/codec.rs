use sulis_area::base64_text::can_encode;
use sulis_area::document::{
    as_base64, de_layer_set, de_terrain, de_walls, from_base64, ser_layer_set, ser_terrain,
    ser_walls, serialize_u8_with_kinds, LayerPoints, LayerText, U8WithKinds,
};
use sulis_area::error::CodecError;
use sulis_area::kinds::{decode_terrain, decode_walls, encode_terrain, encode_walls, entry_index};
use sulis_area::lookup::slot_of;
use sulis_area::points::{decode_points, encode_points};

fn label(text: &str) -> Option<String> {
    Some(text.to_string())
}

fn numbered(count: usize) -> Vec<Option<String>> {
    (0..count).map(|i| Some(format!("kind_{}", i))).collect()
}

#[test]
fn terrain_round_trip_small() {
    let labels = vec![label("grass"), None, label("rock"), label("grass")];
    let (kinds, packed) = encode_terrain(&labels).unwrap();
    assert_eq!(kinds, vec!["grass".to_string(), "rock".to_string()]);
    assert_eq!(packed, vec![0u8, 255, 1, 0]);
    assert_eq!(decode_terrain(&kinds, &packed), Ok(labels));
}

#[test]
fn terrain_empty_row() {
    let labels: Vec<Option<String>> = Vec::new();
    let (kinds, packed) = encode_terrain(&labels).unwrap();
    assert!(kinds.is_empty());
    assert!(packed.is_empty());
    assert_eq!(decode_terrain(&kinds, &packed), Ok(labels));
}

#[test]
fn terrain_kinds_in_order_of_first_occurrence() {
    let labels = vec![label("c"), label("a"), label("c"), label("b"), label("a")];
    let (kinds, packed) = encode_terrain(&labels).unwrap();
    assert_eq!(kinds, vec!["c".to_string(), "a".to_string(), "b".to_string()]);
    assert_eq!(packed, vec![0u8, 1, 0, 2, 1]);
}

#[test]
fn terrain_255_distinct_kinds_round_trip() {
    let mut labels = numbered(255);
    labels.push(None);
    labels.push(label("kind_7"));
    let (kinds, packed) = encode_terrain(&labels).unwrap();
    assert_eq!(kinds.len(), 255);
    assert_eq!(packed.len(), 257);
    assert_eq!(packed[254], 254);
    assert_eq!(packed[255], 255);
    assert_eq!(packed[256], 7);
    assert_eq!(decode_terrain(&kinds, &packed), Ok(labels));
}

#[test]
fn terrain_256_distinct_kinds_exceed_capacity() {
    let labels = numbered(256);
    assert_eq!(encode_terrain(&labels), Err(CodecError::CapacityExceeded));
}

#[test]
fn walls_256_distinct_kinds_exceed_capacity() {
    let walls: Vec<(u8, Option<String>)> =
        numbered(256).into_iter().map(|l| (1u8, l)).collect();
    assert_eq!(encode_walls(&walls), Err(CodecError::CapacityExceeded));
}

#[test]
fn walls_round_trip_interleaves_kind_and_elevation() {
    let walls = vec![(3u8, label("stone")), (0u8, None), (9u8, label("wood")), (4u8, label("stone"))];
    let (kinds, packed) = encode_walls(&walls).unwrap();
    assert_eq!(kinds, vec!["stone".to_string(), "wood".to_string()]);
    assert_eq!(packed, vec![0u8, 3, 255, 0, 1, 9, 0, 4]);
    assert_eq!(packed.len(), 2 * walls.len());
    assert_eq!(decode_walls(&kinds, &packed), Ok(walls));
}

#[test]
fn walls_odd_length_is_malformed() {
    let kinds = vec!["stone".to_string()];
    assert_eq!(decode_walls(&kinds, &[0u8, 1, 0]), Err(CodecError::MalformedLength));
    assert_eq!(decode_walls(&kinds, &[0u8]), Err(CodecError::MalformedLength));
    // The length is looked at before any index.
    assert_eq!(decode_walls(&kinds, &[7u8, 1, 0]), Err(CodecError::MalformedLength));
}

#[test]
fn invalid_index_is_refused() {
    let kinds = vec!["a".to_string(), "b".to_string()];
    assert_eq!(decode_terrain(&kinds, &[0u8, 2]), Err(CodecError::InvalidIndex));
    assert_eq!(decode_terrain(&kinds, &[254u8]), Err(CodecError::InvalidIndex));
    assert_eq!(decode_walls(&kinds, &[1u8, 0, 2, 0]), Err(CodecError::InvalidIndex));
    assert_eq!(
        decode_terrain(&kinds, &[1u8, 0]),
        Ok(vec![label("b"), label("a")])
    );
}

#[test]
fn byte_255_always_reads_as_absent() {
    let empty: Vec<String> = Vec::new();
    assert_eq!(decode_terrain(&empty, &[255u8]), Ok(vec![None]));
    let full: Vec<String> = (0..300).map(|i| format!("k{}", i)).collect();
    assert_eq!(decode_terrain(&full, &[255u8, 255]), Ok(vec![None, None]));
    assert_eq!(decode_walls(&full, &[255u8, 17]), Ok(vec![(17u8, None)]));
    assert_eq!(decode_walls(&empty, &[255u8, 0]), Ok(vec![(0u8, None)]));
}

#[test]
fn entry_index_interns_in_order() {
    let mut kinds: Vec<String> = Vec::new();
    assert_eq!(entry_index(&mut kinds, &None), Ok(255));
    assert!(kinds.is_empty());
    assert_eq!(entry_index(&mut kinds, &label("a")), Ok(0));
    assert_eq!(entry_index(&mut kinds, &label("b")), Ok(1));
    assert_eq!(entry_index(&mut kinds, &label("a")), Ok(0));
    assert_eq!(kinds, vec!["a".to_string(), "b".to_string()]);
}

#[test]
fn entry_index_refuses_the_256th_kind() {
    let mut kinds: Vec<String> = (0..255).map(|i| format!("k{}", i)).collect();
    assert_eq!(entry_index(&mut kinds, &label("k254")), Ok(254));
    assert_eq!(entry_index(&mut kinds, &label("new")), Err(CodecError::CapacityExceeded));
    assert_eq!(kinds.len(), 255);
    assert_eq!(entry_index(&mut kinds, &None), Ok(255));
}

#[test]
fn slot_of_finds_first_or_length() {
    let names = vec!["a".to_string(), "b".to_string(), "a".to_string()];
    assert_eq!(slot_of(&names, &"a".to_string()), 0);
    assert_eq!(slot_of(&names, &"b".to_string()), 1);
    assert_eq!(slot_of(&names, &"c".to_string()), 3);
}

#[test]
fn points_are_four_big_endian_bytes() {
    let points = vec![(0x0102u16, 0x0304u16), (0u16, 65535u16), (256u16, 255u16)];
    let bytes = encode_points(&points);
    assert_eq!(bytes, vec![1u8, 2, 3, 4, 0, 0, 255, 255, 1, 0, 0, 255]);
    assert_eq!(decode_points(&bytes), Ok(points));
}

#[test]
fn points_length_must_be_a_multiple_of_four() {
    assert_eq!(decode_points(&[1u8]), Err(CodecError::MalformedLength));
    assert_eq!(decode_points(&[1u8, 2, 3]), Err(CodecError::MalformedLength));
    assert_eq!(decode_points(&[1u8, 2, 3, 4, 5]), Err(CodecError::MalformedLength));
    assert_eq!(decode_points(&[1u8, 2, 3, 4, 5, 6, 7]), Err(CodecError::MalformedLength));
    assert_eq!(decode_points(&[0u8, 1, 0, 2]), Ok(vec![(1u16, 2u16)]));
}

#[test]
fn points_empty_is_no_points() {
    assert_eq!(decode_points(&[]), Ok(Vec::new()));
    assert_eq!(encode_points(&[]), Vec::<u8>::new());
}

#[test]
fn base64_text_of_bytes() {
    assert_eq!(as_base64(b"hello"), "aGVsbG8=");
    assert_eq!(as_base64(&[]), "");
    assert_eq!(as_base64(&[0u8, 255, 1, 0]), "AP8BAA==");
    assert_eq!(as_base64(&[251u8, 255]), "+/8=");
}

#[test]
fn base64_bytes_of_text() {
    assert_eq!(from_base64("aGVsbG8="), Ok(b"hello".to_vec()));
    assert_eq!(from_base64(""), Ok(Vec::new()));
    assert_eq!(from_base64("+/8="), Ok(vec![251u8, 255]));
    assert_eq!(from_base64("not base64!"), Err(CodecError::InvalidBase64));
    assert_eq!(from_base64("aGVsbG8"), Err(CodecError::InvalidBase64));
    assert_eq!(from_base64("-_8="), Err(CodecError::InvalidBase64));
}

#[test]
fn stored_kinds_hold_table_and_text() {
    let doc = serialize_u8_with_kinds(vec!["grass".to_string()], vec![0u8, 255, 1, 0]);
    assert_eq!(doc.kinds, vec!["grass".to_string()]);
    assert_eq!(doc.entries, "AP8BAA==");
}

#[test]
fn stored_terrain_round_trip() {
    let labels = vec![label("grass"), None, label("rock"), label("grass")];
    let doc = ser_terrain(&labels).unwrap();
    assert_eq!(doc.kinds, vec!["grass".to_string(), "rock".to_string()]);
    assert_eq!(doc.entries, "AP8BAA==");
    assert_eq!(de_terrain(&doc), Ok(labels));
}

#[test]
fn stored_terrain_errors() {
    assert_eq!(ser_terrain(&numbered(256)).err(), Some(CodecError::CapacityExceeded));
    let bad_text = U8WithKinds { kinds: vec!["a".to_string()], entries: "***".to_string() };
    assert_eq!(de_terrain(&bad_text), Err(CodecError::InvalidBase64));
    let bad_index = U8WithKinds { kinds: vec!["a".to_string()], entries: "AQ==".to_string() };
    assert_eq!(de_terrain(&bad_index), Err(CodecError::InvalidIndex));
}

#[test]
fn stored_walls_round_trip() {
    let walls = vec![(3u8, label("stone")), (0u8, None)];
    let doc = ser_walls(&walls).unwrap();
    assert_eq!(doc.kinds, vec!["stone".to_string()]);
    assert_eq!(doc.entries, "AAP/AA==");
    assert_eq!(de_walls(&doc), Ok(walls));
}

#[test]
fn stored_walls_errors() {
    let walls: Vec<(u8, Option<String>)> = numbered(256).into_iter().map(|l| (0u8, l)).collect();
    assert_eq!(ser_walls(&walls).err(), Some(CodecError::CapacityExceeded));
    let odd = U8WithKinds { kinds: vec!["a".to_string()], entries: "AAEA".to_string() };
    assert_eq!(de_walls(&odd), Err(CodecError::MalformedLength));
    let bad_text = U8WithKinds { kinds: Vec::new(), entries: "%".to_string() };
    assert_eq!(de_walls(&bad_text), Err(CodecError::InvalidBase64));
    let bad_index = U8WithKinds { kinds: Vec::new(), entries: "AAA=".to_string() };
    assert_eq!(de_walls(&bad_index), Err(CodecError::InvalidIndex));
}

#[test]
fn layer_set_round_trip() {
    let layers = vec![
        LayerPoints { name: "ground".to_string(), points: vec![(1, 2), (258, 3)] },
        LayerPoints { name: "empty".to_string(), points: Vec::new() },
    ];
    let stored = ser_layer_set(&layers);
    assert_eq!(stored.len(), 2);
    assert_eq!(stored[0].name, "ground");
    assert_eq!(stored[0].entries, "AAEAAgECAAM=");
    assert_eq!(stored[1].name, "empty");
    assert_eq!(stored[1].entries, "");
    let read = de_layer_set(&stored).unwrap();
    assert_eq!(read.len(), 2);
    assert_eq!(read[0].name, "ground");
    assert_eq!(read[0].points, vec![(1u16, 2u16), (258u16, 3u16)]);
    assert_eq!(read[1].name, "empty");
    assert!(read[1].points.is_empty());
}

#[test]
fn layer_set_first_bad_layer_decides() {
    let cut_short = vec![
        LayerText { name: "a".to_string(), entries: "AAEAAg==".to_string() },
        LayerText { name: "b".to_string(), entries: "AAEA".to_string() },
        LayerText { name: "c".to_string(), entries: "!".to_string() },
    ];
    assert_eq!(de_layer_set(&cut_short).err(), Some(CodecError::MalformedLength));
    let no_text = vec![
        LayerText { name: "c".to_string(), entries: "!".to_string() },
        LayerText { name: "b".to_string(), entries: "AAEA".to_string() },
    ];
    assert_eq!(de_layer_set(&no_text).err(), Some(CodecError::InvalidBase64));
}

#[test]
fn codec_error_messages_differ() {
    let all = [
        CodecError::CapacityExceeded,
        CodecError::InvalidIndex,
        CodecError::MalformedLength,
        CodecError::InvalidBase64,
    ];
    for (i, a) in all.iter().enumerate() {
        for (j, b) in all.iter().enumerate() {
            assert_eq!(i == j, a.message() == b.message());
        }
    }
}

#[test]
fn text_must_fit_in_memory() {
    assert!(can_encode(0));
    assert!(can_encode(1 << 20));
    let most = (isize::MAX as usize - 4) / 4 * 3 + 2;
    assert!(can_encode(most));
    assert!(!can_encode(most + 1));
    assert!(!can_encode(usize::MAX));
}

fn base64_by_hand(bytes: &[u8]) -> String {
    let alphabet: Vec<char> =
        "ABCDEFGHIJKLMNOPQRSTUVWXYZabcdefghijklmnopqrstuvwxyz0123456789+/".chars().collect();
    let mut out = String::new();
    for chunk in bytes.chunks(3) {
        let b0 = chunk[0] as usize;
        let b1 = if chunk.len() > 1 { chunk[1] as usize } else { 0 };
        let b2 = if chunk.len() > 2 { chunk[2] as usize } else { 0 };
        let n = (b0 << 16) | (b1 << 8) | b2;
        out.push(alphabet[(n >> 18) & 63]);
        out.push(alphabet[(n >> 12) & 63]);
        out.push(if chunk.len() > 1 { alphabet[(n >> 6) & 63] } else { '=' });
        out.push(if chunk.len() > 2 { alphabet[n & 63] } else { '=' });
    }
    out
}

#[test]
fn base64_text_of_long_input() {
    for len in [0usize, 1, 2, 3, 4, 25, 26, 27, 28, 29, 100, 255, 256, 1000] {
        let bytes: Vec<u8> = (0..len).map(|i| (i * 7 + 3) as u8).collect();
        let text = as_base64(&bytes);
        assert_eq!(text, base64_by_hand(&bytes));
        assert_eq!(from_base64(&text), Ok(bytes));
    }
}

#[test]
fn stored_grids_of_a_full_area_round_trip() {
    let tiles = 128 * 128;
    let labels: Vec<Option<String>> = (0..tiles)
        .map(|i| if i % 5 == 0 { None } else { Some(format!("kind_{}", (i * 31) % 255)) })
        .collect();
    let distinct: std::collections::HashSet<&String> = labels.iter().flatten().collect();
    let doc = ser_terrain(&labels).unwrap();
    assert_eq!(doc.kinds.len(), distinct.len());
    assert_eq!(doc.kinds[0], "kind_31");
    assert_eq!(de_terrain(&doc), Ok(labels.clone()));
    let walls: Vec<(u8, Option<String>)> =
        labels.into_iter().enumerate().map(|(i, l)| ((i % 256) as u8, l)).collect();
    let doc = ser_walls(&walls).unwrap();
    assert_eq!(de_walls(&doc), Ok(walls));
    let points: Vec<(u16, u16)> = (0..tiles).map(|i| ((i % 128) as u16, (i * 4) as u16)).collect();
    let layers = vec![LayerPoints { name: "all".to_string(), points: points.clone() }];
    let read = de_layer_set(&ser_layer_set(&layers)).unwrap();
    assert_eq!(read[0].points, points);
}

#[test]
fn walls_absent_and_repeated_kinds_do_not_count() {
    let mut walls: Vec<(u8, Option<String>)> =
        numbered(255).into_iter().map(|l| (2u8, l)).collect();
    for i in 0..600usize {
        walls.push(((i % 7) as u8, None));
        walls.push((1, Some(format!("kind_{}", i % 255))));
    }
    let (kinds, packed) = encode_walls(&walls).unwrap();
    assert_eq!(kinds.len(), 255);
    assert_eq!(packed.len(), 2 * walls.len());
    assert_eq!(decode_walls(&kinds, &packed), Ok(walls.clone()));
    assert!(ser_walls(&walls).is_ok());
    walls.push((0, Some("one_more".to_string())));
    assert_eq!(encode_walls(&walls), Err(CodecError::CapacityExceeded));
    assert_eq!(ser_walls(&walls).err(), Some(CodecError::CapacityExceeded));
}

#[test]
fn terrain_absent_and_repeated_kinds_do_not_count() {
    let mut labels = numbered(255);
    for i in 0..600usize {
        labels.push(None);
        labels.push(Some(format!("kind_{}", (i * 3) % 255)));
    }
    assert_eq!(ser_terrain(&labels).unwrap().kinds.len(), 255);
    labels.insert(0, Some("one_more".to_string()));
    assert_eq!(encode_terrain(&labels), Err(CodecError::CapacityExceeded));
    assert_eq!(ser_terrain(&labels).err(), Some(CodecError::CapacityExceeded));
}
