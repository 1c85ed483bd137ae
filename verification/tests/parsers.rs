use tortuise::dot_splat::{
    encode_splat_record, parse_splat_file, parse_splat_record, SplatFileError,
};
use tortuise::ply::{
    find_ply_header_end, parse_ply_header, read_scalar_bits, PlyError, PlyType, PropRole,
};

fn sample_record_bytes() -> Vec<u8> {
    let mut b = Vec::new();
    for v in [1.0f32, -2.0, 3.5] {
        b.extend_from_slice(&v.to_le_bytes());
    }
    for v in [0.05f32, 0.06, 0.07] {
        b.extend_from_slice(&v.to_le_bytes());
    }
    b.extend_from_slice(&[200, 100, 50]);
    b.push(255);
    b.extend_from_slice(&[255, 127, 128, 126]);
    b
}

#[test]
fn splat_record_round_trips_to_the_same_bytes() {
    let bytes = sample_record_bytes();
    let rec = parse_splat_record(&bytes, 0);
    let encoded = encode_splat_record(&rec);
    assert_eq!(encoded, bytes);
    assert_eq!(rec.px_bits, 1.0f32.to_bits());
    assert_eq!(rec.sy_bits, 0.06f32.to_bits());
    assert_eq!(rec.color.r, 200);
    assert_eq!(rec.opacity, 255);
    assert_eq!(rec.rot0, 255);
}

#[test]
fn splat_file_size_must_be_a_record_multiple() {
    let mut bytes = sample_record_bytes();
    bytes.push(0);
    let err = parse_splat_file(&bytes).unwrap_err();
    assert_eq!(err, SplatFileError::NotMultipleOfRecordSize);
}

#[test]
fn empty_splat_file_is_too_small() {
    let err = parse_splat_file(&Vec::new()).unwrap_err();
    assert_eq!(err, SplatFileError::FileTooSmall);
}

#[test]
fn splat_file_parses_every_record() {
    let mut bytes = sample_record_bytes();
    bytes.extend_from_slice(&sample_record_bytes());
    let recs = parse_splat_file(&bytes).expect("two complete records should parse");
    assert_eq!(recs.len(), 2);
    assert_eq!(recs[0], recs[1]);
}

fn minimal_ply(vertex_values: &[f32]) -> Vec<u8> {
    let mut data = Vec::new();
    data.extend_from_slice(b"ply\n");
    data.extend_from_slice(b"format binary_little_endian 1.0\n");
    data.extend_from_slice(b"element vertex 1\n");
    for name in [
        "x", "y", "z", "f_dc_0", "f_dc_1", "f_dc_2", "opacity", "scale_0", "scale_1", "scale_2",
        "rot_0", "rot_1", "rot_2", "rot_3",
    ] {
        data.extend_from_slice(format!("property float {}\n", name).as_bytes());
    }
    data.extend_from_slice(b"end_header\n");
    for v in vertex_values {
        data.extend_from_slice(&v.to_le_bytes());
    }
    data
}

#[test]
fn minimal_ply_header_parses_with_full_layout() {
    let values = [
        0.0f32, 0.0, 0.0, 0.0, 0.0, 0.0, 4.0, -3.0, -3.0, -3.0, 1.0, 0.0, 0.0, 0.0,
    ];
    let data = minimal_ply(&values);
    let header = parse_ply_header(&data).expect("the minimal header should parse");
    assert_eq!(header.vertex_count, 1);
    assert_eq!(header.stride, 56);
    assert_eq!(header.properties.len(), 14);
    assert!(header.properties.iter().all(|p| p.kind == PlyType::Float));
    assert_eq!(header.properties[0].role, PropRole::X);
    assert_eq!(header.properties[3].role, PropRole::FDc0);
    assert_eq!(header.properties[6].role, PropRole::Opacity);
    assert_eq!(header.properties[7].role, PropRole::Scale0);
    assert_eq!(header.properties[10].role, PropRole::Rot0);
    let opacity_bits = read_scalar_bits(&data, header.header_end + 6 * 4, PlyType::Float);
    assert_eq!(opacity_bits as u32, 4.0f32.to_bits());
    let scale_bits = read_scalar_bits(&data, header.header_end + 7 * 4, PlyType::Float);
    assert_eq!(scale_bits as u32, (-3.0f32).to_bits());
}

#[test]
fn ply_without_end_header_is_rejected() {
    let data = b"ply\nformat binary_little_endian 1.0\n".to_vec();
    let err = parse_ply_header(&data).unwrap_err();
    assert_eq!(err, PlyError::MissingEndHeader);
}

#[test]
fn big_endian_ply_is_rejected() {
    let data =
        b"ply\nformat binary_big_endian 1.0\nelement vertex 1\nproperty float x\nend_header\n\0\0\0\0"
            .to_vec();
    let err = parse_ply_header(&data).unwrap_err();
    assert_eq!(err, PlyError::NotBinaryLittleEndian);
}

#[test]
fn list_property_in_vertex_element_is_rejected() {
    let data =
        b"ply\nformat binary_little_endian 1.0\nelement vertex 1\nproperty list uchar int idx\nend_header\n"
            .to_vec();
    let err = parse_ply_header(&data).unwrap_err();
    assert_eq!(err, PlyError::ListPropertyUnsupported);
}

#[test]
fn truncated_ply_is_rejected() {
    let data =
        b"ply\nformat binary_little_endian 1.0\nelement vertex 2\nproperty float x\nend_header\n\0\0\0\0"
            .to_vec();
    let err = parse_ply_header(&data).unwrap_err();
    assert_eq!(err, PlyError::Truncated);
}

#[test]
fn zero_vertices_are_rejected() {
    let data =
        b"ply\nformat binary_little_endian 1.0\nelement vertex 0\nproperty float x\nend_header\n"
            .to_vec();
    let err = parse_ply_header(&data).unwrap_err();
    assert_eq!(err, PlyError::MissingVertexData);
}

#[test]
fn ply_type_names_map_to_types_and_sizes() {
    let names: Vec<(&[u8], PlyType, usize)> = vec![
        (b"char", PlyType::Char, 1),
        (b"uint8", PlyType::UChar, 1),
        (b"short", PlyType::Short, 2),
        (b"uint16", PlyType::UShort, 2),
        (b"int32", PlyType::Int, 4),
        (b"uint", PlyType::UInt, 4),
        (b"float32", PlyType::Float, 4),
        (b"double", PlyType::Double, 8),
    ];
    for (name, ty, size) in names {
        let data = name.to_vec();
        let parsed = PlyType::parse(&data, 0, data.len()).expect("known name should parse");
        assert_eq!(parsed, ty);
        assert_eq!(parsed.size(), size);
    }
    let junk = b"half".to_vec();
    assert!(PlyType::parse(&junk, 0, junk.len()).is_none());
}

#[test]
fn header_end_skips_past_the_marker_line() {
    let data = b"ply\nend_header\nXY".to_vec();
    assert_eq!(find_ply_header_end(&data), Some(15));
    assert_eq!(find_ply_header_end(&b"no marker here".to_vec()), None);
}
