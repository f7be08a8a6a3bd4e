use openttdrs_core::tnbp_decode::{
    decode_tnbp_blob, jgr_tunnels_from_decoded, read_sl_gamma, split_sl_gamma_segments, SlPrimitive,
    TnbpDecodeError, TnbpDecoded, SLE_FILE_END, SLE_FILE_I8, SLE_FILE_STRING, SLE_FILE_U32, SLE_FILE_U8,
};

fn write_gamma(v: u32, buf: &mut Vec<u8>) {
    if v < (1 << 7) {
        buf.push(v as u8);
    } else if v < (1 << 14) {
        buf.push(0x80 | ((v >> 8) as u8));
        buf.push((v & 0xFF) as u8);
    } else {
        panic!("only small gammas are written here");
    }
}

fn write_string(s: &str, buf: &mut Vec<u8>) {
    write_gamma(s.len() as u32, buf);
    buf.extend_from_slice(s.as_bytes());
}

fn write_u32_be(v: u32, buf: &mut Vec<u8>) {
    buf.extend_from_slice(&v.to_be_bytes());
}

#[test]
fn decode_minimal_jgr_style_tunnel_table() {
    let mut inner = Vec::new();
    let mut hdr = Vec::new();
    hdr.push(SLE_FILE_U32);
    write_string("tile_n", &mut hdr);
    hdr.push(SLE_FILE_U32);
    write_string("tile_s", &mut hdr);
    hdr.push(SLE_FILE_U8);
    write_string("height", &mut hdr);
    hdr.push(SLE_FILE_I8);
    write_string("is_chunnel", &mut hdr);
    hdr.push(SLE_FILE_END);
    write_gamma((hdr.len() + 1) as u32, &mut inner);
    inner.extend_from_slice(&hdr);
    let mut row = Vec::new();
    write_u32_be(100, &mut row);
    write_u32_be(200, &mut row);
    row.push(5u8);
    row.push(0i8 as u8);
    write_gamma((row.len() + 1) as u32, &mut inner);
    inner.extend_from_slice(&row);
    write_gamma(0, &mut inner);

    let dec = decode_tnbp_blob(&inner).expect("decode");
    match &dec {
        TnbpDecoded::ChTable { fields, rows, skipped_rows } => {
            assert_eq!(fields.len(), 4);
            assert_eq!(rows.len(), 1);
            assert_eq!(*skipped_rows, 0);
        }
        _ => panic!("expected ChTable"),
    }
    let tunnels = jgr_tunnels_from_decoded(&dec);
    assert_eq!(tunnels.len(), 1);
    assert_eq!(tunnels[0].tile_n, 100);
    assert_eq!(tunnels[0].tile_s, 200);
    assert_eq!(tunnels[0].height, 5);
    assert!(!tunnels[0].is_chunnel);
}

#[test]
fn raw_segments_when_not_table() {
    let mut inner = Vec::new();
    write_gamma(4, &mut inner);
    inner.extend_from_slice(&[1, 2, 3]);
    write_gamma(0, &mut inner);
    let dec = decode_tnbp_blob(&inner).expect("decode");
    match dec {
        TnbpDecoded::RawGammaSegments { segments } => {
            assert_eq!(segments.len(), 1);
            assert_eq!(segments[0], vec![1u8, 2, 3]);
        }
        _ => panic!("expected raw"),
    }
}

#[test]
fn decode_row_with_string_field() {
    let mut inner = Vec::new();
    let mut hdr = Vec::new();
    hdr.push(SLE_FILE_U32);
    write_string("id", &mut hdr);
    hdr.push(SLE_FILE_STRING);
    write_string("label", &mut hdr);
    hdr.push(SLE_FILE_END);
    write_gamma((hdr.len() + 1) as u32, &mut inner);
    inner.extend_from_slice(&hdr);
    let mut row = Vec::new();
    write_u32_be(7, &mut row);
    write_string("hi", &mut row);
    write_gamma((row.len() + 1) as u32, &mut inner);
    inner.extend_from_slice(&row);
    write_gamma(0, &mut inner);
    let dec = decode_tnbp_blob(&inner).expect("decode");
    let TnbpDecoded::ChTable { rows, .. } = dec else {
        panic!("ch_table");
    };
    assert_eq!(rows.len(), 1);
    assert_eq!(rows[0].len(), 2);
    assert_eq!(rows[0][1].1, SlPrimitive::Str("hi".to_string()));
}

#[test]
fn gamma_reads_each_prefix_width() {
    let data = [0x05u8, 0x81, 0x02, 0xC1, 0x02, 0x03, 0xE1, 0x02, 0x03, 0x04, 0xF0, 0x01, 0x02, 0x03, 0x04];
    let mut off = 0usize;
    assert_eq!(read_sl_gamma(&data, &mut off), Ok(5));
    assert_eq!(off, 1);
    assert_eq!(read_sl_gamma(&data, &mut off), Ok(0x102));
    assert_eq!(off, 3);
    assert_eq!(read_sl_gamma(&data, &mut off), Ok(0x1_0203));
    assert_eq!(off, 6);
    assert_eq!(read_sl_gamma(&data, &mut off), Ok(0x0102_0304));
    assert_eq!(off, 10);
    assert_eq!(read_sl_gamma(&data, &mut off), Ok(0x0102_0304));
    assert_eq!(off, 15);
    assert_eq!(read_sl_gamma(&data, &mut off), Err(TnbpDecodeError::Truncado));
}

#[test]
fn gamma_with_five_leading_ones_is_refused() {
    let mut off = 0usize;
    assert_eq!(read_sl_gamma(&[0xF8u8, 0, 0, 0, 0], &mut off), Err(TnbpDecodeError::GammaNoSoportado));
    assert_eq!(off, 1);
}

#[test]
fn truncated_segment_is_an_error() {
    assert_eq!(split_sl_gamma_segments(&[5u8, 1, 2]).map(|v| v.len()), Err(TnbpDecodeError::Truncado));
    assert_eq!(decode_tnbp_blob(&[]).map(|_| ()), Err(TnbpDecodeError::Truncado));
}

#[test]
fn unknown_field_type_row_is_skipped_and_raw_returned() {
    let mut inner = Vec::new();
    let mut hdr = Vec::new();
    hdr.push(7);
    write_string("odd", &mut hdr);
    hdr.push(SLE_FILE_END);
    write_gamma((hdr.len() + 1) as u32, &mut inner);
    inner.extend_from_slice(&hdr);
    write_gamma(2, &mut inner);
    inner.push(1);
    write_gamma(0, &mut inner);
    let dec = decode_tnbp_blob(&inner).expect("decode");
    match dec {
        TnbpDecoded::RawGammaSegments { segments } => assert_eq!(segments.len(), 2),
        _ => panic!("expected raw"),
    }
}

#[test]
fn last_cell_of_a_repeated_name_wins() {
    let mut inner = Vec::new();
    let mut hdr = Vec::new();
    for name in ["tile_n", "tile_n", "tile_s", "height"] {
        hdr.push(if name == "height" { SLE_FILE_U8 } else { SLE_FILE_U32 });
        write_string(name, &mut hdr);
    }
    hdr.push(SLE_FILE_END);
    write_gamma((hdr.len() + 1) as u32, &mut inner);
    inner.extend_from_slice(&hdr);
    let mut row = Vec::new();
    write_u32_be(1, &mut row);
    write_u32_be(2, &mut row);
    write_u32_be(3, &mut row);
    row.push(4);
    write_gamma((row.len() + 1) as u32, &mut inner);
    inner.extend_from_slice(&row);
    write_gamma(0, &mut inner);
    let dec = decode_tnbp_blob(&inner).expect("decode");
    let t = jgr_tunnels_from_decoded(&dec);
    assert_eq!(t.len(), 1);
    assert_eq!(t[0].tile_n, 2);
    assert_eq!(t[0].tile_s, 3);
    assert_eq!(t[0].style_n, None);
}
