use escpresso::element::ReceiptElement;
use escpresso::parser::EscPosRenderer;
use escpresso::raster::bytes_per_row;
use escpresso::raster::ink_gray;
use escpresso::raster::pixel_at;
use escpresso::state::Alignment;

fn run(chunks: &[&[u8]]) -> EscPosRenderer {
    let mut renderer = EscPosRenderer::new(false);
    for chunk in chunks {
        renderer.process_data(chunk);
    }
    renderer
}

#[test]
fn column_image_of_three_columns() {
    // 3 columns, 8 rows: column 0 all black, column 1 top dot, column 2 bottom dot
    let renderer = run(&[&[0x1B, 0x2A, 0x01, 0x03, 0x00, 0xFF, 0x80, 0x01]]);
    assert_eq!(
        renderer.elements,
        vec![ReceiptElement::RasterImage {
            width: 3,
            height: 8,
            data: vec![0xC0, 0x80, 0x80, 0x80, 0x80, 0x80, 0x80, 0xA0],
            offset: 0,
            density: 4,
            alignment: Alignment::Left,
            bytes_per_line: 1,
            print_area_width: 0,
        }]
    );
}

#[test]
fn column_image_of_24_rows() {
    // 9 columns of 3 bytes; only column 8 has dots: rows 0, 8 and 23
    let mut data = vec![0x1B, 0x2A, 33, 0x09, 0x00];
    data.extend_from_slice(&[0u8; 24]);
    data.extend_from_slice(&[0x80, 0x80, 0x01]);
    let renderer = run(&[&data]);
    match &renderer.elements[0] {
        ReceiptElement::RasterImage { width, height, data, bytes_per_line, .. } => {
            assert_eq!(*width, 9);
            assert_eq!(*height, 24);
            assert_eq!(*bytes_per_line, 2);
            assert_eq!(data.len(), 48);
            for (k, byte) in data.iter().enumerate() {
                let expected = if k == 1 || k == 17 || k == 47 { 0x80 } else { 0x00 };
                assert_eq!(*byte, expected, "byte {}", k);
            }
        }
        other => panic!("not an image: {:?}", other),
    }
}

#[test]
fn column_to_raster_reads_short_data_as_white() {
    let renderer = EscPosRenderer::new(false);
    assert_eq!(
        renderer.column_to_raster(&[0xFF], 2, 8),
        vec![0x80, 0x80, 0x80, 0x80, 0x80, 0x80, 0x80, 0x80]
    );
    assert_eq!(renderer.column_to_raster(&[], 0, 8), Vec::<u8>::new());
    assert_eq!(renderer.column_to_raster(&[0xFF], 1, 0), Vec::<u8>::new());
    // rows beyond the whole bytes of a column stay white
    assert_eq!(
        renderer.column_to_raster(&[0xFF, 0xFF], 1, 12),
        vec![0x80, 0x80, 0x80, 0x80, 0x80, 0x80, 0x80, 0x80, 0, 0, 0, 0]
    );
}

#[test]
fn column_image_uses_the_state_and_clears_the_offset() {
    let renderer = run(&[
        &[0x1B, 0x61, 0x01, 0x1B, 0x7E, 0x02, 0x1D, 0x57, 0x40, 0x01, 0x1B, 0x24, 0x07, 0x00],
        &[0x1B, 0x2A, 0x00, 0x01, 0x00, 0x81],
    ]);
    assert_eq!(
        renderer.elements,
        vec![ReceiptElement::RasterImage {
            width: 1,
            height: 8,
            data: vec![0x80, 0, 0, 0, 0, 0, 0, 0x80],
            offset: 7,
            density: 2,
            alignment: Alignment::Center,
            bytes_per_line: 1,
            print_area_width: 0x0140,
        }]
    );
    assert_eq!(renderer.state.horizontal_offset, 0);
    assert!(renderer.last_was_binary);
}

#[test]
fn image_flushes_the_line_first() {
    let renderer = run(&[b"ab", &[0x1B, 0x24, 0x05, 0x00], &[0x1B, 0x2A, 0x00, 0x01, 0x00, 0x00]]);
    assert_eq!(renderer.elements.len(), 2);
    match &renderer.elements[0] {
        ReceiptElement::Text { content, offset, .. } => {
            assert_eq!(content, "ab");
            assert_eq!(*offset, 5);
        }
        other => panic!("not a text element: {:?}", other),
    }
    match &renderer.elements[1] {
        ReceiptElement::RasterImage { offset, .. } => assert_eq!(*offset, 0),
        other => panic!("not an image: {:?}", other),
    }
    assert!(renderer.current_line.is_empty());
}

#[test]
fn column_image_without_width_emits_nothing() {
    let renderer = run(&[&[0x1B, 0x2A, 0x00, 0x00, 0x00, b'A']]);
    assert!(renderer.elements.is_empty());
    assert!(!renderer.last_was_binary);
    assert_eq!(renderer.current_line, b"A".to_vec());
}

#[test]
fn column_image_too_wide_is_skipped_whole() {
    // 10001 columns of one byte
    let mut data = vec![0x1B, 0x2A, 0x00, 0x11, 0x27];
    data.extend_from_slice(&vec![b'x'; 10001]);
    data.push(b'A');
    let renderer = run(&[&data]);
    assert!(renderer.elements.is_empty());
    assert_eq!(renderer.current_line, b"A".to_vec());
    assert!(renderer.buffer.is_empty());
    // 10000 columns are printed
    let mut widest = vec![0x1B, 0x2A, 0x00, 0x10, 0x27];
    widest.extend_from_slice(&vec![0u8; 10000]);
    let printed = run(&[&widest]);
    assert_eq!(printed.elements.len(), 1);
}

#[test]
fn row_image_is_stored_as_it_stands() {
    let renderer = run(&[&[0x1D, 0x76, 0x30, 0x00, 0x02, 0x00, 0x03, 0x00, 1, 2, 3, 4, 5, 6, b'A']]);
    assert_eq!(
        renderer.elements,
        vec![ReceiptElement::RasterImage {
            width: 16,
            height: 3,
            data: vec![1, 2, 3, 4, 5, 6],
            offset: 0,
            density: 4,
            alignment: Alignment::Left,
            bytes_per_line: 2,
            print_area_width: 0,
        }]
    );
    assert!(renderer.last_was_binary);
    assert!(renderer.current_line.is_empty());
}

#[test]
fn row_image_waits_for_its_data() {
    let mut renderer = run(&[&[0x1D, 0x76, 0x30, 0x00, 0x01, 0x00, 0x02, 0x00, 0x41]]);
    assert!(renderer.elements.is_empty());
    assert!(renderer.current_line.is_empty());
    assert_eq!(renderer.buffer.len(), 9);
    renderer.process_data(&[0x42]);
    assert_eq!(renderer.elements.len(), 1);
    assert!(renderer.buffer.is_empty());
}

#[test]
fn row_image_without_extent_emits_nothing() {
    let no_width = run(&[&[0x1D, 0x76, 0x30, 0x00, 0x00, 0x00, 0x05, 0x00, b'A']]);
    assert!(no_width.elements.is_empty());
    assert_eq!(no_width.current_line, b"A".to_vec());
    let no_height = run(&[&[0x1D, 0x76, 0x30, 0x00, 0x05, 0x00, 0x00, 0x00, b'B']]);
    assert!(no_height.elements.is_empty());
    assert_eq!(no_height.current_line, b"B".to_vec());
}

#[test]
fn row_image_too_wide_is_skipped_whole() {
    // 1251 bytes a row are 10008 dots
    let mut data = vec![0x1D, 0x76, 0x30, 0x00, 0xE3, 0x04, 0x01, 0x00];
    data.extend_from_slice(&vec![b'x'; 1251]);
    data.push(b'A');
    let renderer = run(&[&data]);
    assert!(renderer.elements.is_empty());
    assert_eq!(renderer.current_line, b"A".to_vec());
    // 1250 bytes a row are printed
    let mut widest = vec![0x1D, 0x76, 0x30, 0x00, 0xE2, 0x04, 0x01, 0x00];
    widest.extend_from_slice(&vec![0u8; 1250]);
    let printed = run(&[&widest]);
    assert_eq!(printed.elements.len(), 1);
}

#[test]
fn long_form_image_is_printed() {
    // block = 10 + 4 bytes, m = 48, 9 x 2 dots
    let renderer = run(&[&[
        0x1D, 0x38, 0x4C, 14, 0, 0, 0, 48, 0x70, 48, 1, 1, 49, 9, 0, 2, 0, 1, 2, 3, 4, b'A',
    ]]);
    assert_eq!(
        renderer.elements,
        vec![ReceiptElement::RasterImage {
            width: 9,
            height: 2,
            data: vec![1, 2, 3, 4],
            offset: 0,
            density: 4,
            alignment: Alignment::Left,
            bytes_per_line: 2,
            print_area_width: 0,
        }]
    );
    assert!(renderer.last_was_binary);
    assert!(renderer.current_line.is_empty());
    let other_mode = run(&[&[
        0x1D, 0x38, 0x4C, 11, 0, 0, 0, 112, 0x70, 48, 1, 1, 49, 8, 0, 1, 0, 0xF0,
    ]]);
    assert_eq!(other_mode.elements.len(), 1);
}

#[test]
fn long_form_image_without_width_emits_nothing() {
    let renderer = run(&[&[
        0x1D, 0x38, 0x4C, 10, 0, 0, 0, 48, 0x70, 48, 1, 1, 49, 0, 0, 2, 0, b'A',
    ]]);
    assert!(renderer.elements.is_empty());
    assert_eq!(renderer.current_line, b"A".to_vec());
}

#[test]
fn long_form_in_another_mode_is_skipped_by_its_block() {
    // m = 50: block of 8 = 6 header bytes and 2 more
    let renderer = run(&[&[
        0x1D, 0x38, 0x4C, 8, 0, 0, 0, 50, 0x70, 48, 1, 1, 49, b'x', b'y', b'A',
    ]]);
    assert!(renderer.elements.is_empty());
    assert_eq!(renderer.current_line, b"A".to_vec());
}

#[test]
fn long_form_image_beyond_the_limits_is_skipped_by_its_block() {
    // 65535 x 65535 dots: the block of 12 ends two bytes after the dimensions
    let renderer = run(&[&[
        0x1D, 0x38, 0x4C, 12, 0, 0, 0, 48, 0x70, 48, 1, 1, 49, 0xFF, 0xFF, 0xFF, 0xFF, b'x', b'y',
        b'A',
    ]]);
    assert!(renderer.elements.is_empty());
    assert_eq!(renderer.current_line, b"A".to_vec());
    // a block over 100000 bytes is awaited, not printed
    let mut waiting = run(&[&[
        0x1D, 0x38, 0x4C, 0xA1, 0x86, 0x01, 0, 48, 0x70, 48, 1, 1, 49, 8, 0, 1, 0, 0xFF,
    ]]);
    assert!(waiting.elements.is_empty());
    assert_eq!(waiting.buffer.len(), 18);
    waiting.process_data(&vec![b'x'; 100001 - 11]);
    assert!(waiting.elements.is_empty());
    assert!(waiting.buffer.is_empty());
    assert!(waiting.current_line.is_empty());
}

#[test]
fn row_bytes_round_up() {
    assert_eq!(bytes_per_row(0), 0);
    assert_eq!(bytes_per_row(1), 1);
    assert_eq!(bytes_per_row(8), 1);
    assert_eq!(bytes_per_row(9), 2);
    assert_eq!(bytes_per_row(576), 72);
    assert_eq!(bytes_per_row(usize::MAX), usize::MAX / 8 + 1);
}

#[test]
fn column_to_raster_of_16_rows() {
    let renderer = EscPosRenderer::new(false);
    // two columns of two bytes: column 0 has rows 0 and 15, column 1 rows 0 to 7
    let raster = renderer.column_to_raster(&[0x80, 0x01, 0xFF, 0x00], 2, 16);
    let mut expected = vec![0x40u8; 16];
    expected[0] = 0xC0;
    for row in 8..15 {
        expected[row] = 0x00;
    }
    expected[15] = 0x80;
    assert_eq!(raster, expected);
    // the conversion agrees with reading the bitmap dot by dot
    for y in 0..16 {
        assert_eq!(pixel_at(&raster, 1, 0, y), y == 0 || y == 15);
        assert_eq!(pixel_at(&raster, 1, 1, y), y < 8);
        assert!(!pixel_at(&raster, 1, 2, y));
    }
}

#[test]
fn pixels_of_a_bitmap() {
    let data = [0x80, 0x01, 0x40, 0x00];
    assert!(pixel_at(&data, 2, 0, 0));
    assert!(!pixel_at(&data, 2, 1, 0));
    assert!(pixel_at(&data, 2, 15, 0));
    assert!(pixel_at(&data, 2, 1, 1));
    assert!(!pixel_at(&data, 2, 0, 1));
    assert!(!pixel_at(&data, 2, 0, 2));
    assert!(!pixel_at(&data, usize::MAX, 0, 2));
    assert!(!pixel_at(&data, 1, usize::MAX, usize::MAX));
}

#[test]
fn gray_levels_of_the_densities() {
    assert_eq!(ink_gray(0), 180);
    assert_eq!(ink_gray(1), 130);
    assert_eq!(ink_gray(2), 80);
    assert_eq!(ink_gray(3), 0);
    assert_eq!(ink_gray(8), 0);
}
