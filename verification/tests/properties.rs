use escpresso::element::ReceiptElement;
use escpresso::parser::EscPosRenderer;
use escpresso::state::PrinterState;

fn same_state(a: &EscPosRenderer, b: &EscPosRenderer) {
    assert_eq!(a.state, b.state);
    assert_eq!(a.current_line, b.current_line);
    assert_eq!(a.buffer, b.buffer);
    assert_eq!(a.elements, b.elements);
    assert_eq!(a.response_queue, b.response_queue);
    assert_eq!(a.in_command_sequence, b.in_command_sequence);
    assert_eq!(a.last_was_binary, b.last_was_binary);
    assert_eq!(a.qr_data, b.qr_data);
    assert_eq!(a.qr_size, b.qr_size);
    assert_eq!(a.qr_error_correction, b.qr_error_correction);
}

fn receipt() -> Vec<u8> {
    let mut stream = Vec::new();
    stream.extend_from_slice(&[0x1B, 0x40, 0x1B, 0x61, 0x01, 0x1B, 0x21, 0x38]);
    stream.extend_from_slice(b"SHOP\x0A");
    stream.extend_from_slice(&[0x1D, 0x49, 0x42, 0x10, 0x04, 0x01, 0x1D, 0x72, 0x01]);
    stream.extend_from_slice(&[0x1B, 0x24, 0x20, 0x00]);
    stream.extend_from_slice(b"item\x091.00\x0D\x0A");
    stream.extend_from_slice(&[0x1B, 0x2A, 0x21, 0x02, 0x00, 1, 2, 3, 4, 5, 6]);
    stream.extend_from_slice(&[0x0A, 0x1D, 0x76, 0x30, 0x00, 0x01, 0x00, 0x02, 0x00, 0x41, 0x42]);
    stream.extend_from_slice(&[0x1D, 0x28, 0x6B, 0x06, 0x00, 0x31, 0x50, 0x30, b'a', b'b', b'c']);
    stream.extend_from_slice(&[0x1D, 0x28, 0x6B, 0x03, 0x00, 0x31, 0x51, 0x30]);
    stream.extend_from_slice(&[0x1B, 0x44, 0x04, 0x08, 0x00, 0x12, 0x23, 0x60, 0x12]);
    stream.extend_from_slice(&[0x1C, 0x2E, 0x1B, 0x45, 0x01, 0x1D, 0x6B, 0x02, b'1', 0x00]);
    stream.extend_from_slice(&[0x1D, 0x61, 0x01, 0x0C, 0x0C, 0x1D, 0x56, 0x41, 0x1B, 0x70, 0, 1, 2]);
    stream.extend_from_slice(b"tail");
    stream
}

#[test]
fn chunk_independence_for_every_split_in_two() {
    let stream = receipt();
    let mut whole = EscPosRenderer::new(false);
    whole.process_data(&stream);
    assert_eq!(whole.elements.len(), 10);
    assert!(whole.buffer.is_empty());
    for cut in 0..=stream.len() {
        let mut parts = EscPosRenderer::new(false);
        parts.process_data(&stream[..cut]);
        parts.process_data(&stream[cut..]);
        same_state(&parts, &whole);
    }
}

#[test]
fn chunk_independence_byte_by_byte() {
    let stream = receipt();
    let mut whole = EscPosRenderer::new(false);
    whole.process_data(&stream);
    let mut bytewise = EscPosRenderer::new(false);
    for byte in stream.iter() {
        bytewise.process_data(&[*byte]);
    }
    same_state(&bytewise, &whole);
    let mut with_empty_chunks = EscPosRenderer::new(false);
    with_empty_chunks.process_data(&[]);
    with_empty_chunks.process_data(&stream[..7]);
    with_empty_chunks.process_data(&[]);
    with_empty_chunks.process_data(&stream[7..]);
    same_state(&with_empty_chunks, &whole);
}

#[test]
fn chunk_independence_with_a_command_left_pending() {
    let stream = [0x1B, 0x45, 0x01, b'a', 0x1D, 0x76, 0x30, 0x00, 0x01, 0x00, 0x02];
    let mut whole = EscPosRenderer::new(false);
    whole.process_data(&stream);
    assert_eq!(whole.buffer, stream[4..].to_vec());
    assert!(whole.in_command_sequence);
    for cut in 0..=stream.len() {
        let mut parts = EscPosRenderer::new(false);
        parts.process_data(&stream[..cut]);
        parts.process_data(&stream[cut..]);
        same_state(&parts, &whole);
    }
}

#[test]
fn no_payload_byte_reaches_the_text() {
    // every payload is made of letters; none may show up in a text element
    let mut stream = Vec::new();
    stream.extend_from_slice(&[0x1B, 0x2A, 0x00, 0x04, 0x00]);
    stream.extend_from_slice(b"AAAA");
    stream.push(0x0A);
    stream.extend_from_slice(&[0x1D, 0x76, 0x30, 0x00, 0x02, 0x00, 0x02, 0x00]);
    stream.extend_from_slice(b"BBBB");
    stream.push(0x0A);
    stream.extend_from_slice(&[0x1D, 0x38, 0x4C, 12, 0, 0, 0, 48, 0x70, 48, 1, 1, 49, 8, 0, 2, 0]);
    stream.extend_from_slice(b"CC");
    stream.push(0x0A);
    stream.extend_from_slice(&[0x1D, 0x38, 0x4D, 3, 0, 0, 0]);
    stream.extend_from_slice(b"DDD");
    stream.extend_from_slice(&[0x1D, 0x28, 0x6B, 0x06, 0x00, 0x31, 0x50, 0x30]);
    stream.extend_from_slice(b"EEE");
    stream.extend_from_slice(&[0x1D, 0x28, 0x4C, 0x02, 0x00]);
    stream.extend_from_slice(b"FF");
    stream.extend_from_slice(&[0x1B, 0x28, 0x41, 0x02, 0x00]);
    stream.extend_from_slice(b"GG");
    stream.extend_from_slice(&[0x1B, 0x4B, 0x02, 0x00]);
    stream.extend_from_slice(b"HH");
    stream.extend_from_slice(&[0x1D, 0x6B, 0x49, 0x02]);
    stream.extend_from_slice(b"II");
    stream.extend_from_slice(&[0x1C, 0x28, 0x41, 0x02, 0x00]);
    stream.extend_from_slice(b"JJ");
    stream.extend_from_slice(b"text\x0A");
    for cut in 0..=stream.len() {
        let mut renderer = EscPosRenderer::new(false);
        renderer.process_data(&stream[..cut]);
        renderer.process_data(&stream[cut..]);
        let texts: Vec<&str> = renderer
            .elements
            .iter()
            .filter_map(|element| match element {
                ReceiptElement::Text { content, .. } => Some(content.as_str()),
                _ => None,
            })
            .collect();
        assert_eq!(texts, vec!["text"]);
        assert!(renderer.current_line.is_empty());
    }
}

#[test]
fn offset_is_used_once() {
    let mut renderer = EscPosRenderer::new(false);
    renderer.process_data(&[0x1B, 0x24, 0x30, 0x00]);
    renderer.process_data(b"a\x0Ab\x0A");
    renderer.process_data(&[0x1B, 0x24, 0x08, 0x00, 0x1B, 0x5C, 0x02, 0x00]);
    renderer.process_data(&[0x1D, 0x76, 0x30, 0x00, 0x01, 0x00, 0x01, 0x00, 0xFF]);
    renderer.process_data(&[0x1D, 0x76, 0x30, 0x00, 0x01, 0x00, 0x01, 0x00, 0xFF]);
    let offsets: Vec<u16> = renderer
        .elements
        .iter()
        .filter_map(|element| match element {
            ReceiptElement::Text { offset, .. } => Some(*offset),
            ReceiptElement::RasterImage { offset, .. } => Some(*offset),
            ReceiptElement::QrCode { offset, .. } => Some(*offset),
            _ => None,
        })
        .collect();
    assert_eq!(offsets, vec![0x30, 0, 10, 0]);
    assert_eq!(renderer.state.horizontal_offset, 0);
}

#[test]
fn offset_survives_elements_that_have_no_place() {
    let mut renderer = EscPosRenderer::new(false);
    renderer.process_data(&[0x1B, 0x24, 0x30, 0x00]);
    renderer.process_data(&[0x1B, 0x64, 0x02, 0x1D, 0x56, 0x00, 0x0C, 0x1B, 0x70, 0, 1, 2]);
    assert_eq!(renderer.state.horizontal_offset, 0x30);
    renderer.process_data(b"a\x0A");
    match renderer.elements.last() {
        Some(ReceiptElement::Text { offset, .. }) => assert_eq!(*offset, 0x30),
        other => panic!("not a text element: {:?}", other),
    }
}

#[test]
fn init_twice_is_init_once() {
    let setup: &[u8] = &[
        0x1B, 0x45, 0x01, 0x1B, 0x61, 0x02, 0x1B, 0x74, 0x11, 0x1D, 0x4C, 0x10, 0x00, 0x1B, 0x33,
        0x50, b'x',
    ];
    let mut once = EscPosRenderer::new(false);
    once.process_data(setup);
    once.process_data(&[0x1B, 0x40]);
    let mut twice = EscPosRenderer::new(false);
    twice.process_data(setup);
    twice.process_data(&[0x1B, 0x40, 0x1B, 0x40]);
    same_state(&once, &twice);
    assert_eq!(once.state, PrinterState::default());
    assert_eq!(once.state, EscPosRenderer::new(false).state);
    // the line gathered so far is no formatting and stays
    assert_eq!(once.current_line, b"x".to_vec());
}

#[test]
fn responses_come_in_the_order_of_the_queries() {
    let mut renderer = EscPosRenderer::new(false);
    renderer.process_data(&[0x1D, 0x72, 0x01, 0x10, 0x04, 0x01, 0x1D, 0x49, 0x43]);
    renderer.process_data(b"text\x0A");
    renderer.process_data(&[0x1D, 0x61, 0x02, 0x10, 0x05, 0x01, 0x1D, 0x49, 0x42, 0x1D, 0x72]);
    let mut expected = vec![0x08, 0x12];
    expected.extend_from_slice(b"\x5FCT-S310\x00");
    expected.extend_from_slice(&[0x10, 0x00, 0x00, 0x00, 0x12]);
    expected.extend_from_slice(b"\x5FCITIZEN\x00");
    assert_eq!(renderer.response_queue, expected);
    // the last query is incomplete and has no answer yet
    assert_eq!(renderer.buffer, vec![0x1D, 0x72]);
    assert_eq!(renderer.take_responses(), expected);
    renderer.process_data(&[0x00]);
    assert_eq!(renderer.take_responses(), vec![0x08]);
}

#[test]
fn lone_escape_stays_pending() {
    let mut renderer = EscPosRenderer::new(false);
    renderer.process_data(b"ab");
    renderer.process_data(&[0x1B]);
    assert!(renderer.elements.is_empty());
    assert!(renderer.response_queue.is_empty());
    assert_eq!(renderer.state, PrinterState::default());
    assert_eq!(renderer.current_line, b"ab".to_vec());
    assert_eq!(renderer.buffer, vec![0x1B]);
    renderer.process_data(&[]);
    assert_eq!(renderer.buffer, vec![0x1B]);
    renderer.process_data(&[0x45, 0x01]);
    assert!(renderer.state.bold);
    assert!(renderer.buffer.is_empty());
}

#[test]
fn line_growth_is_bounded_by_the_bytes_taken_in() {
    let mut renderer = EscPosRenderer::new(false);
    renderer.process_data(b"\x09\x09a\x09");
    assert_eq!(renderer.current_line.len(), 13);
    assert!(renderer.current_line.len() + 4 * renderer.buffer.len() <= 4 * 4);
}

#[test]
fn room_for_a_chunk() {
    let mut renderer = EscPosRenderer::new(false);
    assert!(renderer.can_take(0));
    assert!(renderer.can_take(8192));
    let most = ((usize::MAX - 6) / 6) / 4;
    assert!(renderer.can_take(most));
    assert!(!renderer.can_take(most + 1));
    assert!(!renderer.can_take(usize::MAX));
    renderer.process_data(b"abcd\x1B");
    // four bytes on the line and one pending
    assert!(renderer.can_take(most - 2));
    assert!(!renderer.can_take(most - 1));
}

#[test]
fn serving_a_chunk_drains_both_queues() {
    let mut renderer = EscPosRenderer::new(false);
    let output = renderer.serve_chunk(b"a\x0A\x1D\x72\x01\x1D\x49");
    assert_eq!(output.responses, vec![0x08]);
    assert_eq!(output.elements.len(), 1);
    assert!(renderer.response_queue.is_empty());
    assert!(renderer.elements.is_empty());
    assert_eq!(renderer.buffer, vec![0x1D, 0x49]);
    let next = renderer.serve_chunk(&[0x42]);
    assert_eq!(next.responses, b"\x5FCITIZEN\x00".to_vec());
    assert!(next.elements.is_empty());
    assert!(renderer.buffer.is_empty());
}

#[test]
fn responses_do_not_depend_on_the_cut_when_served() {
    let stream = receipt();
    let mut whole = EscPosRenderer::new(false);
    let expected = whole.serve_chunk(&stream).responses;
    assert_eq!(expected.len(), 1 + 9 + 1 + 4);
    for cut in 0..=stream.len() {
        let mut parts = EscPosRenderer::new(false);
        let mut sent = parts.serve_chunk(&stream[..cut]).responses;
        sent.extend_from_slice(&parts.serve_chunk(&stream[cut..]).responses);
        assert_eq!(sent, expected);
    }
}
