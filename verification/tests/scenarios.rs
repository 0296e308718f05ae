use escpresso::element::CutKind;
use escpresso::element::ReceiptElement;
use escpresso::parser::EscPosRenderer;
use escpresso::state::Alignment;
use escpresso::state::PrinterState;

fn run(chunks: &[&[u8]]) -> EscPosRenderer {
    let mut renderer = EscPosRenderer::new(false);
    for chunk in chunks {
        renderer.process_data(chunk);
    }
    renderer
}

#[test]
fn bold_text_scenario() {
    let renderer = run(&[&[0x1B, 0x40, 0x1B, 0x45, 0x01, 0x48, 0x69, 0x1B, 0x45, 0x00, 0x0A]]);
    assert_eq!(renderer.elements.len(), 1);
    // The line is flushed at LF, after bold was switched off again
    assert_eq!(
        renderer.elements[0],
        ReceiptElement::Text {
            content: "Hi".to_string(),
            bold: false,
            underline: false,
            double_width: false,
            double_height: false,
            inverted: false,
            alignment: Alignment::Left,
            density: 4,
            offset: 0,
            left_margin: 0,
            character_spacing: 0,
            double_strike: false,
            font: 0,
            print_area_width: 0,
        }
    );
}

#[test]
fn bold_text_flushed_while_bold() {
    let renderer = run(&[&[0x1B, 0x40, 0x1B, 0x45, 0x01, 0x48, 0x69, 0x0A, 0x1B, 0x45, 0x00]]);
    assert_eq!(renderer.elements.len(), 1);
    match &renderer.elements[0] {
        ReceiptElement::Text { content, bold, alignment, font, .. } => {
            assert_eq!(content, "Hi");
            assert!(*bold);
            assert_eq!(*alignment, Alignment::Left);
            assert_eq!(*font, 0);
        }
        other => panic!("not a text element: {:?}", other),
    }
    assert!(!renderer.state.bold);
}

#[test]
fn alignment_switch_scenario() {
    let renderer = run(&[&[
        0x1B, 0x40, 0x1B, 0x61, 0x01, 0x4F, 0x4B, 0x0A, 0x1B, 0x61, 0x00, 0x2E, 0x0A,
    ]]);
    assert_eq!(renderer.elements.len(), 2);
    match &renderer.elements[0] {
        ReceiptElement::Text { content, alignment, .. } => {
            assert_eq!(content, "OK");
            assert_eq!(*alignment, Alignment::Center);
        }
        other => panic!("not a text element: {:?}", other),
    }
    match &renderer.elements[1] {
        ReceiptElement::Text { content, alignment, .. } => {
            assert_eq!(content, ".");
            assert_eq!(*alignment, Alignment::Left);
        }
        other => panic!("not a text element: {:?}", other),
    }
}

#[test]
fn dle_eot_status_scenario() {
    let mut renderer = run(&[&[0x10, 0x04, 0x01]]);
    assert!(renderer.elements.is_empty());
    assert_eq!(renderer.take_responses(), vec![0x12]);
    assert!(renderer.response_queue.is_empty());
    assert!(!renderer.in_command_sequence);
}

#[test]
fn dle_enq_status() {
    let mut renderer = run(&[&[0x10, 0x05, 0x02]]);
    assert_eq!(renderer.take_responses(), vec![0x12]);
}

#[test]
fn dle_split_before_its_parameter_waits() {
    let mut renderer = run(&[&[0x10, 0x04]]);
    assert!(renderer.response_queue.is_empty());
    assert_eq!(renderer.buffer, vec![0x10, 0x04]);
    assert!(renderer.in_command_sequence);
    renderer.process_data(&[0x01]);
    assert_eq!(renderer.take_responses(), vec![0x12]);
    assert!(renderer.buffer.is_empty());
    assert!(!renderer.in_command_sequence);
}

#[test]
fn dle_other_commands() {
    let renderer = run(&[&[0x10, 0x14, 0x01, 0x02, b'A', 0x10, 0x33, b'B']]);
    assert!(renderer.response_queue.is_empty());
    assert_eq!(renderer.current_line, b"AB".to_vec());
}

#[test]
fn identity_query_scenario() {
    let mut renderer = run(&[&[0x1D, 0x49, 0x42]]);
    assert_eq!(
        renderer.take_responses(),
        vec![0x5F, b'C', b'I', b'T', b'I', b'Z', b'E', b'N', 0x00]
    );
    assert!(renderer.elements.is_empty());
}

#[test]
fn model_query() {
    let mut renderer = run(&[&[0x1D, 0x49, 0x43]]);
    assert_eq!(
        renderer.take_responses(),
        vec![0x5F, b'C', b'T', b'-', b'S', b'3', b'1', b'0', 0x00]
    );
    let mut other = run(&[&[0x1D, 0x49, 0x44]]);
    assert!(other.take_responses().is_empty());
}

#[test]
fn transmit_status_and_automatic_status() {
    let mut renderer = run(&[&[0x1D, 0x72, 0x01]]);
    assert_eq!(renderer.take_responses(), vec![0x08]);
    let mut on = run(&[&[0x1D, 0x61, 0xFF]]);
    assert_eq!(on.take_responses(), vec![0x10, 0x00, 0x00, 0x00]);
    let mut off = run(&[&[0x1D, 0x61, 0x00]]);
    assert!(off.take_responses().is_empty());
}

#[test]
fn qr_round_trip_scenario() {
    let mut renderer = EscPosRenderer::new(false);
    // model select
    renderer.process_data(&[0x1D, 0x28, 0x6B, 0x04, 0x00, 0x31, 0x41, 0x32, 0x00]);
    // store "hello", len = 8
    renderer.process_data(&[
        0x1D, 0x28, 0x6B, 0x08, 0x00, 0x31, 0x50, 0x30, b'h', b'e', b'l', b'l', b'o',
    ]);
    assert_eq!(renderer.qr_data, b"hello".to_vec());
    // print
    renderer.process_data(&[0x1D, 0x28, 0x6B, 0x03, 0x00, 0x31, 0x51, 0x30]);
    assert_eq!(
        renderer.elements,
        vec![ReceiptElement::QrCode {
            data: "hello".to_string(),
            size: 3,
            alignment: Alignment::Left,
            offset: 0,
            print_area_width: 0,
        }]
    );
    assert!(renderer.qr_data.is_empty());
}

#[test]
fn qr_size_is_held_to_1_through_16() {
    for (stored, expected) in [(0u8, 1usize), (1, 1), (5, 5), (16, 16), (17, 16), (255, 16)] {
        let mut renderer = EscPosRenderer::new(false);
        renderer.process_data(&[0x1D, 0x28, 0x6B, 0x03, 0x00, 0x31, 0x43, stored]);
        assert_eq!(renderer.qr_size, stored);
        renderer.process_data(&[0x1D, 0x28, 0x6B, 0x04, 0x00, 0x31, 0x50, 0x30, b'x']);
        renderer.process_data(&[0x1D, 0x28, 0x6B, 0x03, 0x00, 0x31, 0x51, 0x30]);
        match &renderer.elements[0] {
            ReceiptElement::QrCode { data, size, .. } => {
                assert_eq!(data, "x");
                assert_eq!(*size, expected);
            }
            other => panic!("not a QR element: {:?}", other),
        }
    }
}

#[test]
fn qr_print_flushes_the_line_and_uses_the_offset() {
    let mut renderer = EscPosRenderer::new(false);
    renderer.process_data(&[0x1B, 0x61, 0x02]);
    renderer.process_data(&[0x1D, 0x28, 0x6B, 0x03, 0x00, 0x31, 0x45, 0x31]);
    assert_eq!(renderer.qr_error_correction, 0x31);
    renderer.process_data(&[0x1D, 0x28, 0x6B, 0x05, 0x00, 0x31, 0x50, 0x30, b'o', b'k']);
    renderer.process_data(b"ab");
    renderer.process_data(&[0x1B, 0x24, 0x10, 0x00]);
    renderer.process_data(&[0x1D, 0x28, 0x6B, 0x03, 0x00, 0x31, 0x51, 0x30]);
    assert_eq!(renderer.elements.len(), 2);
    match &renderer.elements[0] {
        ReceiptElement::Text { content, offset, .. } => {
            assert_eq!(content, "ab");
            assert_eq!(*offset, 16);
        }
        other => panic!("not a text element: {:?}", other),
    }
    match &renderer.elements[1] {
        ReceiptElement::QrCode { data, offset, alignment, .. } => {
            assert_eq!(data, "ok");
            assert_eq!(*offset, 0);
            assert_eq!(*alignment, Alignment::Right);
        }
        other => panic!("not a QR element: {:?}", other),
    }
    assert_eq!(renderer.state.horizontal_offset, 0);
}

#[test]
fn qr_print_without_payload_emits_nothing() {
    let renderer = run(&[&[0x1D, 0x28, 0x6B, 0x03, 0x00, 0x31, 0x51, 0x30]]);
    assert!(renderer.elements.is_empty());
}

#[test]
fn qr_other_family_and_function_are_skipped_by_length() {
    // cn = 50: skip len - 2 = 3 bytes after fn
    let renderer = run(&[&[0x1D, 0x28, 0x6B, 0x05, 0x00, 0x32, 0x50, b'x', b'y', b'z', b'A']]);
    assert_eq!(renderer.current_line, b"A".to_vec());
    assert!(renderer.qr_data.is_empty());
    // cn = 49, fn = 82: skip len - 2 = 1 byte after fn
    let other = run(&[&[0x1D, 0x28, 0x6B, 0x03, 0x00, 0x31, 0x52, b'x', b'B']]);
    assert_eq!(other.current_line, b"B".to_vec());
}

#[test]
fn qr_store_waits_for_its_payload() {
    let mut renderer = EscPosRenderer::new(false);
    renderer.process_data(&[0x1D, 0x28, 0x6B, 0x08, 0x00, 0x31, 0x50, 0x30, b'h', b'e']);
    assert!(renderer.qr_data.is_empty());
    assert_eq!(renderer.buffer.len(), 10);
    assert!(renderer.in_command_sequence);
    renderer.process_data(b"llo");
    assert_eq!(renderer.qr_data, b"hello".to_vec());
    assert!(renderer.buffer.is_empty());
    assert!(renderer.current_line.is_empty());
}

#[test]
fn split_raster_scenario() {
    let mut renderer = EscPosRenderer::new(false);
    renderer.process_data(&[0x1B, 0x2A, 0x00, 0x08, 0x00]);
    assert!(renderer.elements.is_empty());
    assert_eq!(renderer.buffer, vec![0x1B, 0x2A, 0x00, 0x08, 0x00]);
    renderer.process_data(&[0xAA, 0x55, 0xAA, 0x55, 0xAA, 0x55, 0xAA, 0x55]);
    assert_eq!(
        renderer.elements,
        vec![ReceiptElement::RasterImage {
            width: 8,
            height: 8,
            data: vec![0xAA, 0x55, 0xAA, 0x55, 0xAA, 0x55, 0xAA, 0x55],
            offset: 0,
            density: 4,
            alignment: Alignment::Left,
            bytes_per_line: 1,
            print_area_width: 0,
        }]
    );
    assert!(renderer.current_line.is_empty());
    assert!(renderer.buffer.is_empty());
}

#[test]
fn gs_character_size_scenario() {
    let renderer = run(&[&[0x1D, 0x21, 0x11]]);
    assert!(renderer.state.double_width);
    assert!(renderer.state.double_height);
    let wide = run(&[&[0x1D, 0x21, 0x01]]);
    assert!(wide.state.double_width);
    assert!(!wide.state.double_height);
    let tall = run(&[&[0x1D, 0x21, 0x70]]);
    assert!(!tall.state.double_width);
    assert!(tall.state.double_height);
    let plain = run(&[&[0x1D, 0x21, 0x11, 0x1D, 0x21, 0x88]]);
    assert!(!plain.state.double_width);
    assert!(!plain.state.double_height);
}

#[test]
fn paper_cut_kinds() {
    for (mode, kind) in [
        (0u8, CutKind::Full),
        (48, CutKind::Full),
        (1, CutKind::Partial),
        (49, CutKind::Partial),
        (65, CutKind::FeedAndFull),
        (66, CutKind::FeedAndPartial),
        (2, CutKind::Unknown),
        (255, CutKind::Unknown),
    ] {
        let renderer = run(&[&[0x1D, 0x56, mode]]);
        assert_eq!(renderer.elements, vec![ReceiptElement::PaperCut { cut_type: kind }]);
        assert_eq!(CutKind::from_mode(mode), kind);
    }
    assert_eq!(CutKind::Full.label(), "FULL CUT");
    assert_eq!(CutKind::Partial.label(), "PARTIAL CUT");
    assert_eq!(CutKind::FeedAndFull.label(), "FEED & FULL CUT");
    assert_eq!(CutKind::FeedAndPartial.label(), "FEED & PARTIAL CUT");
    assert_eq!(CutKind::Unknown.label(), "UNKNOWN CUT");
}

#[test]
fn paper_cut_leaves_the_line_for_its_terminator() {
    let renderer = run(&[b"ab", &[0x1D, 0x56, 0x00], &[0x0A]]);
    assert_eq!(renderer.elements.len(), 2);
    assert_eq!(renderer.elements[0], ReceiptElement::PaperCut { cut_type: CutKind::Full });
    match &renderer.elements[1] {
        ReceiptElement::Text { content, .. } => assert_eq!(content, "ab"),
        other => panic!("not a text element: {:?}", other),
    }
}

#[test]
fn cash_drawer_pulse() {
    let renderer = run(&[&[0x1B, 0x70, 0x01, 0x32, 0x64]]);
    assert_eq!(
        renderer.elements,
        vec![ReceiptElement::CashDrawer { pin: 1, on_time: 0x32, off_time: 0x64 }]
    );
}

#[test]
fn fresh_renderer() {
    let renderer = EscPosRenderer::new(true);
    assert!(renderer.debug);
    assert_eq!(renderer.state, PrinterState::default());
    assert!(renderer.current_line.is_empty());
    assert!(renderer.buffer.is_empty());
    assert!(renderer.elements.is_empty());
    assert!(renderer.response_queue.is_empty());
    assert!(!renderer.in_command_sequence);
    assert!(!renderer.last_was_binary);
    assert!(renderer.qr_data.is_empty());
    assert_eq!(renderer.qr_size, 3);
    assert_eq!(renderer.qr_error_correction, 0);
    assert!(!EscPosRenderer::new(false).debug);
}

#[test]
fn default_printer_state() {
    let state = PrinterState::default();
    assert!(!state.bold && !state.underline && !state.double_width && !state.double_height);
    assert!(!state.inverted && !state.double_strike);
    assert_eq!(state.alignment, Alignment::Left);
    assert_eq!(state.print_density, 4);
    assert_eq!(state.code_page, 0);
    assert_eq!(state.horizontal_offset, 0);
    assert_eq!(state.left_margin, 0);
    assert_eq!(state.print_area_width, 0);
    assert_eq!(state.line_spacing, 30);
    assert_eq!(state.character_spacing, 0);
    assert_eq!(state.font, 0);
}

#[test]
fn take_elements_empties_the_queue() {
    let mut renderer = run(&[b"a\x0Ab\x0A"]);
    let taken = renderer.take_elements();
    assert_eq!(taken.len(), 2);
    assert!(renderer.elements.is_empty());
    // With the queue drained, a blank line right after is not fed
    renderer.process_data(b"\x0A");
    assert!(renderer.elements.is_empty());
    assert!(renderer.take_elements().is_empty());
}

#[test]
fn qr_print_takes_its_whole_block() {
    let mut renderer = EscPosRenderer::new(false);
    renderer.process_data(&[0x1D, 0x28, 0x6B, 0x04, 0x00, 0x31, 0x50, 0x30, b'x']);
    renderer.process_data(&[0x1D, 0x28, 0x6B, 0x03, 0x00, 0x31, 0x51]);
    // the block of three bytes is not complete yet
    assert!(renderer.elements.is_empty());
    assert_eq!(renderer.buffer.len(), 7);
    renderer.process_data(&[0x30, b'A', 0x0A]);
    assert_eq!(renderer.elements.len(), 2);
    match &renderer.elements[1] {
        ReceiptElement::Text { content, .. } => assert_eq!(content, "A"),
        other => panic!("not a text element: {:?}", other),
    }
}

#[test]
fn qr_settings_take_one_byte() {
    // the second parameter byte of the model select is read on its own
    let renderer = run(&[&[0x1D, 0x28, 0x6B, 0x04, 0x00, 0x31, 0x41, 0x32, 0x41]]);
    assert_eq!(renderer.current_line, b"A".to_vec());
    assert_eq!(renderer.qr_size, 3);
}
