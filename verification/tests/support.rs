use escpresso::element::ReceiptElement;
use escpresso::paper::PaperSize;
use escpresso::paper::DOTS_PER_CHAR;
use escpresso::receipt::AppState;
use escpresso::state::Alignment;
use escpresso::state::PrinterState;

#[test]
fn paper_sizes() {
    assert_eq!(PaperSize::Size58mm.chars_per_line(), 32);
    assert_eq!(PaperSize::Size80mm.chars_per_line(), 48);
    assert_eq!(PaperSize::Size58mm.width_dots(), 384);
    assert_eq!(PaperSize::Size80mm.width_dots(), 576);
    assert_eq!(PaperSize::Size58mm.label(), "58mm");
    assert_eq!(PaperSize::Size80mm.label(), "80mm");
    assert_eq!(DOTS_PER_CHAR, 12);
}

#[test]
fn app_state_starts_empty_on_80mm() {
    let state = AppState::new();
    assert!(state.elements.is_empty());
    assert!(state.connections.is_empty());
    assert_eq!(state.paper_size, PaperSize::Size80mm);
}

#[test]
fn app_state_gathers_and_clears() {
    let mut state = AppState::new();
    state.connections.push("Connected: 127.0.0.1:5000".to_string());
    state.extend_elements(vec![ReceiptElement::Separator, ReceiptElement::FormFeed]);
    state.extend_elements(vec![]);
    state.extend_elements(vec![ReceiptElement::CashDrawer { pin: 0, on_time: 1, off_time: 2 }]);
    assert_eq!(
        state.elements,
        vec![
            ReceiptElement::Separator,
            ReceiptElement::FormFeed,
            ReceiptElement::CashDrawer { pin: 0, on_time: 1, off_time: 2 },
        ]
    );
    state.clear();
    assert!(state.elements.is_empty());
    assert_eq!(state.connections.len(), 1);
    assert_eq!(state.paper_size, PaperSize::Size80mm);
}

#[test]
fn paper_change_tears_the_receipt_off() {
    let mut state = AppState::new();
    state.extend_elements(vec![ReceiptElement::Separator]);
    assert!(!state.select_paper_size(PaperSize::Size80mm));
    assert_eq!(state.elements.len(), 1);
    assert!(state.select_paper_size(PaperSize::Size58mm));
    assert_eq!(state.paper_size, PaperSize::Size58mm);
    assert!(state.elements.is_empty());
    state.extend_elements(vec![ReceiptElement::Separator]);
    assert!(!state.select_paper_size(PaperSize::Size58mm));
    assert_eq!(state.elements.len(), 1);
}

#[test]
fn elements_built_from_the_state() {
    let mut state = PrinterState::default();
    state.bold = true;
    state.alignment = Alignment::Right;
    state.print_density = 6;
    state.horizontal_offset = 40;
    state.left_margin = 8;
    state.print_area_width = 384;
    state.character_spacing = 1;
    state.font = 2;
    state.underline = true;
    state.inverted = true;
    assert_eq!(
        state.text_element("abc".to_string()),
        ReceiptElement::Text {
            content: "abc".to_string(),
            bold: true,
            underline: true,
            double_width: false,
            double_height: false,
            inverted: true,
            alignment: Alignment::Right,
            density: 6,
            offset: 40,
            left_margin: 8,
            character_spacing: 1,
            double_strike: false,
            font: 2,
            print_area_width: 384,
        }
    );
    assert_eq!(
        state.raster_element(16, 2, vec![1, 2, 3, 4], 2),
        ReceiptElement::RasterImage {
            width: 16,
            height: 2,
            data: vec![1, 2, 3, 4],
            offset: 40,
            density: 6,
            alignment: Alignment::Right,
            bytes_per_line: 2,
            print_area_width: 384,
        }
    );
    assert_eq!(
        state.qr_element("q".to_string(), 40),
        ReceiptElement::QrCode {
            data: "q".to_string(),
            size: 16,
            alignment: Alignment::Right,
            offset: 40,
            print_area_width: 384,
        }
    );
    assert_eq!(
        state.qr_element("q".to_string(), 0),
        ReceiptElement::QrCode {
            data: "q".to_string(),
            size: 1,
            alignment: Alignment::Right,
            offset: 40,
            print_area_width: 384,
        }
    );
}
