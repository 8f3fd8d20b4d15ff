use pixel_canvas::canvas::{Canvas, HEIGHT, SIZE, WIDTH};
use pixel_canvas::document::CanvasError;
use pixel_canvas::session::{keeps_running, BLACK, WHITE};

#[test]
fn new_canvas_is_blank() {
    let c = Canvas::new();
    assert_eq!(c.pixels().len(), WIDTH * HEIGHT);
    assert!(c.pixels().iter().all(|&p| p == 0));
}

#[test]
fn set_then_get_in_range() {
    let mut c = Canvas::new();
    c.set_pixel(3, 7, 1);
    assert_eq!(c.get_pixel(3, 7), Some(1));
    assert_eq!(c.pixels()[7 * WIDTH + 3], 1);
    assert_eq!(c.pixels().iter().filter(|&&p| p != 0).count(), 1);
    assert_eq!(c.get_pixel(7, 3), Some(0));
}

#[test]
fn set_at_corners() {
    let mut c = Canvas::new();
    c.set_pixel(0, 0, 1);
    c.set_pixel(511, 511, 1);
    assert_eq!(c.get_pixel(0, 0), Some(1));
    assert_eq!(c.get_pixel(511, 511), Some(1));
    assert_eq!(c.pixels()[SIZE - 1], 1);
}

#[test]
fn set_out_of_range_is_ignored() {
    let mut c = Canvas::new();
    c.set_pixel(512, 0, 1);
    c.set_pixel(0, 512, 1);
    c.set_pixel(usize::MAX, usize::MAX, 1);
    assert!(c.pixels().iter().all(|&p| p == 0));
    assert_eq!(c.get_pixel(512, 0), None);
    assert_eq!(c.get_pixel(0, 512), None);
}

#[test]
fn set_can_overwrite() {
    let mut c = Canvas::new();
    c.set_pixel(10, 10, 1);
    c.set_pixel(10, 10, 0);
    assert_eq!(c.get_pixel(10, 10), Some(0));
}

#[test]
fn serialize_two_corners() {
    let mut c = Canvas::new();
    c.set_pixel(0, 0, 1);
    c.set_pixel(511, 511, 1);
    let text = c.to_json().unwrap();
    let value: serde_json::Value = serde_json::from_slice(&text).unwrap();
    let pixels = value.get("pixels").unwrap().as_array().unwrap();
    assert_eq!(pixels.len(), 262144);
    for (i, p) in pixels.iter().enumerate() {
        let expected = if i == 0 || i == 262143 { 1 } else { 0 };
        assert_eq!(p.as_u64().unwrap(), expected);
    }
}

#[test]
fn document_text_is_compact() {
    let mut c = Canvas::new();
    c.set_pixel(1, 0, 1);
    let text = c.to_json().unwrap();
    assert!(text.starts_with(b"{\"pixels\":[0,1,0,0"));
    assert!(text.ends_with(b",0,0]}"));
    assert_eq!(text.len(), 10 + 2 + (2 * SIZE - 1) + 1);
}

#[test]
fn blank_canvas_round_trip() {
    let c = Canvas::new();
    let text = c.to_json().unwrap();
    let value: serde_json::Value = serde_json::from_slice(&text).unwrap();
    let pixels = value.get("pixels").unwrap().as_array().unwrap();
    assert_eq!(pixels.len(), 262144);
    assert!(pixels.iter().all(|p| p.as_u64() == Some(0)));
    let back = Canvas::from_json(&text).unwrap();
    assert!(back.pixels().iter().all(|&p| p == 0));
    assert_eq!(back.pixels().len(), SIZE);
}

#[test]
fn painted_canvas_round_trip() {
    let mut c = Canvas::new();
    for k in 0..512 {
        c.set_pixel(k, k, 1);
        c.set_pixel(511 - k, k, 1);
    }
    c.set_pixel(100, 200, 1);
    let text = c.to_json().unwrap();
    let back = Canvas::from_json(&text).unwrap();
    assert_eq!(back.pixels(), c.pixels());
}

#[test]
fn load_rejects_short_array() {
    let text = b"{\"pixels\":[0,1,0]}";
    match Canvas::from_json(text) {
        Err(e) => assert_eq!(e, CanvasError::LengthMismatch { found: 3 }),
        Ok(_) => panic!("a short array must be refused"),
    }
}

#[test]
fn load_rejects_long_array() {
    let mut text = b"{\"pixels\":[".to_vec();
    for i in 0..(SIZE + 1) {
        if i > 0 {
            text.push(b',');
        }
        text.push(b'0');
    }
    text.extend_from_slice(b"]}");
    match Canvas::from_json(&text) {
        Err(e) => assert_eq!(e, CanvasError::LengthMismatch { found: SIZE + 1 }),
        Ok(_) => panic!("a long array must be refused"),
    }
}

#[test]
fn load_rejects_empty_array() {
    match Canvas::from_json(b"{\"pixels\":[]}") {
        Err(e) => assert_eq!(e, CanvasError::LengthMismatch { found: 0 }),
        Ok(_) => panic!("an empty array must be refused"),
    }
}

#[test]
fn load_rejects_malformed_text() {
    for text in [
        &b""[..],
        &b"not json"[..],
        &b"{\"pixels\":[0,1}"[..],
        &b"{\"pixels\":[0,\"a\"]}"[..],
        &b"{\"pixels\":[0,256]}"[..],
        &b"{\"colours\":[0,1]}"[..],
        &b"{\"pixels\":[0,1]"[..],
    ] {
        match Canvas::from_json(text) {
            Err(e) => assert_eq!(e, CanvasError::Parse),
            Ok(_) => panic!("malformed text must be refused"),
        }
    }
}

#[test]
fn load_accepts_spaces_inside_array() {
    let mut text = b"{\"pixels\": [ 1".to_vec();
    for _ in 1..SIZE {
        text.extend_from_slice(b", 0");
    }
    text.extend_from_slice(b" ]}");
    let c = Canvas::from_json(&text).unwrap();
    assert_eq!(c.get_pixel(0, 0), Some(1));
    assert_eq!(c.get_pixel(1, 0), Some(0));
}

#[test]
fn from_pixels_checks_length() {
    let ok = Canvas::from_pixels(vec![1u8; SIZE]).unwrap();
    assert_eq!(ok.get_pixel(511, 511), Some(1));
    match Canvas::from_pixels(vec![0u8; 10]) {
        Err(e) => assert_eq!(e, CanvasError::LengthMismatch { found: 10 }),
        Ok(_) => panic!("ten cells are not a canvas"),
    }
}

#[test]
fn render_single_cell() {
    let mut c = Canvas::new();
    c.set_pixel(5, 2, 1);
    let mut buffer = vec![0x123456u32; SIZE];
    c.render_into(&mut buffer);
    for (i, &rgb) in buffer.iter().enumerate() {
        if i == 2 * WIDTH + 5 {
            assert_eq!(rgb, 0xFFFFFF);
        } else {
            assert_eq!(rgb, 0x000000);
        }
    }
    assert_eq!(WHITE, 0xFFFFFF);
    assert_eq!(BLACK, 0x000000);
}

#[test]
fn render_shows_other_values_black() {
    let mut c = Canvas::new();
    c.set_pixel(0, 0, 2);
    c.set_pixel(1, 0, 1);
    let mut buffer = vec![0u32; SIZE];
    c.render_into(&mut buffer);
    assert_eq!(buffer[0], 0x000000);
    assert_eq!(buffer[1], 0xFFFFFF);
}

#[test]
fn input_paints_only_with_button_held() {
    let mut c = Canvas::new();
    c.apply_input(false, Some((4, 4)));
    assert_eq!(c.get_pixel(4, 4), Some(0));
    c.apply_input(true, None);
    assert!(c.pixels().iter().all(|&p| p == 0));
    c.apply_input(true, Some((4, 4)));
    assert_eq!(c.get_pixel(4, 4), Some(1));
    c.apply_input(true, Some((600, 4)));
    assert_eq!(c.pixels().iter().filter(|&&p| p != 0).count(), 1);
}

#[test]
fn session_runs_until_closed_or_escape() {
    assert!(keeps_running(true, false));
    assert!(!keeps_running(false, false));
    assert!(!keeps_running(true, true));
    assert!(!keeps_running(false, true));
}

#[test]
fn load_accepts_whitespace_around_tokens() {
    let mut text = b" \n{ \"pixels\"\t:\r\n[0".to_vec();
    for _ in 1..SIZE - 1 {
        text.extend_from_slice(b",0");
    }
    text.extend_from_slice(b",1] }\n");
    let c = Canvas::from_json(&text).unwrap();
    assert_eq!(c.get_pixel(511, 511), Some(1));
    assert_eq!(c.get_pixel(0, 0), Some(0));
}

#[test]
fn load_rejects_text_after_document() {
    let mut c = Canvas::new();
    c.set_pixel(0, 0, 1);
    let mut text = c.to_json().unwrap();
    text.extend_from_slice(b" x");
    match Canvas::from_json(&text) {
        Err(e) => assert_eq!(e, CanvasError::Parse),
        Ok(_) => panic!("trailing text must be refused"),
    }
}

#[test]
fn load_reads_escaped_key_short_array() {
    match Canvas::from_json(b"{\"\\u0070ixels\":[0]}") {
        Err(e) => assert_eq!(e, CanvasError::LengthMismatch { found: 1 }),
        Ok(_) => panic!("a one-value array must be refused"),
    }
}

#[test]
fn load_reads_escaped_key_full_array() {
    let mut text = b"{\"pi\\u0078els\" : [1".to_vec();
    for _ in 1..SIZE {
        text.extend_from_slice(b",0");
    }
    text.extend_from_slice(b"]}");
    let c = Canvas::from_json(&text).unwrap();
    assert_eq!(c.get_pixel(0, 0), Some(1));
    assert_eq!(c.pixels().iter().filter(|&&p| p != 0).count(), 1);
}

#[test]
fn load_rejects_other_key_with_escapes() {
    for text in [
        &b"{\"pix\\\"els\":[0]}"[..],
        &b"{\"\\u0070ixel\":[0]}"[..],
        &b"{\"pixels:[0]}"[..],
        &b"{\"pixels\\"[..],
    ] {
        match Canvas::from_json(text) {
            Err(e) => assert_eq!(e, CanvasError::Parse),
            Ok(_) => panic!("a document keyed otherwise must be refused"),
        }
    }
}

#[test]
fn save_always_succeeds() {
    let mut c = Canvas::new();
    for v in 0..=255u8 {
        c.set_pixel(v as usize, 0, v);
    }
    let text = c.to_json().unwrap();
    let back = Canvas::from_json(&text).unwrap();
    assert_eq!(back.pixels(), c.pixels());
}
