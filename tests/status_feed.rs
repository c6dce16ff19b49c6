use little_shader_display::status_feed::{status_value_texts, MessageBuffer, StatusError};

fn texts(v: &[&str]) -> Vec<String> {
    v.iter().map(|s| s.to_string()).collect()
}

/// What the renderer makes of a value text: clamped to [-10, 10], then scaled to [-1, 1].
fn scaled(t: &str) -> f32 {
    let v: f32 = t.parse().unwrap();
    v.clamp(-10.0, 10.0) / 10.0
}

#[test]
fn status_line_gives_its_three_values() {
    let r = status_value_texts("x:3,y:-15,z:0");
    assert_eq!(r, Ok(Some(texts(&["3", "-15", "0"]))));
    let v: Vec<f32> = r.unwrap().unwrap().iter().map(|t| scaled(t)).collect();
    assert_eq!(v, vec![0.3, -1.0, 0.0]);
}

#[test]
fn empty_status_line_gives_no_values() {
    assert_eq!(status_value_texts(""), Ok(None));
    assert_eq!(status_value_texts("  \t\n"), Ok(None));
}

#[test]
fn values_are_trimmed_and_labels_dropped() {
    assert_eq!(status_value_texts(" a : 1 ,b:2.5, c:\t-3 "), Ok(Some(texts(&["1", "2.5", "-3"]))));
    assert_eq!(status_value_texts("a:1:9,b:2,c:3"), Ok(Some(texts(&["1", "2", "3"]))));
}

#[test]
fn field_without_value_is_an_error() {
    assert_eq!(status_value_texts("x:1,y,z:3"), Err(StatusError::MissingValue));
    assert_eq!(status_value_texts("x:1,y"), Err(StatusError::MissingValue));
}

#[test]
fn other_than_three_fields_is_an_error() {
    assert_eq!(status_value_texts("x:1,y:2"), Err(StatusError::WrongFieldCount));
    assert_eq!(status_value_texts("x:1,y:2,z:3,w:4"), Err(StatusError::WrongFieldCount));
}

#[test]
fn buffer_returns_complete_lines_only() {
    let mut b = MessageBuffer::new();
    assert!(b.push_chunk(b"x:1,y:2").is_empty());
    assert_eq!(b.push_chunk(b",z:3\nx:4"), texts(&["x:1,y:2,z:3"]));
    assert_eq!(b.push_chunk(b",y:5,z:6\r\n\n"), texts(&["x:4,y:5,z:6", ""]));
    assert!(b.push_chunk(b"").is_empty());
}

#[test]
fn buffer_trims_lines() {
    let mut b = MessageBuffer::new();
    assert_eq!(b.push_chunk(b"  a:1 \n\tb:2\n"), texts(&["a:1", "b:2"]));
}

#[test]
fn invalid_utf8_drops_the_pending_text() {
    let mut b = MessageBuffer::new();
    assert!(b.push_chunk(b"x:1,").is_empty());
    assert!(b.push_chunk(&[0xFF, b'\n']).is_empty());
    assert_eq!(b.push_chunk(b"y:2\n"), texts(&["y:2"]));
}

#[test]
fn multibyte_text_passes_through() {
    let mut b = MessageBuffer::new();
    assert_eq!(b.push_chunk("é:1\u{3000}\n".as_bytes()), texts(&["é:1"]));
}
