use pasteboost::listener::image_signature;
use pasteboost::listener::observe_clipboard;
use pasteboost::listener::{
    describe_image, image_content, listener_step, picture_signature, prepare_image_entry,
    screenshot_file_name, ClipboardObservation, ListenerAction,
};
use pasteboost::pixels::Picture;

#[test]
fn image_description_text() {
    assert_eq!(describe_image(1920, 1080, 0xabc), "[图片] 1920 x 1080 #0000000000000abc");
    assert_eq!(describe_image(0, 7, u64::MAX), "[图片] 0 x 7 #ffffffffffffffff");
    assert_eq!(
        describe_image(u32::MAX, 10, 0x0123456789abcdef),
        format!("[图片] {} x 10 #0123456789abcdef", u32::MAX)
    );
}

#[test]
fn image_content_uses_signature() {
    let p = Picture::new(2, 1, vec![1, 2, 3, 4, 5, 6, 7, 8]).unwrap();
    let sig = picture_signature(&p);
    assert_eq!(image_content(&p), format!("[图片] 2 x 1 #{:016x}", sig));
    assert_eq!(picture_signature(&p), sig);
    let q = Picture::new(2, 1, vec![1, 2, 3, 4, 5, 6, 7, 9]).unwrap();
    assert_ne!(picture_signature(&q), sig);
}

#[test]
fn image_entry_has_label_and_data() {
    let p = Picture::new(1, 1, vec![9, 8, 7, 255]).unwrap();
    let e = prepare_image_entry(&p).ok().unwrap();
    assert!(e.content.starts_with("[图片] 1 x 1 #"));
    assert!(e.image_data.starts_with("data:image/png;base64,"));
}

#[test]
fn screenshot_names() {
    assert_eq!(screenshot_file_name(1700000000123), "pasteboost-screenshot-1700000000123.png");
    assert_eq!(screenshot_file_name(0), "pasteboost-screenshot-0.png");
}

#[test]
fn listener_stores_new_content_once() {
    let mut last = String::new();
    let text = ClipboardObservation::Text { content: "hello".to_string() };
    assert_eq!(listener_step(&mut last, true, &text), ListenerAction::StoreText);
    assert_eq!(last, "text:hello");
    assert_eq!(listener_step(&mut last, true, &text), ListenerAction::Idle);
    let image = ClipboardObservation::Image { signature: 255 };
    assert_eq!(listener_step(&mut last, true, &image), ListenerAction::StoreImage);
    assert_eq!(last, "image:00000000000000ff");
    assert_eq!(listener_step(&mut last, true, &image), ListenerAction::Idle);
    assert_eq!(listener_step(&mut last, true, &text), ListenerAction::StoreText);
}

#[test]
fn listener_idle_when_paused_or_empty() {
    let mut last = "text:a".to_string();
    let text = ClipboardObservation::Text { content: "b".to_string() };
    assert_eq!(listener_step(&mut last, false, &text), ListenerAction::Idle);
    assert_eq!(last, "text:a");
    assert_eq!(listener_step(&mut last, true, &ClipboardObservation::Nothing), ListenerAction::Idle);
    assert_eq!(last, "text:a");
}

#[test]
fn listener_sees_empty_text_as_content() {
    let mut last = String::new();
    let empty = ClipboardObservation::Text { content: String::new() };
    assert_eq!(listener_step(&mut last, true, &empty), ListenerAction::StoreText);
    assert_eq!(last, "text:");
}

#[test]
fn text_that_looks_like_an_image_signature_is_still_text() {
    let mut last = String::new();
    let text = ClipboardObservation::Text { content: "image:00000000000000ff".to_string() };
    assert_eq!(listener_step(&mut last, true, &text), ListenerAction::StoreText);
    let image = ClipboardObservation::Image { signature: 255 };
    assert_eq!(listener_step(&mut last, true, &image), ListenerAction::StoreImage);
}

#[test]
fn search_pattern_wraps_query() {
    assert_eq!(pasteboost::format::like_pattern("abc"), "%abc%");
    assert_eq!(pasteboost::format::like_pattern(""), "%%");
    assert_eq!(pasteboost::format::like_pattern("剪贴"), "%剪贴%");
}

#[test]
fn equal_pictures_have_equal_signatures() {
    let a = Picture::new(2, 1, vec![1, 2, 3, 4, 5, 6, 7, 8]).unwrap();
    let b = Picture::new(2, 1, vec![1, 2, 3, 4, 5, 6, 7, 8]).unwrap();
    let c = Picture::new(1, 2, vec![1, 2, 3, 4, 5, 6, 7, 8]).unwrap();
    assert_eq!(picture_signature(&a), picture_signature(&b));
    assert_ne!(picture_signature(&a), picture_signature(&c));
    assert_eq!(image_content(&a), image_content(&b));
}

#[test]
fn image_is_preferred_to_text() {
    assert!(matches!(
        observe_clipboard(Some(7), Some("t".to_string())),
        ClipboardObservation::Image { signature: 7 }
    ));
    match observe_clipboard(None, Some("t".to_string())) {
        ClipboardObservation::Text { content } => assert_eq!(content, "t"),
        _ => panic!("expected text"),
    }
    assert!(matches!(observe_clipboard(None, None), ClipboardObservation::Nothing));
}

#[test]
fn image_signature_matches_picture_signature() {

    let rgba = vec![5u8, 6, 7, 8];
    let p = Picture::new(1, 1, rgba.clone()).unwrap();
    assert_eq!(image_signature(1, 1, &rgba), picture_signature(&p));
    assert_eq!(image_signature(1, 1, &[1, 2, 3]), image_signature(1, 1, &[1, 2, 3]));
}
