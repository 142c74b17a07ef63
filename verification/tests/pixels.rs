use pasteboost::pixels::{
    check_capture_area, crop_pixels, dib_bytes, picture_from_screen_pixels,
    success_tray_icon_rgba, Picture,
};

fn picture(width: u32, height: u32) -> Picture {
    let rgba: Vec<u8> = (0..(width * height * 4)).map(|i| i as u8).collect();
    Picture::new(width, height, rgba).unwrap()
}

#[test]
fn picture_needs_four_bytes_per_pixel() {
    assert!(Picture::new(2, 2, vec![0; 16]).is_some());
    assert!(Picture::new(2, 2, vec![0; 15]).is_none());
    assert!(Picture::new(0, 5, vec![]).is_some());
    let p = picture(3, 1);
    assert_eq!(p.width(), 3);
    assert_eq!(p.height(), 1);
    assert_eq!(p.rgba().len(), 12);
}

#[test]
fn dib_of_two_by_two() {
    let p = picture(2, 2);
    let dib = dib_bytes(&p).ok().unwrap();
    assert_eq!(dib.len(), 40 + 8 * 2);
    assert_eq!(&dib[0..4], &40u32.to_le_bytes());
    assert_eq!(&dib[4..8], &2i32.to_le_bytes());
    assert_eq!(&dib[8..12], &2i32.to_le_bytes());
    assert_eq!(&dib[12..14], &1u16.to_le_bytes());
    assert_eq!(&dib[14..16], &24u16.to_le_bytes());
    assert_eq!(&dib[16..20], &[0, 0, 0, 0]);
    assert_eq!(&dib[20..24], &16u32.to_le_bytes());
    assert!(dib[24..40].iter().all(|b| *b == 0));
    // bottom row first: source row 1 holds bytes 8..16
    assert_eq!(&dib[40..48], &[10, 9, 8, 14, 13, 12, 0, 0]);
    assert_eq!(&dib[48..56], &[2, 1, 0, 6, 5, 4, 0, 0]);
}

#[test]
fn dib_row_padding() {
    let p = picture(3, 1);
    let dib = dib_bytes(&p).ok().unwrap();
    assert_eq!(dib.len(), 40 + 12);
    assert_eq!(&dib[40..52], &[2, 1, 0, 6, 5, 4, 10, 9, 8, 0, 0, 0]);
    let p = picture(5, 1);
    assert_eq!(dib_bytes(&p).ok().unwrap().len(), 40 + 16);
}

#[test]
fn dib_rejects_empty_picture() {
    let p = Picture::new(0, 3, vec![]).unwrap();
    assert_eq!(dib_bytes(&p).err().unwrap(), "图片尺寸无效");
}

#[test]
fn crop_cuts_rectangle() {
    let p = picture(3, 3);
    let c = crop_pixels(&p, 1, 1, 3, 2).ok().unwrap();
    assert_eq!(c.width(), 2);
    assert_eq!(c.height(), 1);
    assert_eq!(c.rgba(), &[16, 17, 18, 19, 20, 21, 22, 23]);
    let whole = crop_pixels(&p, 0, 0, 3, 3).ok().unwrap();
    assert_eq!(whole.rgba(), p.rgba());
}

#[test]
fn crop_rejects_empty_rectangle() {
    let p = picture(3, 3);
    assert_eq!(crop_pixels(&p, 2, 0, 2, 3).err().unwrap(), "截图区域太小");
    assert_eq!(crop_pixels(&p, 2, 1, 1, 3).err().unwrap(), "截图区域太小");
    assert_eq!(crop_pixels(&p, 0, 3, 3, 3).err().unwrap(), "截图区域太小");
}

/// The icon as the float formula draws it.
fn float_icon(size: u32) -> Vec<u8> {
    let mut rgba = vec![0u8; (size * size * 4) as usize];
    let center = (size as f32 - 1.0) / 2.0;
    let radius = center - 1.0;
    for y in 0..size {
        for x in 0..size {
            let dx = x as f32 - center;
            let dy = y as f32 - center;
            if dx * dx + dy * dy <= radius * radius {
                let offset = ((y * size + x) * 4) as usize;
                rgba[offset..offset + 4].copy_from_slice(&[40, 184, 124, 255]);
            }
        }
    }
    let points = [
        (9, 17), (10, 18), (11, 19), (12, 20), (13, 20), (14, 19), (15, 18),
        (16, 17), (17, 16), (18, 15), (19, 14), (20, 13), (21, 12), (22, 11),
    ];
    for (x, y) in points {
        for oy in 0..2 {
            for ox in 0..2 {
                let px = x + ox;
                let py = y + oy;
                if px < size && py < size {
                    let offset = ((py * size + px) * 4) as usize;
                    rgba[offset..offset + 4].copy_from_slice(&[255, 255, 255, 255]);
                }
            }
        }
    }
    rgba
}

#[test]
fn tray_icon_matches_float_drawing() {
    for size in [0u32, 1, 2, 3, 7, 16, 20, 32, 33, 64, 200] {
        assert_eq!(success_tray_icon_rgba(size), float_icon(size), "size {}", size);
    }
}

#[test]
fn tray_icon_pixels() {
    let icon = success_tray_icon_rgba(32);
    assert_eq!(icon.len(), 32 * 32 * 4);
    let at = |x: usize, y: usize| &icon[(y * 32 + x) * 4..(y * 32 + x) * 4 + 4];
    assert_eq!(at(0, 0), &[0, 0, 0, 0]);
    assert_eq!(at(5, 16), &[40, 184, 124, 255]);
    assert_eq!(at(9, 17), &[255, 255, 255, 255]);
    assert_eq!(at(23, 12), &[255, 255, 255, 255]);
    assert_eq!(at(16, 16), &[40, 184, 124, 255]);
}

#[test]
fn screen_pixels_become_opaque_rgba() {
    let p = picture_from_screen_pixels(2, 1, &[1, 2, 3, 0, 4, 5, 6, 7]);
    assert_eq!(p.width(), 2);
    assert_eq!(p.rgba(), &[3, 2, 1, 255, 6, 5, 4, 255]);
}

#[test]
fn capture_area_check() {
    assert!(check_capture_area(10, 10).is_ok());
    assert_eq!(check_capture_area(0, 10).err().unwrap(), "截图区域无效");
    assert_eq!(check_capture_area(10, 0).err().unwrap(), "截图区域无效");
}

#[test]
fn largest_tray_icon_matches_float_drawing() {
    assert_eq!(success_tray_icon_rgba(2048), float_icon(2048));
}
