use pasteboost::encoding::{
    image_bytes_from_data_url, picture_from_data_url, picture_from_png, png_bytes, png_data_url,
    png_data_url_from_bytes,
};
use pasteboost::pixels::Picture;

#[test]
fn data_url_of_bytes() {
    assert_eq!(png_data_url_from_bytes(b"abc"), "data:image/png;base64,YWJj");
    assert_eq!(png_data_url_from_bytes(b""), "data:image/png;base64,");
    assert_eq!(png_data_url_from_bytes(&[0xff, 0xfe]), "data:image/png;base64,//4=");
}

#[test]
fn data_url_gives_bytes_back() {
    for bytes in [vec![], vec![0u8], vec![1, 2, 3, 4, 5], (0..=255).collect::<Vec<u8>>()] {
        let url = png_data_url_from_bytes(&bytes);
        assert_eq!(image_bytes_from_data_url(&url).ok().unwrap(), bytes);
    }
}

#[test]
fn data_url_errors() {
    assert_eq!(image_bytes_from_data_url("data:image/jpeg;base64,AAAA").err().unwrap(), "图片格式无效");
    assert_eq!(image_bytes_from_data_url("").err().unwrap(), "图片格式无效");
    assert!(image_bytes_from_data_url("data:image/png;base64,!!!").is_err());
}

#[test]
fn png_round_trip_through_data_url() {
    let rgba: Vec<u8> = (0..24u8).collect();
    let picture = Picture::new(3, 2, rgba.clone()).unwrap();
    let png = png_bytes(&picture).ok().unwrap();
    assert_eq!(&png[1..4], b"PNG");
    let url = png_data_url(&picture).ok().unwrap();
    assert!(url.starts_with("data:image/png;base64,iVBORw0KGgo"));
    let (decoded, bytes) = picture_from_data_url(&url).ok().unwrap();
    assert_eq!(bytes, png);
    assert_eq!(decoded.width(), 3);
    assert_eq!(decoded.height(), 2);
    assert_eq!(decoded.rgba(), rgba.as_slice());
}

#[test]
fn png_decoding_errors() {
    assert!(picture_from_png(b"not an image").is_err());
    let url = png_data_url_from_bytes(b"not an image");
    assert!(picture_from_data_url(&url).is_err());
    assert_eq!(picture_from_data_url("nope").err().unwrap(), "图片格式无效");
}

#[test]
fn picture_data_url_gives_back_png_bytes() {
    let picture = Picture::new(1, 1, vec![1, 2, 3, 4]).unwrap();
    let png = png_bytes(&picture).ok().unwrap();
    let (decoded, bytes) = picture_from_data_url(&png_data_url_from_bytes(&png)).ok().unwrap();
    assert_eq!(bytes, png);
    assert_eq!(decoded.rgba(), &[1, 2, 3, 4]);
}
