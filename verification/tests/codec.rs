use slide_linker::codec::{decode, encode_for_embedding, trim_samples, RasterImage};

fn png_bytes(width: u32, height: u32) -> Vec<u8> {
    let img = image::RgbaImage::from_fn(width, height, |x, y| {
        image::Rgba([(x * 10) as u8, (y * 20) as u8, 7, 128])
    });
    let mut out = std::io::Cursor::new(Vec::new());
    img.write_to(&mut out, image::ImageFormat::Png).unwrap();
    out.into_inner()
}

#[test]
fn encodes_the_standard_test_vectors() {
    let cases: [(&[u8], &str); 7] = [
        (b"", ""),
        (b"f", "Zg=="),
        (b"fo", "Zm8="),
        (b"foo", "Zm9v"),
        (b"foob", "Zm9vYg=="),
        (b"fooba", "Zm9vYmE="),
        (b"foobar", "Zm9vYmFy"),
    ];
    for (bytes, text) in cases {
        assert_eq!(encode_for_embedding(bytes).unwrap(), text);
    }
}

#[test]
fn encoding_uses_the_standard_alphabet_with_padding() {
    assert_eq!(encode_for_embedding(&[0xfb, 0xff]).unwrap(), "+/8=");
    assert_eq!(encode_for_embedding(&[0xff, 0xff, 0xff]).unwrap(), "////");
}

#[test]
fn encoded_length_is_four_for_every_three_bytes() {
    for n in 0usize..50 {
        let bytes = vec![0xa5u8; n];
        let text = encode_for_embedding(&bytes).unwrap();
        assert_eq!(text.len(), 4 * ((n + 2) / 3));
        assert!(text.bytes().all(|b| b.is_ascii_alphanumeric() || b == b'+' || b == b'/' || b == b'='));
    }
}

#[test]
fn encoding_is_deterministic() {
    let bytes = png_bytes(3, 2);
    assert_eq!(encode_for_embedding(&bytes), encode_for_embedding(&bytes));
}

#[test]
fn decodes_a_png_to_three_samples_per_pixel() {
    let img = decode(&png_bytes(3, 2)).unwrap();
    assert_eq!(img.width, 3);
    assert_eq!(img.height, 2);
    assert_eq!(img.rgb_pixels.len(), 3 * 2 * 3);
    assert!(img.is_drawable());
    // pixel (x=1, y=0) then pixel (x=2, y=1); alpha is dropped
    assert_eq!(&img.rgb_pixels[3..6], &[10, 0, 7]);
    assert_eq!(&img.rgb_pixels[15..18], &[20, 20, 7]);
}

#[test]
fn refuses_bytes_that_are_no_image() {
    let err = decode(b"this is no image").unwrap_err();
    assert!(!err.cause.is_empty());
    assert!(decode(b"").is_err());
}

#[test]
fn refuses_a_truncated_png() {
    let bytes = png_bytes(4, 4);
    assert!(decode(&bytes[..bytes.len() / 2]).is_err());
}

#[test]
fn trims_surplus_samples() {
    let img = RasterImage { width: 2, height: 1, rgb_pixels: vec![1, 2, 3, 4, 5, 6, 7, 8] };
    let out = trim_samples(img);
    assert_eq!(out.width, 2);
    assert_eq!(out.height, 1);
    assert_eq!(out.rgb_pixels, vec![1, 2, 3, 4, 5, 6]);
}

#[test]
fn drawable_means_exact_samples_and_some_pixels() {
    let ok = RasterImage { width: 2, height: 2, rgb_pixels: vec![0; 12] };
    assert!(ok.is_drawable());
    let short = RasterImage { width: 2, height: 2, rgb_pixels: vec![0; 11] };
    assert!(!short.is_drawable());
    let long = RasterImage { width: 2, height: 2, rgb_pixels: vec![0; 13] };
    assert!(!long.is_drawable());
    let flat = RasterImage { width: 0, height: 2, rgb_pixels: vec![] };
    assert!(!flat.is_drawable());
    let thin = RasterImage { width: 2, height: 0, rgb_pixels: vec![] };
    assert!(!thin.is_drawable());
}

#[test]
fn decoding_is_deterministic() {
    let bytes = png_bytes(5, 4);
    let a = decode(&bytes).unwrap();
    let b = decode(&bytes).unwrap();
    assert_eq!((a.width, a.height), (b.width, b.height));
    assert_eq!(a.rgb_pixels, b.rgb_pixels);
    let x = decode(b"no image").unwrap_err();
    let y = decode(b"no image").unwrap_err();
    assert_eq!(x.cause, y.cause);
}

#[test]
fn an_image_with_too_few_samples_is_left_as_it_is() {
    let img = RasterImage { width: 2, height: 2, rgb_pixels: vec![9; 5] };
    let out = trim_samples(img);
    assert_eq!((out.width, out.height), (2, 2));
    assert_eq!(out.rgb_pixels, vec![9; 5]);
    assert!(!out.is_drawable());
}

#[test]
fn format_is_told_by_the_signature() {
    // a JPEG signature with nothing behind it is taken for a JPEG and refused as one
    assert!(decode(&[0xff, 0xd8, 0xff]).is_err());
    // the signature of a format without a built-in decoder is refused
    assert!(decode(b"GIF89a").is_err());
    assert!(decode(b"\x89PNG\r\n\x1a\n").is_err());
}
