use mediastore::content_type::{file_check, from, guess, jpeg, unknown, FileType};

fn padded(magic: &[u8]) -> Vec<u8> {
    let mut v = magic.to_vec();
    while v.len() < 9 {
        v.push(0x11);
    }
    v
}

#[test]
fn sniff_rejects_short_input() {
    let r = file_check(&vec![0x89, 0x50, 0x4E, 0x47, 0x0D, 0x0A, 0x1A]);
    assert!(r.is_err());
}

#[test]
fn sniff_rejects_all_zero_input() {
    let r = file_check(&vec![0u8; 8]);
    assert!(r.is_err());
}

#[test]
fn sniff_finds_png() {
    let ct = file_check(&padded(&[0x89, 0x50, 0x4E, 0x47, 0x0D, 0x0A, 0x1A, 0x0A])).unwrap();
    assert_eq!(ct.id, 6);
    assert_eq!(ct.ext, ".png");
    assert_eq!(ct.mimetype, "image/png");
}

#[test]
fn sniff_finds_jpeg() {
    let ct = file_check(&padded(&[0xFF, 0xD8, 0xFF])).unwrap();
    assert_eq!(ct.id, 5);
    assert_eq!(ct.ext, ".jpg");
}

#[test]
fn sniff_finds_gif87a() {
    let ct = file_check(&padded(b"GIF87a")).unwrap();
    assert_eq!(ct.id, 2);
    assert_eq!(ct.ext, ".gif");
}

#[test]
fn sniff_finds_gif89a() {
    let ct = file_check(&padded(b"GIF89a")).unwrap();
    assert_eq!(ct.id, 3);
    assert_eq!(ct.ext, ".gif");
}

#[test]
fn sniff_finds_bmp() {
    let ct = file_check(&padded(&[0x42, 0x4D])).unwrap();
    assert_eq!(ct.id, 4);
    assert_eq!(ct.ext, ".bmp");
}

#[test]
fn sniff_finds_tiff_little_endian() {
    let ct = file_check(&padded(&[0x49, 0x49, 0x2A, 0x00])).unwrap();
    assert_eq!(ct.id, 8);
    assert_eq!(ct.ext, ".tif");
}

#[test]
fn sniff_finds_tiff_big_endian() {
    let ct = file_check(&padded(&[0x4D, 0x4D, 0x00, 0x2A])).unwrap();
    assert_eq!(ct.id, 9);
    assert_eq!(ct.ext, ".tiff");
}

#[test]
fn sniff_finds_heif() {
    let ct = file_check(&padded(b"ftyp")).unwrap();
    assert_eq!(ct.id, 7);
    assert_eq!(ct.mimetype, "image/heif");
}

#[test]
fn sniff_is_first_match_over_table_order() {
    // A GIF87a prefix also begins with no earlier entry's magic, and the
    // 87a entry stands before the 89a entry: the 87a entry wins.
    let ct = file_check(&padded(b"GIF87a99")).unwrap();
    assert_eq!(ct.id, 2);
}

#[test]
fn guess_maps_known_extensions() {
    assert_eq!(guess(".json").id, 1);
    assert_eq!(guess(".jpg").id, 5);
    assert_eq!(guess(".png").id, 6);
    assert_eq!(guess(".gif").id, 2);
    assert_eq!(guess(".tiff").id, 9);
}

#[test]
fn guess_falls_back_to_unknown() {
    let ct = guess(".exe");
    assert_eq!(ct.id, 0);
    assert!(matches!(ct.file, FileType::Unknown));
    assert_eq!(ct.ext, "");
    let ct = guess("png");
    assert_eq!(ct.id, 0);
}

#[test]
fn from_maps_ids_and_falls_back() {
    assert_eq!(from(5).ext, ".jpg");
    assert_eq!(from(0).id, 0);
    assert_eq!(from(999).id, 0);
    assert_eq!(from(-3).id, 0);
}

#[test]
fn sentinel_helpers_match_table() {
    assert_eq!(unknown().id, 0);
    assert_eq!(jpeg().id, 5);
    assert_eq!(jpeg().ext, ".jpg");
}
