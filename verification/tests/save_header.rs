use emufight::save_header::{
    strip_save_header, with_save_header, SAVE_CORE_CPS1, SAVE_CORE_NEOGEO, SAVE_MAGIC,
};

#[test]
fn save_header_roundtrips_same_core() {
    let framed = with_save_header(SAVE_CORE_NEOGEO, vec![1, 2, 3, 4]);
    assert_eq!(&framed[..4], &SAVE_MAGIC);
    assert_eq!(framed[4], SAVE_CORE_NEOGEO);
    let body = strip_save_header(&framed, SAVE_CORE_NEOGEO).unwrap();
    assert_eq!(body, &[1, 2, 3, 4]);
}

#[test]
fn save_header_rejects_wrong_core() {
    let neogeo_blob = with_save_header(SAVE_CORE_NEOGEO, vec![9, 9, 9]);
    // Loading a NeoGeo blob as CPS-1 (or vice versa) must be a clean error,
    // not a silent corrupt deserialise.
    assert!(strip_save_header(&neogeo_blob, SAVE_CORE_CPS1).is_err());
}

#[test]
fn save_header_accepts_legacy_headerless() {
    // Blobs baked before headers existed have no magic prefix and must
    // still load unchanged.
    let legacy = vec![0x07, 0x00, 0x00, 0x00, 0xAB];
    let body = strip_save_header(&legacy, SAVE_CORE_NEOGEO).unwrap();
    assert_eq!(body, legacy.as_slice());
}

#[test]
fn save_header_names_both_cores() {
    let blob = with_save_header(SAVE_CORE_CPS1, vec![]);
    assert_eq!(blob, vec![0x4E, 0x45, 0x4F, 0x53, 2]);
    let err = strip_save_header(&blob, SAVE_CORE_NEOGEO).unwrap_err();
    assert!(err.contains('1') && err.contains('2'), "{err}");
}

#[test]
fn short_blobs_are_headerless() {
    let magic = [0x4E, 0x45, 0x4F, 0x53];
    assert_eq!(strip_save_header(&magic, SAVE_CORE_NEOGEO).unwrap(), &magic);
    assert_eq!(strip_save_header(&[], SAVE_CORE_NEOGEO).unwrap(), &[] as &[u8]);
}
