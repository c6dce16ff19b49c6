use little_shader_display::spirv::{spirv_words, SpirvError};

#[test]
fn little_endian_module_decodes() {
    let bytes = [0x03, 0x02, 0x23, 0x07, 0x01, 0x00, 0x00, 0x00, 0x00, 0x00, 0x01, 0x00];
    assert_eq!(spirv_words(&bytes), Ok(vec![0x0723_0203, 1, 0x0001_0000]));
}

#[test]
fn big_endian_module_decodes_to_the_same_words() {
    let bytes = [0x07, 0x23, 0x02, 0x03, 0x00, 0x00, 0x00, 0x01, 0x00, 0x01, 0x00, 0x00];
    assert_eq!(spirv_words(&bytes), Ok(vec![0x0723_0203, 1, 0x0001_0000]));
}

#[test]
fn bad_artifacts_are_rejected() {
    assert_eq!(spirv_words(&[]), Err(SpirvError::Empty));
    assert_eq!(spirv_words(&[0x03, 0x02, 0x23]), Err(SpirvError::NotWordAligned));
    assert_eq!(spirv_words(&[0x03, 0x02, 0x23, 0x07, 0x00]), Err(SpirvError::NotWordAligned));
    assert_eq!(spirv_words(&[0x00, 0x02, 0x23, 0x07]), Err(SpirvError::BadMagic));
    assert_eq!(spirv_words(b"#version 450\n\0\0\0"), Err(SpirvError::BadMagic));
}
