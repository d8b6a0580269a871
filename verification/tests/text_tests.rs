use simple_renderer::tex::{
    convert_gl_format_to_image_depth, convert_image_depth_to_gl_format, convert_image_depth_to_gl_internal_format,
    DeviceTexture, GL_R32F, GL_RED, GL_RG, GL_RG32F, GL_RGB, GL_RGB32F, GL_RGBA, GL_RGBA32F, GL_TEXTURE_2D,
};
use simple_renderer::text::{decimal_string, owned, push_decimal, same_text, same_text_str, text_chars};

#[test]
fn decimal_string_writes_digits() {
    assert_eq!(decimal_string(0), "0");
    assert_eq!(decimal_string(7), "7");
    assert_eq!(decimal_string(1204), "1204");
    assert_eq!(decimal_string(u64::MAX), "18446744073709551615");
}

#[test]
fn push_decimal_appends() {
    let mut s = owned("n=");
    push_decimal(&mut s, 42);
    assert_eq!(s, "n=42");
}

#[test]
fn text_chars_lists_characters() {
    assert_eq!(text_chars("aé;"), vec!['a', 'é', ';']);
    assert!(text_chars("").is_empty());
}

#[test]
fn same_text_compares_characters() {
    assert!(same_text(&"abc".to_string(), &"abc".to_string()));
    assert!(!same_text(&"abc".to_string(), &"abd".to_string()));
    assert!(same_text_str(&"uColor".to_string(), "uColor"));
    assert!(!same_text_str(&"uColor".to_string(), "uColo"));
}

#[test]
fn image_depth_formats() {
    assert_eq!(convert_image_depth_to_gl_internal_format(1), GL_R32F);
    assert_eq!(convert_image_depth_to_gl_internal_format(2), GL_RG32F);
    assert_eq!(convert_image_depth_to_gl_internal_format(3), GL_RGB32F);
    assert_eq!(convert_image_depth_to_gl_internal_format(4), GL_RGBA32F);
    assert_eq!(convert_image_depth_to_gl_format(1), GL_RED);
    assert_eq!(convert_image_depth_to_gl_format(2), GL_RG);
    assert_eq!(convert_image_depth_to_gl_format(3), GL_RGB);
    assert_eq!(convert_image_depth_to_gl_format(4), GL_RGBA);
}

#[test]
fn gl_format_round_trips_to_depth() {
    for depth in 1..=4usize {
        assert_eq!(convert_gl_format_to_image_depth(convert_image_depth_to_gl_format(depth)), depth);
    }
}

#[test]
fn duplicate_texture_names_the_same_texture() {
    let t = DeviceTexture { name: "albedo".to_string(), handle: 9, target: GL_TEXTURE_2D };
    let d = t.duplicate();
    assert_eq!(d.name, "albedo");
    assert_eq!(d.handle, 9);
    assert_eq!(d.target, GL_TEXTURE_2D);
}
