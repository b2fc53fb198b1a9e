use swoop_dispatch::fingerprint::{
    decimal_text, spoofed_header_list, validate_fingerprint_spoofing, AudioSpoofing,
    FingerprintManager, TLSSpoofing, ViewportSpoofing, WebGLSpoofing,
};

#[test]
fn fingerprint_tests_test_fingerprint_validation() {
    let original = "original_canvas_fingerprint_12345678";
    let spoofed = "spoofed_canvas_fingerprint_87654321";
    let invalid = "";
    let too_short = "short";

    assert!(validate_fingerprint_spoofing(original, spoofed));
    assert!(!validate_fingerprint_spoofing(original, invalid));
    assert!(!validate_fingerprint_spoofing(original, too_short));
    assert!(!validate_fingerprint_spoofing(original, original));
}

#[test]
fn mod_test_fingerprint_validation() {
    let original = "original_fingerprint_12345";
    let spoofed = "spoofed_fingerprint_67890";
    let invalid = "";

    assert!(validate_fingerprint_spoofing(original, spoofed));
    assert!(!validate_fingerprint_spoofing(original, invalid));
    assert!(!validate_fingerprint_spoofing(original, original));
}


#[test]
fn webgl_signature_is_built_from_its_parts() {
    let w = WebGLSpoofing::new();
    assert_eq!(w.signature_for(0, 3, 2), "webgl_NVIDIA Corporation_Apple M1_WEBGL_lose_context");
    assert!(w.generate_signature().starts_with("webgl_"));
}

#[test]
fn tls_signature_and_extensions() {
    let t = TLSSpoofing::new();
    assert_eq!(t.signature_for(1, 2, 0), "tls_v1.3_cipher_TLS_CHACHA20_POLY1305_SHA256_server_name");
    assert_eq!(t.tls_extensions_for(2), vec!["server_name".to_string(), "application_layer_protocol_negotiation".to_string()]);
}

#[test]
fn audio_signature_writes_numbers_in_decimal() {
    let a = AudioSpoofing::new();
    assert_eq!(a.signature_for(2, 0), "audio_96000hz_2ch");
    assert_eq!(decimal_text(0), "0");
    assert_eq!(decimal_text(4294967295), "4294967295");
}

#[test]
fn viewport_choice() {
    let v = ViewportSpoofing::new();
    let d = v.viewport_for(4, 1, 2);
    assert_eq!((d.width, d.height, d.color_depth, d.timezone.as_str()), (1600, 900, 32, "Asia/Tokyo"));
    let g = v.generate_viewport();
    assert!(g.color_depth == 24 || g.color_depth == 32);
}

#[test]
fn spoofed_headers_in_order() {
    let h = spoofed_header_list(1, true);
    assert_eq!(h.len(), 11);
    assert_eq!(h[2], ("accept-language".to_string(), "en-GB,en;q=0.8".to_string()));
    assert_eq!(h[4], ("dnt".to_string(), "1".to_string()));
    assert_eq!(spoofed_header_list(0, false).len(), 10);
    let mut m = FingerprintManager::new();
    let applied = m.apply_spoofing();
    assert!(applied.len() == 10 || applied.len() == 11);
    assert_eq!(m.get_request_count(), 1);
}

#[test]
fn extension_subsets_are_leading_runs() {
    let w = WebGLSpoofing::new();
    assert_eq!(w.supported_extensions_for(2), vec!["WEBGL_debug_renderer_info".to_string(), "OES_texture_float".to_string()]);
    let got = w.get_supported_extensions();
    assert!(got.len() >= 2 && got.len() <= 3);
    assert_eq!(got[0], "WEBGL_debug_renderer_info");
    let t = TLSSpoofing::new();
    let ext = t.get_tls_extensions();
    assert!(ext.len() >= 2 && ext[1] == "application_layer_protocol_negotiation");
}
