use fib::backend::lowering::error::LowerError;

#[test]
fn missing_block_rendering_carries_fn_and_line() {
    let err = LowerError::missing_block("probe", Some("my_fn".to_string()), Some(3));
    let msg = err.render();
    assert!(msg.contains("probe"), "missing site: {}", msg);
    assert!(msg.contains("my_fn"), "missing fn name: {}", msg);
    assert!(msg.contains('3'), "missing line: {}", msg);
    assert!(msg.contains("no insert block"), "missing kind: {}", msg);
    let bare = LowerError::missing_block("probe", None, None);
    assert_eq!(bare.render(), "lowering 'probe': no insert block");
}

#[test]
fn builder_errors_convert_to_lower_error() {
    let err = LowerError::from("plain string still becomes Unsupported".to_string());
    assert!(matches!(err, LowerError::Unsupported(_)));
    let err = LowerError::from("static str likewise");
    assert!(matches!(err, LowerError::Unsupported(_)));
}
