use cortex_debug_zed::adapter::{verify_adapter_name, ADAPTER_NAME};
use cortex_debug_zed::text::{same_text, to_forward_slashes};

#[test]
fn adapter_name_is_the_extensions_own() {
    assert_eq!(ADAPTER_NAME, "cortex-debug-zed");
}

#[test]
fn own_adapter_name_is_accepted() {
    assert_eq!(verify_adapter_name("cortex-debug-zed"), Ok(()));
}

#[test]
fn other_adapter_name_is_refused_with_both_names() {
    assert_eq!(
        verify_adapter_name("CodeLLDB"),
        Err("Unsupported debug adapter name 'CodeLLDB', expected 'cortex-debug-zed'".to_string())
    );
}

#[test]
fn adapter_name_comparison_is_exact() {
    assert!(verify_adapter_name("Cortex-Debug-Zed").is_err());
    assert!(verify_adapter_name("cortex-debug-zed ").is_err());
    assert_eq!(
        verify_adapter_name(""),
        Err("Unsupported debug adapter name '', expected 'cortex-debug-zed'".to_string())
    );
}

#[test]
fn same_text_compares_characters() {
    assert!(same_text("launch", "launch"));
    assert!(!same_text("launch", "attach"));
    assert!(!same_text("launch", "launch2"));
    assert!(same_text("", ""));
}

#[test]
fn windows_path_gets_forward_slashes() {
    assert_eq!(
        to_forward_slashes("C:\\Users\\dev\\AppData\\zed\\cortex-debug"),
        "C:/Users/dev/AppData/zed/cortex-debug"
    );
}

#[test]
fn unix_path_is_kept() {
    assert_eq!(to_forward_slashes("/home/dev/.local/zed"), "/home/dev/.local/zed");
    assert_eq!(to_forward_slashes(""), "");
}

#[test]
fn forward_slashes_keep_other_characters() {
    assert_eq!(to_forward_slashes("a\\b/c\\\\d é"), "a/b/c//d é");
    // a second pass changes nothing
    let once = to_forward_slashes("x\\y\\z");
    assert_eq!(to_forward_slashes(&once), once);
    assert!(!once.contains('\\'));
}
