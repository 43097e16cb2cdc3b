use pastebin::database::PasteStore;
use pastebin::error::AppError;
use pastebin::lifecycle::{view_paste, view_paste_html};
use pastebin::models::PasteForm;
use pastebin::policy::{resolve_expiration, resolve_max_views};
use pastebin::rendering::{render_form, render_paste};

fn form(content: &str, expiration: &str, max_views: &str) -> PasteForm {
    PasteForm {
        content: content.to_string(),
        expiration: expiration.to_string(),
        max_views: max_views.to_string(),
    }
}

#[test]
fn create_then_view_returns_rendered_content() {
    let mut store = PasteStore::new();
    let id = store
        .create_paste(&form("# Hello\n\nworld", "", ""), 100)
        .unwrap();
    let page = view_paste_html(&mut store, &id, 100).unwrap();
    assert_eq!(page, render_paste("# Hello\n\nworld"));
    assert!(page.contains("<h1>"));
    assert!(page.contains("world"));
}

#[test]
fn generated_id_is_url_safe_and_twelve_chars() {
    let mut store = PasteStore::new();
    let id = store.create_paste(&form("x", "", ""), 0).unwrap();
    assert_eq!(id.len(), 12);
    assert!(id
        .chars()
        .all(|c| c.is_ascii_alphanumeric() || c == '_' || c == '-'));
}

#[test]
fn view_limit_permits_exactly_n_views() {
    let mut store = PasteStore::new();
    let id = store.create_paste(&form("capped", "", "2"), 0).unwrap();
    assert!(view_paste(&mut store, &id, 0).is_ok());
    assert!(view_paste(&mut store, &id, 0).is_ok());
    assert!(view_paste(&mut store, &id, 0).is_err());
    // the record is gone afterward
    assert!(store.get_paste(&id).is_err());
}

#[test]
fn view_limit_zero_permits_no_views() {
    let mut store = PasteStore::new();
    let id = store.create_paste(&form("never seen", "", "0"), 0).unwrap();
    assert!(view_paste(&mut store, &id, 0).is_err());
    assert!(store.get_paste(&id).is_err());
}

#[test]
fn ten_minute_expiry_is_lazy_and_evicts() {
    let mut store = PasteStore::new();
    let id = store.create_paste(&form("short", "10m", ""), 1000).unwrap();
    // viewable immediately and at the exact bound
    assert!(view_paste(&mut store, &id, 1000).is_ok());
    assert!(view_paste(&mut store, &id, 1600).is_ok());
    // one second past the bound: gone, and the record is absent
    assert!(view_paste(&mut store, &id, 1601).is_err());
    assert!(store.get_paste(&id).is_err());
}

#[test]
fn unlimited_paste_counts_each_view_once() {
    let mut store = PasteStore::new();
    let id = store.create_paste(&form("forever", "", ""), 0).unwrap();
    for k in 0..5 {
        assert_eq!(store.get_paste(&id).unwrap().views, k);
        assert_eq!(view_paste(&mut store, &id, 50).unwrap(), "forever");
    }
    assert_eq!(store.get_paste(&id).unwrap().views, 5);
}

#[test]
fn viewing_unknown_id_has_no_side_effects() {
    let mut store = PasteStore::new();
    let id = store.create_paste(&form("bystander", "", ""), 0).unwrap();
    assert!(view_paste(&mut store, "AAAAAAAAAAAA", 0).is_err());
    let p = store.get_paste(&id).unwrap();
    assert_eq!(p.views, 0);
    assert_eq!(p.content, "bystander");
}

#[test]
fn single_view_cap_gives_one_found_one_not_found() {
    let mut store = PasteStore::new();
    let id = store.create_paste(&form("once", "", "1"), 0).unwrap();
    let first = view_paste(&mut store, &id, 0);
    let second = view_paste(&mut store, &id, 0);
    assert_eq!(first.unwrap(), "once");
    assert!(second.is_err());
    assert!(store.get_paste(&id).is_err());
}

#[test]
fn rendering_is_deterministic() {
    let input = "# Title\n\n- [x] done\n- [ ] open\n\n~~gone~~ | a | b |\n|---|---|\n| 1 | 2 |\n";
    let a = render_paste(input);
    let b = render_paste(input);
    assert_eq!(a, b);
}

#[test]
fn rendering_transforms_markdown() {
    let page = render_paste("**bold** and ~~struck~~");
    assert!(page.contains("<strong>bold</strong>"));
    assert!(page.contains("<del>struck</del>"));
}

#[test]
fn rendered_page_carries_raw_source() {
    let page = render_paste("plain text body");
    assert!(page.contains("plain text body"));
}

#[test]
fn form_page_has_the_submission_form() {
    let page = render_form();
    assert!(page.contains("<form"));
    assert!(page.contains("max_views"));
    assert!(page.contains("10m"));
}

#[test]
fn expiration_tokens_resolve_to_documented_durations() {
    assert_eq!(resolve_expiration("10m"), Some(600));
    assert_eq!(resolve_expiration("1h"), Some(3600));
    assert_eq!(resolve_expiration("1d"), Some(86400));
    assert_eq!(resolve_expiration("1w"), Some(604800));
}

#[test]
fn unrecognized_expiration_tokens_mean_no_expiry() {
    assert_eq!(resolve_expiration(""), None);
    assert_eq!(resolve_expiration("2h"), None);
    assert_eq!(resolve_expiration("10M"), None);
    assert_eq!(resolve_expiration("10m "), None);
}

#[test]
fn view_caps_parse_as_nonnegative_integers() {
    assert_eq!(resolve_max_views("0"), Some(0));
    assert_eq!(resolve_max_views("3"), Some(3));
    assert_eq!(resolve_max_views("007"), Some(7));
    assert_eq!(resolve_max_views("+3"), Some(3));
    assert_eq!(resolve_max_views("+0"), Some(0));
    assert_eq!(resolve_max_views("9223372036854775807"), Some(i64::MAX));
}

#[test]
fn malformed_view_caps_mean_no_limit() {
    assert_eq!(resolve_max_views(""), None);
    assert_eq!(resolve_max_views("-1"), None);
    assert_eq!(resolve_max_views("abc"), None);
    assert_eq!(resolve_max_views("+"), None);
    assert_eq!(resolve_max_views("++1"), None);
    assert_eq!(resolve_max_views("+-1"), None);
    assert_eq!(resolve_max_views("3 "), None);
    assert_eq!(resolve_max_views("9223372036854775808"), None);
}

#[test]
fn error_responses_hide_internal_detail() {
    let (code, body) = AppError::not_found().response_parts();
    assert_eq!(code, 404);
    assert_eq!(body, "Not Found");
    let (code, body) = AppError::storage().response_parts();
    assert_eq!(code, 500);
    assert_eq!(body, "Something went wrong");
}

#[test]
fn store_keeps_distinct_pastes_apart() {
    let mut store = PasteStore::new();
    let a = store.create_paste(&form("alpha", "", ""), 0).unwrap();
    let b = store.create_paste(&form("beta", "", ""), 0).unwrap();
    assert_ne!(a, b);
    assert_eq!(view_paste(&mut store, &a, 0).unwrap(), "alpha");
    assert_eq!(view_paste(&mut store, &b, 0).unwrap(), "beta");
}

#[test]
fn delete_is_idempotent() {
    let mut store = PasteStore::new();
    let id = store.create_paste(&form("gone soon", "", ""), 0).unwrap();
    store.delete_paste(&id);
    store.delete_paste(&id);
    assert!(store.get_paste(&id).is_err());
}
