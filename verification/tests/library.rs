use getnf::install::{dest_path, download_url, install_outcome, plan_install, plan_uninstall};
use getnf::installed::{entries_contain, record_install, record_uninstall};
use getnf::platform::{font_dir, EnvConfig};
use getnf::selection::{resolve_selection, select_by_indices, split_names};
use getnf::{FontError, OsKind, Scope};

fn env(
    home: Option<&str>,
    xdg: Option<&str>,
    windir: Option<&str>,
    lad: Option<&str>,
) -> EnvConfig {
    EnvConfig {
        home: home.map(|s| s.to_string()),
        xdg_data_home: xdg.map(|s| s.to_string()),
        windir: windir.map(|s| s.to_string()),
        local_app_data: lad.map(|s| s.to_string()),
    }
}

fn names(v: &[&str]) -> Vec<String> {
    v.iter().map(|s| s.to_string()).collect()
}

#[test]
fn resolve_is_pure_and_ignores_unrelated_vars() {
    let a = env(Some("/home/u"), None, None, None);
    let b = env(Some("/home/u"), None, Some("D:\\Win"), Some("C:\\Users\\u\\AppData\\Local"));
    let ra = font_dir(OsKind::Linux, Scope::User, &a).unwrap();
    let rb = font_dir(OsKind::Linux, Scope::User, &b).unwrap();
    let ra2 = font_dir(OsKind::Linux, Scope::User, &a).unwrap();
    assert_eq!(ra, rb);
    assert_eq!(ra, ra2);
}

#[test]
fn resolve_linux_user_default() {
    let e = env(Some("/home/u"), None, None, None);
    let r = font_dir(OsKind::Linux, Scope::User, &e).unwrap();
    assert_eq!(r, "/home/u/.local/share/fonts");
}

#[test]
fn resolve_linux_user_xdg_override() {
    let e = env(Some("/home/u"), Some("/data"), None, None);
    let r = font_dir(OsKind::Linux, Scope::User, &e).unwrap();
    assert_eq!(r, "/data/fonts");
}

#[test]
fn resolve_linux_global() {
    let e = env(None, None, None, None);
    let r = font_dir(OsKind::Linux, Scope::Global, &e).unwrap();
    assert_eq!(r, "/usr/local/share/fonts/");
}

#[test]
fn resolve_macos_both_scopes() {
    let e = env(Some("/Users/u"), None, None, None);
    assert_eq!(font_dir(OsKind::MacOs, Scope::Global, &e).unwrap(), "/Library/Fonts");
    assert_eq!(font_dir(OsKind::MacOs, Scope::User, &e).unwrap(), "/Users/u/Library/Fonts");
}

#[test]
fn resolve_windows_global_with_and_without_windir() {
    let with = env(None, None, Some("D:\\Windows"), None);
    assert_eq!(font_dir(OsKind::Windows, Scope::Global, &with).unwrap(), "D:\\Windows/Fonts");
    let without = env(None, None, None, None);
    assert_eq!(font_dir(OsKind::Windows, Scope::Global, &without).unwrap(), "C:\\Windows/Fonts");
}

#[test]
fn resolve_windows_user_requires_local_app_data() {
    let with = env(None, None, None, Some("C:\\Users\\u\\AppData\\Local"));
    assert_eq!(
        font_dir(OsKind::Windows, Scope::User, &with).unwrap(),
        "C:\\Users\\u\\AppData\\Local/Microsoft/Windows/Fonts"
    );
    let without = env(None, None, None, None);
    assert!(matches!(
        font_dir(OsKind::Windows, Scope::User, &without),
        Err(FontError::Configuration)
    ));
}

#[test]
fn resolve_unknown_platform_is_unsupported() {
    let e = env(Some("/home/u"), None, None, None);
    assert!(matches!(
        font_dir(OsKind::Other, Scope::User, &e),
        Err(FontError::UnsupportedPlatform)
    ));
    assert!(matches!(
        font_dir(OsKind::Other, Scope::Global, &e),
        Err(FontError::UnsupportedPlatform)
    ));
}

#[test]
fn empty_explicit_list_selects_nothing_and_does_nothing() {
    let sel = split_names("");
    assert!(sel.is_empty());
    let steps = plan_install(&sel, "v3.1.1", "/tmp/fonts");
    assert!(steps.is_empty());
    let report = install_outcome(&sel, &Vec::new());
    assert!(report.installed.is_empty());
    assert!(report.failed.is_none());
    let removals = plan_uninstall(&sel, "/tmp/fonts");
    assert!(removals.is_empty());
}

#[test]
fn explicit_list_order_preserved() {
    assert_eq!(split_names("Hack,FiraCode"), names(&["Hack", "FiraCode"]));
}

#[test]
fn explicit_list_keeps_tokens_verbatim() {
    assert_eq!(split_names(" Hack , FiraCode"), names(&[" Hack ", " FiraCode"]));
    assert_eq!(split_names("Hack,,FiraCode"), names(&["Hack", "", "FiraCode"]));
    assert_eq!(split_names("Hack,"), names(&["Hack", ""]));
    assert_eq!(split_names("Hack"), names(&["Hack"]));
}

#[test]
fn interactive_selection_keeps_candidate_order() {
    let cands = names(&["A", "B", "C"]);
    let chosen: Vec<usize> = vec![2, 0];
    assert_eq!(select_by_indices(&cands, &chosen), names(&["A", "C"]));
}

#[test]
fn interactive_selection_ignores_duplicates_and_out_of_range() {
    let cands = names(&["A", "B", "C"]);
    let chosen: Vec<usize> = vec![1, 1, 7];
    assert_eq!(select_by_indices(&cands, &chosen), names(&["B"]));
}

#[test]
fn resolve_selection_prefers_explicit_list() {
    let cands = names(&["A", "B"]);
    let chosen: Vec<usize> = vec![0];
    let r = resolve_selection(Some("Hack,FiraCode".to_string()), &cands, &chosen);
    assert_eq!(r, names(&["Hack", "FiraCode"]));
    let r = resolve_selection(None, &cands, &chosen);
    assert_eq!(r, names(&["A"]));
    let r = resolve_selection(Some(String::new()), &cands, &chosen);
    assert!(r.is_empty());
}

#[test]
fn latest_release_tag_extracted() {
    let body = "{\"tag_name\":\"v3.1.1\",\"name\":\"Release v3.1.1\"}";
    assert_eq!(getnf::catalog::latest_release_version(body).unwrap(), "v3.1.1");
}

#[test]
fn latest_release_tag_missing_is_parse_error() {
    let body = "{\"name\":\"Release\"}";
    assert!(matches!(
        getnf::catalog::latest_release_version(body),
        Err(FontError::Parse(_))
    ));
}

#[test]
fn latest_release_tag_non_string_is_parse_error() {
    let body = "{\"tag_name\":3}";
    assert!(matches!(
        getnf::catalog::latest_release_version(body),
        Err(FontError::Parse(_))
    ));
}

#[test]
fn latest_release_invalid_json_is_parse_error() {
    assert!(matches!(
        getnf::catalog::latest_release_version("not json"),
        Err(FontError::Parse(_))
    ));
}

#[test]
fn catalog_names_extracted_in_order() {
    let body = "[{\"name\":\"FiraCode\"},{\"name\":\"Hack\"}]";
    assert_eq!(
        getnf::catalog::list_remote_fonts(body).unwrap(),
        names(&["FiraCode", "Hack"])
    );
}

#[test]
fn catalog_non_array_is_parse_error() {
    assert!(matches!(
        getnf::catalog::list_remote_fonts("{\"name\":\"FiraCode\"}"),
        Err(FontError::Parse(_))
    ));
}

#[test]
fn catalog_nameless_entry_is_parse_error() {
    let body = "[{\"name\":\"FiraCode\"},{\"size\":3}]";
    assert!(matches!(
        getnf::catalog::list_remote_fonts(body),
        Err(FontError::Parse(_))
    ));
}

#[test]
fn download_url_shape() {
    assert_eq!(
        download_url("v3.1.1", "Hack"),
        "https://github.com/ryanoasis/nerd-fonts/releases/download/v3.1.1/Hack.tar.xz"
    );
}

#[test]
fn dest_path_joins_with_single_separator() {
    assert_eq!(dest_path("/usr/local/share/fonts/", "Hack"), "/usr/local/share/fonts/Hack");
    assert_eq!(dest_path("/home/u/.local/share/fonts", "Hack"), "/home/u/.local/share/fonts/Hack");
}

#[test]
fn install_plan_one_step_per_font_at_one_tag() {
    let fonts = names(&["Hack", "FiraCode"]);
    let steps = plan_install(&fonts, "v3.1.1", "/f");
    assert_eq!(steps.len(), 2);
    assert_eq!(steps[0].font, "Hack");
    assert_eq!(
        steps[0].url,
        "https://github.com/ryanoasis/nerd-fonts/releases/download/v3.1.1/Hack.tar.xz"
    );
    assert_eq!(steps[0].dest, "/f/Hack");
    assert_eq!(steps[1].font, "FiraCode");
    assert_eq!(
        steps[1].url,
        "https://github.com/ryanoasis/nerd-fonts/releases/download/v3.1.1/FiraCode.tar.xz"
    );
    assert_eq!(steps[1].dest, "/f/FiraCode");
}

#[test]
fn uninstall_plan_targets_entries() {
    let fonts = names(&["Hack", "FiraCode"]);
    assert_eq!(plan_uninstall(&fonts, "/f"), names(&["/f/Hack", "/f/FiraCode"]));
}

#[test]
fn batch_fail_fast_stops_at_first_failure() {
    let fonts = names(&["X", "Y", "Z"]);
    let ok = vec![true, false, false];
    let report = install_outcome(&fonts, &ok);
    assert_eq!(report.installed, names(&["X"]));
    match report.failed {
        Some(FontError::Network(f)) => assert_eq!(f, "Y"),
        other => panic!("expected a network error naming Y, got {:?}", other),
    }
}

#[test]
fn batch_all_successes_report_no_failure() {
    let fonts = names(&["X", "Y"]);
    let ok = vec![true, true];
    let report = install_outcome(&fonts, &ok);
    assert_eq!(report.installed, names(&["X", "Y"]));
    assert!(report.failed.is_none());
}

#[test]
fn install_then_list_includes_font_exactly_once() {
    let entries = names(&["Hack"]);
    let after = record_install(&entries, "FiraCode");
    assert_eq!(after.iter().filter(|e| e.as_str() == "FiraCode").count(), 1);
    assert!(entries_contain(&after, "FiraCode"));
    let again = record_install(&after, "FiraCode");
    assert_eq!(again.iter().filter(|e| e.as_str() == "FiraCode").count(), 1);
    assert_eq!(again, after);
}

#[test]
fn uninstall_absent_font_succeeds_unchanged() {
    let entries = names(&["Hack", "FiraCode"]);
    let after = record_uninstall(&entries, "Meslo");
    assert_eq!(after, entries);
}

#[test]
fn uninstall_removes_the_entry() {
    let entries = names(&["Hack", "FiraCode"]);
    let after = record_uninstall(&entries, "Hack");
    assert_eq!(after, names(&["FiraCode"]));
    assert!(!entries_contain(&after, "Hack"));
}

#[test]
fn error_messages_carry_context() {
    assert_eq!(
        FontError::Network("Hack".to_string()).message(),
        "network failure: Hack"
    );
    assert_eq!(
        FontError::Parse("bad field".to_string()).message(),
        "malformed response: bad field"
    );
    assert_eq!(
        FontError::Filesystem("/f".to_string()).message(),
        "filesystem failure: /f"
    );
    assert_eq!(
        FontError::Configuration.message(),
        "a required environment variable is not set"
    );
    assert_eq!(
        FontError::UnsupportedPlatform.message(),
        "unsupported operating system"
    );
}
