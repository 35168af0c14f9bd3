//! Where native libraries are looked for.

use iced_webview::native_lib_paths::{
    dedup_preserving_order, ensure_cef_path, find_cef_dir, find_library, install_prefix,
    library_candidates, CefSearch, CEF_FHS_DIR, CEF_PATH_ENV, LIB_SUBDIRS,
};
use iced_webview::path::UnixPath;

fn path(text: &str) -> UnixPath {
    UnixPath::from_text(text)
}

fn os(text: &str) -> Vec<u8> {
    text.as_bytes().to_vec()
}

#[test]
fn install_prefix_requires_a_bin_dir() {
    assert_eq!(
        install_prefix(&path("/usr/bin/agentos-mail-suite")),
        Some(path("/usr"))
    );
    assert_eq!(
        install_prefix(&path("/nix/store/abc-app-1.0/bin/app")),
        Some(path("/nix/store/abc-app-1.0"))
    );
    // A cargo build tree has no sibling lib/ — guessing one would be wrong.
    assert_eq!(install_prefix(&path("/home/dev/target/debug/app")), None);
    assert_eq!(install_prefix(&path("app")), None);
}

/// Predicate over a fixed set of directories that "contain" a CEF distribution, so the
/// search is tested against a known layout rather than whatever the host has installed.
fn present(dirs: &'static [&'static str]) -> impl Fn(&UnixPath) -> bool {
    move |dir: &UnixPath| dirs.iter().any(|d| &path(d) == dir)
}

fn search(exe: &str) -> CefSearch {
    CefSearch {
        exe: Some(path(exe)),
        ..CefSearch::default()
    }
}

/// Fedora: the prefix candidate is the directory the `cef-libs` package installs into.
#[test]
fn fedora_resolves_to_the_usual_cef_dir() {
    let found = search("/usr/bin/app").find_with(&present(&["/usr/lib/cef"]));
    assert_eq!(found, Some(path("/usr/lib/cef")));
}

/// Nix, CEF in the application's own store path — resolved with no environment at all.
#[test]
fn nix_store_prefix_resolves_without_env() {
    let found = search("/nix/store/abc-app/bin/app")
        .find_with(&present(&["/nix/store/abc-app/lib/cef"]));
    assert_eq!(found, Some(path("/nix/store/abc-app/lib/cef")));
}

/// Nix, CEF in its own store path — only reachable via XDG_DATA_DIRS.
#[test]
fn nix_cef_in_its_own_store_path_via_xdg_data_dirs() {
    let s = CefSearch {
        exe: Some(path("/nix/store/abc-app/bin/app")),
        xdg_data_dirs: Some(os(
            "/nix/store/xyz-cef/share:/run/current-system/sw/share",
        )),
        ..CefSearch::default()
    };
    assert_eq!(
        s.find_with(&present(&["/nix/store/xyz-cef/lib/cef"])),
        Some(path("/nix/store/xyz-cef/lib/cef"))
    );
}

/// A development run points at a build tree through LD_LIBRARY_PATH.
#[test]
fn ld_library_path_is_searched() {
    let s = CefSearch {
        exe: Some(path("/usr/bin/app")),
        ld_library_path: Some(os("/build/cef")),
        ..CefSearch::default()
    };
    assert_eq!(
        s.find_with(&present(&["/build/cef"])),
        Some(path("/build/cef"))
    );
}

#[test]
fn explicit_cef_path_outranks_everything() {
    let s = CefSearch {
        exe: Some(path("/usr/bin/app")),
        cef_path: Some(os("/opt/my-cef")),
        ld_library_path: Some(os("/build/cef")),
        ..CefSearch::default()
    };
    assert_eq!(s.candidates().first(), Some(&path("/opt/my-cef")));
    assert_eq!(
        s.find_with(&present(&["/opt/my-cef", "/build/cef", "/usr/lib/cef"])),
        Some(path("/opt/my-cef"))
    );
}

/// A CEF_PATH pointing at nothing must not veto the search — failing to start the webview
/// because of a stale override is worse than falling through to a working directory.
#[test]
fn stale_cef_path_falls_through() {
    let s = CefSearch {
        exe: Some(path("/usr/bin/app")),
        cef_path: Some(os("/gone/cef")),
        ..CefSearch::default()
    };
    assert_eq!(
        s.find_with(&present(&["/usr/lib/cef"])),
        Some(path("/usr/lib/cef"))
    );
}

#[test]
fn empty_env_entries_are_ignored() {
    let s = CefSearch {
        cef_path: Some(os("")),
        ld_library_path: Some(os("/a::/b")),
        xdg_data_dirs: Some(os("")),
        ..CefSearch::default()
    };
    let dirs = s.candidates();
    assert!(!dirs.iter().any(|d| d.is_empty()));
    assert!(dirs.contains(&path("/a")));
    assert!(dirs.contains(&path("/b")));
    // An empty XDG_DATA_DIRS falls back to the spec default, which reaches /usr/lib/cef.
    assert!(dirs.contains(&path("/usr/lib/cef")));
}

/// The FHS dir is reachable three ways; it must be probed once and keep its position.
#[test]
fn duplicates_collapse_to_the_highest_priority_entry() {
    let s = CefSearch {
        exe: Some(path("/usr/bin/app")),
        cef_path: Some(os("/usr/lib/cef")),
        ..CefSearch::default()
    };
    let dirs = s.candidates();
    assert_eq!(
        dirs.iter()
            .filter(|d| *d == &path("/usr/lib/cef"))
            .count(),
        1
    );
    assert_eq!(dirs.first(), Some(&path("/usr/lib/cef")));
}

/// Nothing installed anywhere: the caller must be able to tell, so it can leave CEF_PATH
/// alone and let a build-tree binary keep its own copy.
#[test]
fn nothing_found_is_none() {
    assert_eq!(search("/usr/bin/app").find_with(&present(&[])), None);
}

#[test]
fn library_override_accepts_a_file_or_a_directory() {
    let name = os("libpdfium.so");

    let as_dir = os("/opt/pdfium");
    assert_eq!(
        library_candidates(&name, Some(&as_dir), None).first(),
        Some(&path("/opt/pdfium/libpdfium.so"))
    );

    let as_file = os("/opt/pdfium/libpdfium.so");
    assert_eq!(
        library_candidates(&name, Some(&as_file), None).first(),
        Some(&path("/opt/pdfium/libpdfium.so"))
    );
}

/// Fedora ships pdfium in /usr/lib64; Nix and Debian use lib. Both are probed.
#[test]
fn library_candidates_cover_both_lib_subdirs() {
    let name = os("libpdfium.so");
    let dirs = library_candidates(&name, None, Some(&path("/usr/bin/viewer")));
    assert_eq!(
        dirs,
        vec![
            path("./libpdfium.so"),
            path("/usr/lib/libpdfium.so"),
            path("/usr/lib64/libpdfium.so"),
        ]
    );
}

#[test]
fn library_candidates_without_a_prefix_still_probe_the_cwd() {
    let name = os("libpdfium.so");
    let dirs = library_candidates(&name, None, Some(&path("/home/dev/target/debug/app")));
    assert_eq!(dirs, vec![path("./libpdfium.so")]);
}

#[test]
fn candidates_come_in_order_of_precedence() {
    let s = CefSearch {
        exe: Some(path("/opt/app/bin/app")),
        cef_path: Some(os("/opt/my-cef")),
        xdg_data_dirs: Some(os("relative/share:/data/share:/opt/app/share")),
        ld_library_path: Some(os("/build/cef:/other")),
    };
    assert_eq!(
        s.candidates(),
        vec![
            path("/opt/my-cef"),
            path("/opt/app/lib/cef"),
            path("/data/lib/cef"),
            path("/build/cef"),
            path("/other"),
            path("/usr/lib/cef"),
        ]
    );
}

#[test]
fn find_looks_for_the_library_file() {
    let s = search("/opt/app/bin/app");
    let is_file = |file: &UnixPath| file == &path("/opt/app/lib/cef/libcef.so");
    assert_eq!(s.find("libcef.so", &is_file), Some(path("/opt/app/lib/cef")));
    assert_eq!(
        find_cef_dir(&s, "libcef.so", &is_file),
        Some(path("/opt/app/lib/cef"))
    );
    assert_eq!(s.find("libother.so", &is_file), None);
}

#[test]
fn a_valid_cef_path_is_left_untouched() {
    let everywhere = |_: &UnixPath| true;
    let s = CefSearch {
        exe: Some(path("/usr/bin/app")),
        cef_path: Some(os("/opt/my-cef")),
        ..CefSearch::default()
    };
    let resolved = ensure_cef_path(&s, "libcef.so", &everywhere).unwrap();
    assert_eq!(resolved.dir, path("/opt/my-cef"));
    assert!(!resolved.export);
}

#[test]
fn a_stale_cef_path_is_replaced() {
    let fhs_only = |file: &UnixPath| file == &path("/usr/lib/cef/libcef.so");
    let s = CefSearch {
        exe: Some(path("/usr/bin/app")),
        cef_path: Some(os("/gone/cef")),
        ..CefSearch::default()
    };
    let resolved = ensure_cef_path(&s, "libcef.so", &fhs_only).unwrap();
    assert_eq!(resolved.dir, path("/usr/lib/cef"));
    assert!(resolved.export);
}

#[test]
fn no_distribution_leaves_the_environment_alone() {
    let nowhere = |_: &UnixPath| false;
    assert!(ensure_cef_path(&search("/usr/bin/app"), "libcef.so", &nowhere).is_none());
}

#[test]
fn find_library_takes_the_first_that_exists() {
    let name = os("libpdfium.so");
    let installed = |file: &UnixPath| file == &path("/usr/lib64/libpdfium.so");
    assert_eq!(
        find_library(&name, None, Some(&path("/usr/bin/viewer")), &installed),
        Some(path("/usr/lib64/libpdfium.so"))
    );
    let nowhere = |_: &UnixPath| false;
    assert_eq!(
        find_library(&name, None, Some(&path("/usr/bin/viewer")), &nowhere),
        None
    );
}

#[test]
fn an_empty_library_override_is_ignored() {
    let name = os("libpdfium.so");
    let empty = os("");
    assert_eq!(
        library_candidates(&name, Some(&empty), None),
        vec![path("./libpdfium.so")]
    );
}

#[test]
fn repeats_are_dropped_by_meaning() {
    let kept = dedup_preserving_order(vec![
        path("/a/b"),
        path("/c"),
        path("/a//b/"),
        path("/c/."),
        path("c"),
    ]);
    assert_eq!(kept.len(), 3);
    assert_eq!(kept[0].as_bytes(), b"/a/b");
    assert_eq!(kept[1].as_bytes(), b"/c");
    assert_eq!(kept[2].as_bytes(), b"c");
}

#[test]
fn the_constants_name_the_usual_places() {
    assert_eq!(CEF_FHS_DIR, "/usr/lib/cef");
    assert_eq!(CEF_PATH_ENV, "CEF_PATH");
    assert_eq!(LIB_SUBDIRS, ["lib", "lib64"]);
}

#[test]
fn a_copied_search_looks_in_the_same_places() {
    let original = CefSearch {
        exe: Some(path("/opt/app/bin/app")),
        cef_path: Some(os("/opt/my-cef")),
        xdg_data_dirs: None,
        ld_library_path: Some(os("/a:/b")),
    };
    assert_eq!(original.clone().candidates(), original.candidates());
}

#[test]
fn candidates_are_tested_in_order_and_once() {
    let s = CefSearch {
        exe: Some(path("/opt/app/bin/app")),
        cef_path: Some(os("/gone/cef")),
        ld_library_path: Some(os("/a:/b")),
        ..CefSearch::default()
    };
    let candidates = s.candidates();
    let asked = std::cell::RefCell::new(Vec::new());
    let found = s.find_with(&|dir: &UnixPath| {
        asked.borrow_mut().push(dir.duplicate());
        *dir == path("/a")
    });
    assert_eq!(found, Some(path("/a")));
    let n = asked.borrow().len();
    assert_eq!(asked.borrow()[..], candidates[..n]);
    assert_eq!(asked.borrow().last(), Some(&path("/a")));

    asked.borrow_mut().clear();
    let found = s.find_with(&|dir: &UnixPath| {
        asked.borrow_mut().push(dir.duplicate());
        false
    });
    assert_eq!(found, None);
    assert_eq!(*asked.borrow(), candidates);
}

#[test]
fn an_absent_field_contributes_no_candidates() {
    assert_eq!(CefSearch::default().candidates(), vec![path(CEF_FHS_DIR)]);
    let empty = CefSearch {
        xdg_data_dirs: Some(os("")),
        ..CefSearch::default()
    };
    assert_eq!(
        empty.candidates(),
        vec![path("/usr/local/lib/cef"), path("/usr/lib/cef")]
    );
}
