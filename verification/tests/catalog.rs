use font_compare::errors::{FileError, ReadOutcome};
use font_compare::files::{FileId, FileStore, PackageSpec, ResolvePlan};

fn rootless(segments: &[&str]) -> FileId {
    FileId {
        package: None,
        segments: segments.iter().map(|s| s.to_string()).collect(),
    }
}

fn fresh_store() -> FileStore {
    FileStore {
        root: "/project".to_string(),
        main: rootless(&["doc.typ"]),
        entries: Vec::new(),
    }
}

#[test]
fn resolve_present_file_returns_its_bytes() {
    let mut store = fresh_store();
    let id = rootless(&["doc.typ"]);
    let plan = store.resolve_plan(&id, None);
    let path = match plan {
        ResolvePlan::Read(p) => p,
        _ => panic!("expected a read plan"),
    };
    assert_eq!(path, "/project/doc.typ");
    let bytes = vec![1u8, 2, 3];
    let got = store.resolve_apply(&id, ReadOutcome::Success(bytes.clone()), path);
    assert_eq!(got.unwrap(), bytes);
    // the resolution is cached: a second lookup answers from memory
    match store.resolve_plan(&id, None) {
        ResolvePlan::Cached(b) => assert_eq!(b, bytes),
        _ => panic!("expected a cache hit"),
    }
}

#[test]
fn resolve_missing_file_is_not_found() {
    let mut store = fresh_store();
    let id = rootless(&["absent.typ"]);
    let path = match store.resolve_plan(&id, None) {
        ResolvePlan::Read(p) => p,
        _ => panic!("expected a read plan"),
    };
    let got = store.resolve_apply(&id, ReadOutcome::Missing, path.clone());
    assert_eq!(got.unwrap_err(), FileError::NotFound(path));
    assert!(store.cached(&id).is_none());
}

#[test]
fn resolve_forbidden_and_other_failures_classified() {
    let mut store = fresh_store();
    let id = rootless(&["locked.typ"]);
    let got = store.resolve_apply(&id, ReadOutcome::Forbidden, "/project/locked.typ".to_string());
    assert_eq!(got.unwrap_err(), FileError::AccessDenied);
    let got = store.resolve_apply(
        &id,
        ReadOutcome::Failed("disk on fire".to_string()),
        "/project/locked.typ".to_string(),
    );
    assert_eq!(got.unwrap_err(), FileError::Other("disk on fire".to_string()));
}

#[test]
fn missing_package_is_not_found_and_never_fetched() {
    let store = fresh_store();
    let id = FileId {
        package: Some(PackageSpec {
            namespace: "preview".to_string(),
            name: "example".to_string(),
            major: 1,
            minor: 2,
            patch: 3,
        }),
        segments: vec!["lib.typ".to_string()],
    };
    match store.resolve_plan(&id, None) {
        ResolvePlan::Fail(FileError::NotFound(d)) => {
            assert_eq!(d, "typst/packages/preview/example/1.2.3");
        }
        _ => panic!("expected not-found"),
    }
}

#[test]
fn package_with_found_base_reads_under_it() {
    let store = fresh_store();
    let id = FileId {
        package: Some(PackageSpec {
            namespace: "preview".to_string(),
            name: "example".to_string(),
            major: 0,
            minor: 1,
            patch: 0,
        }),
        segments: vec!["lib.typ".to_string()],
    };
    match store.resolve_plan(&id, Some("/data".to_string())) {
        ResolvePlan::Read(p) => assert_eq!(p, "/data/lib.typ"),
        _ => panic!("expected a read plan"),
    }
}

#[test]
fn escaping_path_is_denied() {
    let store = fresh_store();
    let id = rootless(&["..", "secret"]);
    match store.resolve_plan(&id, None) {
        ResolvePlan::Fail(FileError::AccessDenied) => {}
        _ => panic!("expected access denied"),
    }
    // a parent segment that stays inside the root is allowed
    let ok = rootless(&["sub", "..", "doc.typ"]);
    match store.resolve_plan(&ok, None) {
        ResolvePlan::Read(p) => assert_eq!(p, "/project/sub/../doc.typ"),
        _ => panic!("expected a read plan"),
    }
}

#[test]
fn replace_all_installs_virtual_files() {
    let mut store = fresh_store();
    store.replace_all(
        "X".to_string(),
        vec![("a.png".to_string(), vec![9u8, 9, 9])],
    );
    assert_eq!(store.root, "/virtual");
    let main = rootless(&["main.typ"]);
    assert_eq!(store.cached(&main).unwrap(), b"X".to_vec());
    let image = rootless(&["a.png"]);
    assert_eq!(store.cached(&image).unwrap(), vec![9u8, 9, 9]);
}

#[test]
fn replace_all_keeps_entries_of_other_roots() {
    let mut store = fresh_store();
    let id = rootless(&["doc.typ"]);
    let path = match store.resolve_plan(&id, None) {
        ResolvePlan::Read(p) => p,
        _ => panic!("expected a read plan"),
    };
    store
        .resolve_apply(&id, ReadOutcome::Success(vec![5u8]), path)
        .unwrap();
    store.replace_all("Y".to_string(), Vec::new());
    // the old entry is still addressable by its original identifier
    assert_eq!(store.cached(&id).unwrap(), vec![5u8]);
}
