use rustweb::resolve::{
    first_candidate, index_candidate, mode_is_executable, resolve, MetaKind,
};

#[test]
fn root_and_path_concatenate() {
    let c = first_candidate(b"assets", b"/foo.html");
    assert_eq!(c.as_slice(), b"assets/foo.html");
}

#[test]
fn trailing_slash_appends_index() {
    let c = first_candidate(b"assets", b"/");
    assert_eq!(c.as_slice(), b"assets/index.html");
    let c = first_candidate(b"assets", b"/sub/");
    assert_eq!(c.as_slice(), b"assets/sub/index.html");
}

#[test]
fn empty_url_is_the_bare_root() {
    let c = first_candidate(b"assets", b"");
    assert_eq!(c.as_slice(), b"assets");
}

#[test]
fn index_candidate_appends_slash_index() {
    let c = index_candidate(b"assets/dir");
    assert_eq!(c.as_slice(), b"assets/dir/index.html");
}

#[test]
fn regular_file_resolves_to_itself() {
    let t = resolve(b"assets", b"/foo.html", MetaKind::RegularFile { mode: 0o644 }, MetaKind::Absent)
        .unwrap();
    assert_eq!(t.path.as_slice(), b"assets/foo.html");
    assert!(!t.is_executable);
}

#[test]
fn directory_resolves_to_its_index() {
    let t = resolve(
        b"assets",
        b"/dir",
        MetaKind::Directory,
        MetaKind::RegularFile { mode: 0o755 },
    )
    .unwrap();
    assert_eq!(t.path.as_slice(), b"assets/dir/index.html");
    assert!(t.is_executable);
}

#[test]
fn absent_path_does_not_resolve() {
    assert!(resolve(b"assets", b"/nope", MetaKind::Absent, MetaKind::Absent).is_none());
}

#[test]
fn directory_without_index_does_not_resolve() {
    assert!(resolve(b"assets", b"/dir", MetaKind::Directory, MetaKind::Absent).is_none());
    assert!(resolve(b"assets", b"/dir", MetaKind::Directory, MetaKind::Directory).is_none());
}

#[test]
fn any_execute_bit_marks_executable() {
    assert!(!mode_is_executable(0o644));
    assert!(mode_is_executable(0o744));
    assert!(mode_is_executable(0o614));
    assert!(mode_is_executable(0o641));
    assert!(mode_is_executable(0o755));
    assert!(!mode_is_executable(0o000));
}

#[test]
fn resolving_twice_with_unchanged_answers_agrees() {
    let first = MetaKind::Directory;
    let second = MetaKind::RegularFile { mode: 0o700 };
    let a = resolve(b"assets", b"/dir", first, second).unwrap();
    let b = resolve(b"assets", b"/dir", first, second).unwrap();
    assert_eq!(a.path.as_slice(), b.path.as_slice());
    assert_eq!(a.is_executable, b.is_executable);
}
