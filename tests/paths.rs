use ftp_server::path::{
    confine, is_normal_dir, is_within, join_path, parent_dir, path_under_root, relative_to_root, split_leaf,
    strip_root_of, PathError,
};

fn v(s: &str) -> Vec<u8> {
    s.as_bytes().to_vec()
}

#[test]
fn join_relative_and_absolute() {
    assert_eq!(join_path(&v("/a"), &v("b")), v("/a/b"));
    assert_eq!(join_path(&v("/"), &v("b")), v("/b"));
    assert_eq!(join_path(&v("/a"), &v("/c")), v("/c"));
}

#[test]
fn client_paths_land_under_root() {
    assert_eq!(strip_root_of(&v("//x/y")), v("x/y"));
    assert_eq!(path_under_root(&v("/srv/ftp"), &v("/a/b")), v("/srv/ftp/a/b"));
    assert_eq!(path_under_root(&v("/srv/ftp"), &v("/")), v("/srv/ftp/"));
    assert_eq!(path_under_root(&v("/"), &v("/etc")), v("/etc"));
}

#[test]
fn confinement() {
    let root = v("/srv/ftp");
    assert_eq!(confine(Some(v("/srv/ftp/a")), &root), Ok(v("/srv/ftp/a")));
    assert_eq!(confine(Some(v("/srv/ftp")), &root), Ok(v("/srv/ftp")));
    assert_eq!(confine(Some(v("/etc")), &root), Err(PathError::PermissionDenied));
    assert_eq!(confine(Some(v("/srv/ftpx")), &root), Err(PathError::PermissionDenied));
    assert_eq!(confine(None, &root), Err(PathError::NotFound));
    assert!(is_within(&v("/"), &v("/etc")));
}

#[test]
fn resolved_paths_start_with_root() {
    let root = v("/srv/ftp");
    for c in ["/srv/ftp", "/srv/ftp/a/b", "/srv", "/srv/ftp2", "/", "/srv/ftp/.."] {
        if let Ok(r) = confine(Some(v(c)), &root) {
            assert!(r.starts_with(&root));
        }
    }
}

#[test]
fn relative_forms() {
    assert_eq!(relative_to_root(&v("/srv/ftp"), &v("/srv/ftp")), v("/"));
    assert_eq!(relative_to_root(&v("/srv/ftp"), &v("/srv/ftp/sub")), v("/sub"));
    assert_eq!(relative_to_root(&v("/"), &v("/sub/x")), v("/sub/x"));
}

#[test]
fn parents() {
    assert_eq!(parent_dir(&v("/a/b")), v("/a"));
    assert_eq!(parent_dir(&v("/a")), v("/"));
    assert_eq!(parent_dir(&v("/")), v("/"));
}

#[test]
fn leaf_splitting() {
    assert_eq!(split_leaf(&v("/a/b")), Some((v("/a"), v("b"))));
    assert_eq!(split_leaf(&v("/b/")), Some((v("/"), v("b"))));
    assert_eq!(split_leaf(&v("/a/..")), None);
    assert_eq!(split_leaf(&v("/")), None);
    assert_eq!(split_leaf(&v("b")), None);
    assert_eq!(split_leaf(&v("/a/.")), Some((v("/"), v("a"))));
    assert_eq!(split_leaf(&v("/a/b/./.")), Some((v("/a"), v("b"))));
    assert_eq!(split_leaf(&v("/.")), None);
}

#[test]
fn normalized_directories() {
    assert!(is_normal_dir(&v("/")));
    assert!(is_normal_dir(&v("/a/b")));
    assert!(!is_normal_dir(&v("/a/")));
    assert!(!is_normal_dir(&v("/a//b")));
    assert!(!is_normal_dir(&v("//")));
    assert!(!is_normal_dir(&v("a")));
    assert!(!is_normal_dir(&v("")));
}
