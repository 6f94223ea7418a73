use axiom_kernel::vfs::{AbsoluteOwnedPath, AbsolutePath, OwnedPath, Path, PathNotAbsoluteError};

#[test]
fn test_try_new_valid() {
    assert!(AbsolutePath::try_new("/").is_ok());
    assert!(AbsolutePath::try_new("//").is_ok());
    assert!(AbsolutePath::try_new("///").is_ok());
    assert!(AbsolutePath::try_new("/foo").is_ok());
    assert!(AbsolutePath::try_new("/foo/bar").is_ok());
    assert!(AbsolutePath::try_new("/foo/bar/baz").is_ok());

    assert!(AbsolutePath::try_new("/foo-bar").is_ok());
    assert!(AbsolutePath::try_new("/foo_bar").is_ok());
    assert!(AbsolutePath::try_new("/foo.bar").is_ok());
    assert!(AbsolutePath::try_new("/foo bar").is_ok());

    assert!(AbsolutePath::try_new("/.").is_ok());
    assert!(AbsolutePath::try_new("/..").is_ok());
    assert!(AbsolutePath::try_new("/.hidden").is_ok());
}

#[test]
fn test_try_new_invalid() {
    assert!(AbsolutePath::try_new("").is_err());
    assert!(AbsolutePath::try_new("foo").is_err());
    assert!(AbsolutePath::try_new("foo/bar").is_err());
    assert!(AbsolutePath::try_new("./foo").is_err());
    assert!(AbsolutePath::try_new("../foo").is_err());
    assert!(AbsolutePath::try_new("foo/").is_err());
    assert!(AbsolutePath::try_new(" /foo").is_err());
}

#[test]
fn test_try_from_str() {
    let result: Result<AbsolutePath, _> = "/".try_into();
    assert!(result.is_ok());

    let result: Result<AbsolutePath, _> = "/foo/bar".try_into();
    assert!(result.is_ok());

    let result: Result<AbsolutePath, _> = "".try_into();
    assert!(result.is_err());

    let result: Result<AbsolutePath, _> = "foo".try_into();
    assert!(result.is_err());

    let result: Result<AbsolutePath, _> = "foo/bar".try_into();
    assert!(result.is_err());
}

#[test]
fn test_try_from_path() {
    let path = Path::new("/foo/bar");
    let result: Result<AbsolutePath, _> = path.try_into();
    assert!(result.is_ok());

    let path = Path::new("foo/bar");
    let result: Result<AbsolutePath, _> = path.try_into();
    assert!(result.is_err());

    let path = Path::new("");
    let result: Result<AbsolutePath, _> = path.try_into();
    assert!(result.is_err());
}

#[test]
fn test_deref_to_path() {
    let abs_path: AbsolutePath = "/foo/bar".try_into().unwrap();
    let path: Path = abs_path.as_path();
    assert_eq!(path.as_str(), "/foo/bar");
}

#[test]
fn test_display() {
    let path: AbsolutePath = "/foo/bar".try_into().unwrap();
    assert_eq!(path.as_str(), "/foo/bar");

    let path: AbsolutePath = "/".try_into().unwrap();
    assert_eq!(path.as_str(), "/");

    let path: AbsolutePath = "//foo".try_into().unwrap();
    assert_eq!(path.as_str(), "//foo");
}

#[test]
fn test_to_owned() {
    let path: AbsolutePath = "/foo/bar".try_into().unwrap();
    let owned = path.to_owned_path();
    assert_eq!(owned.as_str(), "/foo/bar");

    let path: AbsolutePath = "/".try_into().unwrap();
    let owned = path.to_owned_path();
    assert_eq!(owned.as_str(), "/");
}

#[test]
fn test_new() {
    let path = AbsoluteOwnedPath::new();
    assert_eq!(path.as_str(), "/");
    assert!(path.is_absolute());
}

#[test]
fn test_default() {
    let path = AbsoluteOwnedPath::default();
    assert_eq!(path.as_str(), "/");
    assert!(path.is_absolute());
}

#[test]
fn test_try_from_str_valid() {
    let path: Result<AbsoluteOwnedPath, _> = "/".try_into();
    assert!(path.is_ok());
    assert_eq!(path.unwrap().as_str(), "/");

    let path: Result<AbsoluteOwnedPath, _> = "/foo".try_into();
    assert!(path.is_ok());
    assert_eq!(path.unwrap().as_str(), "/foo");

    let path: Result<AbsoluteOwnedPath, _> = "/foo/bar".try_into();
    assert!(path.is_ok());
    assert_eq!(path.unwrap().as_str(), "/foo/bar");

    let path: Result<AbsoluteOwnedPath, _> = "//foo".try_into();
    assert!(path.is_ok());
    assert_eq!(path.unwrap().as_str(), "//foo");
}

#[test]
fn test_try_from_str_invalid() {
    let path: Result<AbsoluteOwnedPath, _> = "".try_into();
    assert!(path.is_err());

    let path: Result<AbsoluteOwnedPath, _> = "foo".try_into();
    assert!(path.is_err());

    let path: Result<AbsoluteOwnedPath, _> = "foo/bar".try_into();
    assert!(path.is_err());

    let path: Result<AbsoluteOwnedPath, _> = "./foo".try_into();
    assert!(path.is_err());

    let path: Result<AbsoluteOwnedPath, _> = "../foo".try_into();
    assert!(path.is_err());
}

#[test]
fn test_try_from_owned_path_valid() {
    let owned = OwnedPath::new("/");
    let path: Result<AbsoluteOwnedPath, _> = owned.try_into();
    assert!(path.is_ok());
    assert_eq!(path.unwrap().as_str(), "/");

    let owned = OwnedPath::new("/foo/bar");
    let path: Result<AbsoluteOwnedPath, _> = owned.try_into();
    assert!(path.is_ok());
    assert_eq!(path.unwrap().as_str(), "/foo/bar");
}

#[test]
fn test_try_from_owned_path_invalid() {
    let owned = OwnedPath::new("");
    let path: Result<AbsoluteOwnedPath, _> = owned.try_into();
    assert!(path.is_err());

    let owned = OwnedPath::new("foo");
    let path: Result<AbsoluteOwnedPath, _> = owned.try_into();
    assert!(path.is_err());

    let owned = OwnedPath::new("foo/bar");
    let path: Result<AbsoluteOwnedPath, PathNotAbsoluteError> = owned.try_into();
    assert_eq!(path.err(), Some(PathNotAbsoluteError));
}

#[test]
fn test_deref() {
    let abs_path = AbsoluteOwnedPath::new();
    let owned: &OwnedPath = abs_path.as_owned_path();
    assert_eq!(owned.as_str(), "/");
}

#[test]
fn test_deref_mut() {
    let mut abs_path = AbsoluteOwnedPath::new();
    abs_path.push("foo");
    assert_eq!(abs_path.as_str(), "/foo");

    abs_path.push("bar");
    assert_eq!(abs_path.as_str(), "/foo/bar");

    abs_path.append_str(".txt");
    assert_eq!(abs_path.as_str(), "/foo/bar.txt");
}

#[test]
fn test_as_ref_absolute_path() {
    let abs_owned = AbsoluteOwnedPath::new();
    let abs_path: AbsolutePath = abs_owned.as_absolute_path();
    assert_eq!(abs_path.as_str(), "/");
}

#[test]
fn test_borrow() {
    let abs_owned: AbsoluteOwnedPath = "/foo/bar".try_into().unwrap();
    let borrowed: AbsolutePath = abs_owned.as_absolute_path();
    assert_eq!(borrowed.as_str(), "/foo/bar");
}

#[test]
fn test_clone() {
    let path: AbsoluteOwnedPath = "/foo/bar".try_into().unwrap();
    let cloned = path.clone();
    assert_eq!(path, cloned);
    assert_eq!(cloned.as_str(), "/foo/bar");
}

#[test]
fn test_eq() {
    let path1: AbsoluteOwnedPath = "/foo/bar".try_into().unwrap();
    let path2: AbsoluteOwnedPath = "/foo/bar".try_into().unwrap();
    let path3: AbsoluteOwnedPath = "/foo/baz".try_into().unwrap();

    assert_eq!(path1, path2);
    assert_ne!(path1, path3);
}

#[test]
fn test_push_operations() {
    let mut path = AbsoluteOwnedPath::new();
    path.push("home");
    assert_eq!(path.as_str(), "/home");

    path.push("user");
    assert_eq!(path.as_str(), "/home/user");

    path.push("documents");
    assert_eq!(path.as_str(), "/home/user/documents");
}

#[test]
fn test_append_str_operations() {
    let mut path = AbsoluteOwnedPath::new();
    path.push("file");
    path.append_str(".txt");
    assert_eq!(path.as_str(), "/file.txt");

    let mut path: AbsoluteOwnedPath = "/foo".try_into().unwrap();
    path.append_str("bar");
    assert_eq!(path.as_str(), "/foobar");
}

#[test]
fn test_mixed_operations() {
    let mut path = AbsoluteOwnedPath::new();
    path.push("home");
    path.push("user");
    path.push("file");
    path.append_str(".txt");
    assert_eq!(path.as_str(), "/home/user/file.txt");
}

#[test]
fn test_file_name() {
    let path: AbsoluteOwnedPath = "/foo/bar".try_into().unwrap();
    assert_eq!(path.file_name(), Some("bar"));

    let path: AbsoluteOwnedPath = "/foo".try_into().unwrap();
    assert_eq!(path.file_name(), Some("foo"));

    let path = AbsoluteOwnedPath::new();
    assert_eq!(path.file_name(), None);
}

#[test]
fn test_always_absolute() {
    let mut path = AbsoluteOwnedPath::new();
    assert!(path.is_absolute());

    path.push("foo");
    assert!(path.is_absolute());

    path.push("bar");
    assert!(path.is_absolute());

    path.append_str("baz");
    assert!(path.is_absolute());
}

#[test]
fn owned_path_push_onto_trailing_separator() {
    let mut p = OwnedPath::new("/a/");
    p.push("b");
    assert_eq!(p.as_str(), "/a/b");
    let mut q = OwnedPath::new("");
    q.push("rel");
    assert_eq!(q.as_str(), "rel");
    assert!(!q.is_absolute());
    assert_eq!(Path::new("/x/y/").file_name(), Some("y"));
}

#[test]
fn test_parent_absolute() {
    let path: AbsolutePath = "/foo/bar".try_into().unwrap();
    let parent = path.parent();
    assert!(parent.is_some());
    assert_eq!(parent.unwrap().as_str(), "/foo");

    let path: AbsolutePath = "/foo".try_into().unwrap();
    assert!(path.parent().is_none());

    let path: AbsolutePath = "/".try_into().unwrap();
    assert!(path.parent().is_none());

    let path: AbsolutePath = "//foo//bar".try_into().unwrap();
    let parent = path.parent();
    assert!(parent.is_some());
    assert_eq!(parent.unwrap().as_str(), "//foo");

    let path: AbsolutePath = "//foo".try_into().unwrap();
    assert!(path.parent().is_none());

    let path: AbsolutePath = "/foo/bar/".try_into().unwrap();
    let parent = path.parent();
    assert!(parent.is_some());
    assert_eq!(parent.unwrap().as_str(), "/foo");

    let path: AbsolutePath = "/a/b/c/d/e/f".try_into().unwrap();
    let parent = path.parent();
    assert!(parent.is_some());
    assert_eq!(parent.unwrap().as_str(), "/a/b/c/d/e");
}

#[test]
fn test_parent_navigation() {
    let path: AbsoluteOwnedPath = "/foo/bar/baz".try_into().unwrap();
    assert_eq!(path.parent(), Some(Path::new("/foo/bar")));

    let path: AbsoluteOwnedPath = "/foo".try_into().unwrap();
    assert_eq!(path.parent(), None);

    let path = AbsoluteOwnedPath::new();
    assert_eq!(path.parent(), None);
}

#[test]
fn relative_parent() {
    assert_eq!(Path::new("a/b").parent(), Some(Path::new("a")));
    assert_eq!(Path::new("a").parent(), None);
    assert_eq!(OwnedPath::new("x//y//").parent(), Some(Path::new("x")));
}
