use axiom_kernel::vfs::{Filenames, Path};

fn forward<'a>(mut names: Filenames<'a>) -> Vec<&'a str> {
    let mut out = Vec::new();
    while let Some(n) = names.next() {
        out.push(n);
    }
    out
}

fn backward<'a>(mut names: Filenames<'a>) -> Vec<&'a str> {
    let mut out = Vec::new();
    while let Some(n) = names.next_back() {
        out.push(n);
    }
    out
}

#[test]
fn test_filenames_iter_front_back() {
    {
        let path = Path::new("/foo/bar/baz");
        let mut filenames = path.filenames();
        assert_eq!(filenames.next(), Some("foo"));
        assert_eq!(filenames.next(), Some("bar"));
        assert_eq!(filenames.next_back(), Some("baz"));
        assert_eq!(filenames.next(), None);
        assert_eq!(filenames.next_back(), None);
    }
    {
        let path = Path::new("/foo/bar/baz");
        let mut filenames = path.filenames();
        assert_eq!(filenames.next(), Some("foo"));
        assert_eq!(filenames.next_back(), Some("baz"));
        assert_eq!(filenames.next(), Some("bar"));
        assert_eq!(filenames.next_back(), None);
        assert_eq!(filenames.next(), None);
    }
}

#[test]
fn test_filenames() {
    for (path, expected) in &[
        ("", &[][..]),
        ("/", &[]),
        ("//", &[]),
        ("///", &[]),
        (" /", &[" "]),
        ("foo", &["foo"]),
        ("/foo", &["foo"]),
        ("//foo", &["foo"]),
        ("foo/", &["foo"]),
        ("foo//", &["foo"]),
        ("/foo/", &["foo"]),
        ("//foo//", &["foo"]),
        ("foo/bar", &["foo", "bar"]),
        ("/foo/bar", &["foo", "bar"]),
        ("//foo/bar", &["foo", "bar"]),
        ("///foo/bar", &["foo", "bar"]),
        ("foo/bar/", &["foo", "bar"]),
        ("foo/bar//", &["foo", "bar"]),
        ("foo/bar///", &["foo", "bar"]),
        ("foo//bar", &["foo", "bar"]),
        ("foo///bar", &["foo", "bar"]),
        ("///foo///bar///", &["foo", "bar"]),
        ("/foo/bar/baz", &["foo", "bar", "baz"]),
        ("foo/bar/baz", &["foo", "bar", "baz"]),
        ("/foo/bar/baz/", &["foo", "bar", "baz"]),
        ("//foo/bar/baz/", &["foo", "bar", "baz"]),
        ("//foo/bar/baz//", &["foo", "bar", "baz"]),
        ("///foo/bar/baz//", &["foo", "bar", "baz"]),
        ("///foo/bar/baz///", &["foo", "bar", "baz"]),
    ] {
        let path = Path::new(path);
        {
            let mut filenames = path.filenames();
            for (i, expected) in expected.iter().enumerate() {
                assert_eq!(filenames.next(), Some(*expected), "at index {}, for path '{}'", i, path.as_str());
            }
            assert_eq!(filenames.next(), None, "for path '{}'", path.as_str());
        }
        {
            let mut filenames = path.filenames();
            for (i, expected) in expected.iter().rev().enumerate() {
                assert_eq!(filenames.next_back(), Some(*expected), "at index {}, for path '{}'", i, path.as_str());
            }
            assert_eq!(filenames.next_back(), None, "for path '{}'", path.as_str());
        }
    }
}

#[test]
fn test_filenames_with_dots() {
    assert_eq!(forward(Path::new("/./foo/../bar").filenames()), vec![".", "foo", "..", "bar"]);
    assert_eq!(forward(Path::new("./foo").filenames()), vec![".", "foo"]);
    assert_eq!(forward(Path::new("../foo").filenames()), vec!["..", "foo"]);
    assert_eq!(forward(Path::new("/.").filenames()), vec!["."]);
    assert_eq!(forward(Path::new("/..").filenames()), vec![".."]);
}

#[test]
fn test_filenames_with_spaces() {
    assert_eq!(forward(Path::new("/foo bar/baz qux").filenames()), vec!["foo bar", "baz qux"]);
    assert_eq!(forward(Path::new("/ foo/ bar /").filenames()), vec![" foo", " bar "]);
}

#[test]
fn test_filenames_with_special_chars() {
    assert_eq!(
        forward(Path::new("/foo-bar/baz_qux/file.txt").filenames()),
        vec!["foo-bar", "baz_qux", "file.txt"]
    );
    assert_eq!(forward(Path::new("/@#$/foo!").filenames()), vec!["@#$", "foo!"]);
}

#[test]
fn test_filenames_single_component() {
    assert_eq!(forward(Path::new("foo").filenames()), vec!["foo"]);
    assert_eq!(forward(Path::new("/foo").filenames()), vec!["foo"]);
    assert_eq!(forward(Path::new("foo/").filenames()), vec!["foo"]);
    assert_eq!(forward(Path::new("/foo/").filenames()), vec!["foo"]);
}

#[test]
fn test_filenames_alternating_next_back() {
    let path = Path::new("/a/b/c/d/e");
    let mut iter = path.filenames();

    assert_eq!(iter.next(), Some("a"));
    assert_eq!(iter.next_back(), Some("e"));
    assert_eq!(iter.next(), Some("b"));
    assert_eq!(iter.next_back(), Some("d"));
    assert_eq!(iter.next(), Some("c"));
    assert_eq!(iter.next_back(), None);
    assert_eq!(iter.next(), None);
}

#[test]
fn test_filenames_collect_forward() {
    assert_eq!(forward(Path::new("/foo/bar/baz/qux").filenames()), vec!["foo", "bar", "baz", "qux"]);
}

#[test]
fn test_filenames_collect_backward() {
    assert_eq!(backward(Path::new("/foo/bar/baz/qux").filenames()), vec!["qux", "baz", "bar", "foo"]);
}

#[test]
fn test_filenames_count() {
    assert_eq!(forward(Path::new("").filenames()).len(), 0);
    assert_eq!(forward(Path::new("/").filenames()).len(), 0);
    assert_eq!(forward(Path::new("foo").filenames()).len(), 1);
    assert_eq!(forward(Path::new("/foo").filenames()).len(), 1);
    assert_eq!(forward(Path::new("/foo/bar").filenames()).len(), 2);
    assert_eq!(forward(Path::new("/foo/bar/baz").filenames()).len(), 3);
    assert_eq!(forward(Path::new("///foo///bar///baz///").filenames()).len(), 3);
}

#[test]
fn test_filenames_nth() {
    let path = Path::new("/foo/bar/baz/qux");
    let mut iter = path.filenames();

    assert_eq!(iter.next(), Some("foo"));
    assert_eq!(iter.next(), Some("bar"));
    assert_eq!(iter.next(), Some("baz"));
    assert_eq!(iter.next(), Some("qux"));
    assert_eq!(iter.next(), None);
}

#[test]
fn test_filenames_last() {
    assert_eq!(Path::new("/foo/bar/baz").filenames().next_back(), Some("baz"));
    assert_eq!(Path::new("/foo").filenames().next_back(), Some("foo"));
    assert_eq!(Path::new("").filenames().next_back(), None);
    assert_eq!(Path::new("/").filenames().next_back(), None);
}

#[test]
fn test_filenames_empty_components() {
    assert_eq!(forward(Path::new("/////").filenames()).len(), 0);
    assert_eq!(forward(Path::new("foo////bar").filenames()), vec!["foo", "bar"]);
}

#[test]
fn test_filenames_hidden_files() {
    assert_eq!(forward(Path::new("/.hidden/file").filenames()), vec![".hidden", "file"]);
    assert_eq!(forward(Path::new("/foo/.bar/.baz").filenames()), vec!["foo", ".bar", ".baz"]);
}

#[test]
fn test_filenames_very_long_path() {
    let path = Path::new("/a/b/c/d/e/f/g/h/i/j/k/l/m/n/o/p/q/r/s/t/u/v/w/x/y/z");
    let names = forward(path.filenames());
    assert_eq!(names.len(), 26);
    assert_eq!(names[0], "a");
    assert_eq!(names[25], "z");
}

#[test]
fn test_filenames_empty_and_root() {
    assert_eq!(forward(Path::new("").filenames()).len(), 0);
    assert_eq!(forward(Path::new("/").filenames()).len(), 0);
    assert_eq!(forward(Path::new("//").filenames()).len(), 0);
    assert_eq!(forward(Path::new("///").filenames()).len(), 0);
}

#[test]
fn filenames_with_multibyte_characters() {
    assert_eq!(forward(Path::new("/ünïcode/日本/x").filenames()), vec!["ünïcode", "日本", "x"]);
    assert_eq!(backward(Path::new("/ünïcode/日本/").filenames()), vec!["日本", "ünïcode"]);
}
