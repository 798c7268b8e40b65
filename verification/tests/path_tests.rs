use hotfnl::path::{clean_path, HotPath, PathComponent};

fn parts(p: &HotPath) -> Vec<String> {
    p.components
        .iter()
        .map(|c| match c {
            PathComponent::RootDir => "/".to_string(),
            PathComponent::CurDir => ".".to_string(),
            PathComponent::ParentDir => "..".to_string(),
            PathComponent::Normal(n) => n.clone(),
        })
        .collect()
}

fn text(p: &HotPath) -> String {
    p.to_text()
}

#[test]
fn parse_absolute_with_parent() {
    let p = HotPath::parse("/a/b/../c");
    assert_eq!(parts(&p), vec!["/", "a", "b", "..", "c"]);
}

#[test]
fn parse_leading_dot_and_repeated_slashes() {
    assert_eq!(parts(&HotPath::parse("./x")), vec![".", "x"]);
    assert_eq!(parts(&HotPath::parse("a//b/")), vec!["a", "b"]);
    assert_eq!(parts(&HotPath::parse("a/./b")), vec!["a", "b"]);
    assert_eq!(parts(&HotPath::parse(".")), vec!["."]);
    assert_eq!(parts(&HotPath::parse("")), Vec::<String>::new());
    assert_eq!(parts(&HotPath::parse("//")), vec!["/"]);
    assert_eq!(parts(&HotPath::parse("..x/.y")), vec!["..x", ".y"]);
}

#[test]
fn parse_agrees_with_std_components() {
    for t in ["/a/b/../c", "./x/./y", "a//b/", "", ".", "/", "../..", "x/.", "/.hidden/f.rs"] {
        let ours = parts(&HotPath::parse(t));
        let std: Vec<String> = std::path::Path::new(t)
            .components()
            .map(|c| c.as_os_str().to_string_lossy().to_string())
            .collect();
        assert_eq!(ours, std, "text {:?}", t);
    }
}

#[test]
fn render_normalizes_text() {
    assert_eq!(text(&HotPath::parse("/a/b")), "/a/b");
    assert_eq!(text(&HotPath::parse("a//b/")), "a/b");
    assert_eq!(text(&HotPath::parse("./x")), "./x");
    assert_eq!(text(&HotPath::parse("/")), "/");
    assert_eq!(text(&HotPath::parse("")), "");
}

#[test]
fn render_then_parse_round_trip() {
    for t in ["/a/b/../c", "./x", "a/b", "/", "..", "../x"] {
        let p = HotPath::parse(t);
        let again = HotPath::parse(&p.to_text());
        assert!(p.same_as(&again), "text {:?}", t);
    }
}

#[test]
fn join_relative_absolute_and_dot() {
    assert_eq!(text(&HotPath::parse("/a").join_text("b")), "/a/b");
    assert_eq!(text(&HotPath::parse("/a").join_text("/c")), "/c");
    assert_eq!(text(&HotPath::empty().join_text("./x")), "./x");
    assert_eq!(text(&HotPath::parse("a").join_text("./x")), "a/x");
    assert_eq!(text(&HotPath::parse("a").join_text("")), "a");
    assert_eq!(text(&HotPath::parse("/ws").join_text("../dep")), "/ws/../dep");
}

#[test]
fn parent_of_paths() {
    assert_eq!(text(&HotPath::parse("/a/b").parent().unwrap()), "/a");
    assert_eq!(text(&HotPath::parse("/a").parent().unwrap()), "/");
    assert!(HotPath::parse("/").parent().is_none());
    assert!(HotPath::parse("").parent().is_none());
    assert_eq!(text(&HotPath::parse("a").parent().unwrap()), "");
}

#[test]
fn file_name_stem_and_extension() {
    let p = HotPath::parse("dir/lib.tar.gz");
    assert_eq!(p.file_name().unwrap(), "lib.tar.gz");
    assert_eq!(p.file_stem().unwrap(), "lib.tar");
    assert_eq!(p.extension().unwrap(), "gz");
    let h = HotPath::parse(".bashrc");
    assert_eq!(h.file_stem().unwrap(), ".bashrc");
    assert!(h.extension().is_none());
    let d = HotPath::parse("a.");
    assert_eq!(d.file_stem().unwrap(), "a");
    assert_eq!(d.extension().unwrap(), "");
    assert!(HotPath::parse("/").file_name().is_none());
    assert!(HotPath::parse("a/..").file_name().is_none());
}

#[test]
fn stem_and_extension_agree_with_std() {
    for t in ["a.rs", "x/y.tar.gz", ".bashrc", "a.", "..x", "noext", "/"] {
        let p = HotPath::parse(t);
        let s = std::path::Path::new(t);
        assert_eq!(p.file_stem(), s.file_stem().map(|x| x.to_string_lossy().to_string()), "{:?}", t);
        assert_eq!(p.extension(), s.extension().map(|x| x.to_string_lossy().to_string()), "{:?}", t);
    }
}

#[test]
fn stem_dot_extension_rebuilds_name() {
    let p = HotPath::parse("lib.tar.gz");
    let name = p.file_name().unwrap();
    assert_eq!(format!("{}.{}", p.file_stem().unwrap(), p.extension().unwrap()), name);
}

#[test]
fn clean_path_resolves_dots() {
    assert_eq!(text(&clean_path(&HotPath::parse("/a/b/../c/./d"))), "/a/c/d");
    assert_eq!(text(&clean_path(&HotPath::parse("a/../../b"))), "b");
    assert_eq!(text(&clean_path(&HotPath::parse("/.."))), "/");
    assert_eq!(text(&clean_path(&HotPath::parse("./x/.."))), "");
}

#[test]
fn clean_path_twice_is_once() {
    for t in ["/a/b/../c/./d", "../../x", "./a/./b/..", "/"] {
        let once = clean_path(&HotPath::parse(t));
        let twice = clean_path(&once);
        assert!(once.same_as(&twice), "{:?}", t);
    }
}

#[test]
fn same_as_compares_components() {
    assert!(HotPath::parse("a//b/").same_as(&HotPath::parse("a/b")));
    assert!(!HotPath::parse("/a").same_as(&HotPath::parse("a")));
    assert!(HotPath::parse("x").same_as(&HotPath::parse("x").duplicate()));
}
