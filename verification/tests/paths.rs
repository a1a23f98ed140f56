use website::paths::{CopyError, CopyWalk};

#[test]
fn walk_starts_at_the_source() {
    let mut walk = CopyWalk::new("/src", "/dst");
    assert_eq!(walk.next_item(), Some("/src".to_string()));
    assert_eq!(walk.next_item(), None);
}

#[test]
fn walk_visits_last_pushed_first() {
    let mut walk = CopyWalk::new("/src", "/dst");
    walk.next_item();
    walk.push_entries(vec!["/src/a".to_string(), "/src/b".to_string()]);
    walk.push_entries(vec!["/src/b/c".to_string()]);
    assert_eq!(walk.next_item(), Some("/src/b/c".to_string()));
    assert_eq!(walk.next_item(), Some("/src/b".to_string()));
    assert_eq!(walk.next_item(), Some("/src/a".to_string()));
    assert_eq!(walk.next_item(), None);
}

#[test]
fn destination_mirrors_the_source() {
    let walk = CopyWalk::new("/src", "/dst");
    assert_eq!(walk.destination("/src/a/b.html"), Ok("/dst/a/b.html".to_string()));
    assert_eq!(walk.destination("/src"), Ok("/dst/".to_string()));
    assert_eq!(walk.destination("/other/x"), Err(CopyError::NotUnderSource));
    assert_eq!(walk.destination("/srcx/a"), Err(CopyError::NotUnderSource));
}

#[test]
fn file_options_hold_the_destination() {
    let walk = CopyWalk::new("static/root", "dist");
    let opts = walk.file_options("static/root/css/site.css").ok().unwrap();
    assert_eq!(opts.dest_path, "dist/css/site.css");
    assert!(walk.file_options("elsewhere").is_err());
}

#[test]
fn file_extension_of_paths() {
    assert_eq!(CopyWalk::file_extension("/a/index.html"), Some("html".to_string()));
    assert_eq!(CopyWalk::file_extension("/a/archive.tar.gz"), Some("gz".to_string()));
    assert_eq!(CopyWalk::file_extension("/a/README"), None);
    assert_eq!(CopyWalk::file_extension("/a/.hidden"), None);
}

#[test]
fn walk_visits_each_node_of_a_tree_once() {
    // root: a/ (x, y), b
    let children = |p: &str| -> Vec<String> {
        match p {
            "/r" => vec!["/r/a".to_string(), "/r/b".to_string()],
            "/r/a" => vec!["/r/a/x".to_string(), "/r/a/y".to_string()],
            _ => vec![],
        }
    };
    let mut walk = CopyWalk::new("/r", "/d");
    let mut seen = Vec::new();
    while let Some(p) = walk.next_item() {
        walk.push_entries(children(&p));
        seen.push(p);
    }
    assert_eq!(seen, vec!["/r", "/r/b", "/r/a", "/r/a/y", "/r/a/x"]);
}

#[test]
fn destination_of_root_ends_in_separator() {
    let walk = CopyWalk::new("src", "");
    assert_eq!(walk.destination("src/a"), Ok("a".to_string()));
    let walk = CopyWalk::new("src", "out/");
    assert_eq!(walk.destination("src/a"), Ok("out/a".to_string()));
}
