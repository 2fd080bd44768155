use cryptum_text::path::{is_hidden_name, path_extension, path_file_name, path_join, path_parent};
use std::path::{Path, PathBuf};

fn samples() -> Vec<&'static str> {
    vec![
        "", "/", "//", "///", "foo", "/foo", "foo/bar", "/foo/bar.txt", "foo.tar.gz", ".bashrc",
        "foo.", "foo/.", "foo/..", "..", ".", "./foo", "./", ".//", "/.", "/..", "a//b", "a/b/",
        "a/b//", "/foo//bar/./", "./.", "./..", "a/./b", "..a", "a..", "a/.b", ".a.b", "/.a",
        "x/.hidden/file.rs", "main.rs", "noext", "dir.d/file", "a.b/", "a.b/.", "//foo", "foo/./",
        "/./foo", "/home/user/project", "/home/user/.config/", "a/b/../c.txt", "./a.b/c.d.e",
        "...", "a/...", ".../x", " ", "a b.c d", "/x/y.", "é.ü", "日本/語.txt", "q/.",
        "/usr/lib/", "rel/", "rel/.hidden.", ".x/", "./.x", "a.", ".a.", "a/b/.c/..",
    ]
}

#[test]
fn extension_agrees_with_the_standard_library() {
    for p in samples() {
        let expected = Path::new(p).extension().map(|e| e.to_str().unwrap().to_string());
        assert_eq!(path_extension(p), expected, "extension of {:?}", p);
    }
}

#[test]
fn file_name_agrees_with_the_standard_library() {
    for p in samples() {
        let expected = Path::new(p).file_name().map(|e| e.to_str().unwrap().to_string());
        assert_eq!(path_file_name(p), expected, "file name of {:?}", p);
    }
}

#[test]
fn parent_agrees_with_the_standard_library() {
    for p in samples() {
        let expected = Path::new(p).parent().map(|q| q.to_str().unwrap().to_string());
        assert_eq!(path_parent(p), expected, "parent of {:?}", p);
    }
}

#[test]
fn join_agrees_with_the_standard_library() {
    for dir in samples() {
        for name in samples() {
            let mut expected = PathBuf::from(dir);
            expected.push(name);
            assert_eq!(
                path_join(dir, name),
                expected.to_str().unwrap().to_string(),
                "{:?} joined with {:?}",
                dir,
                name
            );
        }
    }
}

#[test]
fn extension_of_plain_names() {
    assert_eq!(path_extension("main.rs"), Some("rs".to_string()));
    assert_eq!(path_extension("archive.tar.gz"), Some("gz".to_string()));
    assert_eq!(path_extension("noext"), None);
    assert_eq!(path_extension(".bashrc"), None);
    assert_eq!(path_extension("trailing."), Some(String::new()));
    assert_eq!(path_extension(""), None);
    assert_eq!(path_extension("dir.d/file"), None);
    assert_eq!(path_extension("dir/file.txt/"), Some("txt".to_string()));
    assert_eq!(path_extension("dir/.."), None);
}

#[test]
fn file_name_skips_what_does_not_count() {
    assert_eq!(path_file_name("/usr/lib/"), Some("lib".to_string()));
    assert_eq!(path_file_name("a/b/."), Some("b".to_string()));
    assert_eq!(path_file_name("a//b//"), Some("b".to_string()));
    assert_eq!(path_file_name("/"), None);
    assert_eq!(path_file_name(".."), None);
    assert_eq!(path_file_name("."), None);
    assert_eq!(path_file_name(""), None);
}

#[test]
fn parent_of_the_root_is_none() {
    assert_eq!(path_parent("/"), None);
    assert_eq!(path_parent(""), None);
    assert_eq!(path_parent("//"), None);
}

#[test]
fn parent_drops_the_last_segment() {
    assert_eq!(path_parent("/home/user"), Some("/home".to_string()));
    assert_eq!(path_parent("/home"), Some("/".to_string()));
    assert_eq!(path_parent("project"), Some(String::new()));
    assert_eq!(path_parent("a/b/"), Some("a".to_string()));
    assert_eq!(path_parent("/foo//bar/./"), Some("/foo".to_string()));
    assert_eq!(path_parent("./foo"), Some(".".to_string()));
    assert_eq!(path_parent("."), Some(String::new()));
}

#[test]
fn join_puts_one_separator() {
    assert_eq!(path_join("/home/user", "a.txt"), "/home/user/a.txt");
    assert_eq!(path_join("/home/user/", "a.txt"), "/home/user/a.txt");
    assert_eq!(path_join("", "a.txt"), "a.txt");
    assert_eq!(path_join("/", "a.txt"), "/a.txt");
    assert_eq!(path_join("/home", "/etc"), "/etc");
    assert_eq!(path_join("dir", ""), "dir/");
}

#[test]
fn hidden_names_start_with_a_dot() {
    assert!(is_hidden_name(".hidden"));
    assert!(is_hidden_name("."));
    assert!(is_hidden_name(".."));
    assert!(!is_hidden_name("a.txt"));
    assert!(!is_hidden_name("b"));
    assert!(!is_hidden_name(""));
    assert!(!is_hidden_name("a.hidden"));
}

fn all_paths(max_len: usize) -> Vec<String> {
    let alphabet = ['/', '.', 'a'];
    let mut all = vec![String::new()];
    let mut last = vec![String::new()];
    for _ in 0..max_len {
        let mut next = Vec::new();
        for p in &last {
            for c in alphabet {
                let mut q = p.clone();
                q.push(c);
                next.push(q);
            }
        }
        all.extend(next.iter().cloned());
        last = next;
    }
    all
}

#[test]
fn every_short_path_agrees_with_the_standard_library() {
    for p in all_paths(7) {
        let ext = Path::new(&p).extension().map(|e| e.to_str().unwrap().to_string());
        assert_eq!(path_extension(&p), ext, "extension of {:?}", p);
        let name = Path::new(&p).file_name().map(|e| e.to_str().unwrap().to_string());
        assert_eq!(path_file_name(&p), name, "file name of {:?}", p);
        let up = Path::new(&p).parent().map(|q| q.to_str().unwrap().to_string());
        assert_eq!(path_parent(&p), up, "parent of {:?}", p);
    }
}

#[test]
fn every_short_join_agrees_with_the_standard_library() {
    let paths = all_paths(4);
    for dir in &paths {
        for name in &paths {
            let mut expected = PathBuf::from(dir);
            expected.push(name);
            assert_eq!(
                path_join(dir, name),
                expected.to_str().unwrap().to_string(),
                "{:?} joined with {:?}",
                dir,
                name
            );
        }
    }
}

#[test]
fn a_joined_plain_name_is_found_again() {
    for dir in all_paths(5) {
        for name in ["a", ".a", "a.a", "..a", "a.", "...", ".hidden", "b c"] {
            let joined = path_join(&dir, name);
            assert_eq!(path_file_name(&joined), Some(name.to_string()), "{:?}", joined);
        }
    }
}

#[test]
fn going_up_always_comes_to_rest() {
    for p in all_paths(6) {
        let mut at = p.clone();
        let mut steps: usize = 0;
        while let Some(up) = path_parent(&at) {
            assert!(up.len() < at.len());
            assert!(at.starts_with(&up));
            at = up;
            steps += 1;
            assert!(steps <= p.len());
        }
    }
}
