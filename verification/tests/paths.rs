use antares::fs_path::FsPath;
use antares::text::{contains, trim, trim_start};
use antares::{default_source_path, normalize_ready_path, normalize_source_path, CharClass};

/// Every string of up to `len` characters out of `alphabet`.
fn strings(alphabet: &[char], len: usize) -> Vec<String> {
    let mut all = vec![String::new()];
    let mut last = vec![String::new()];
    for _ in 0..len {
        let mut next = Vec::new();
        for s in &last {
            for c in alphabet {
                let mut t = s.clone();
                t.push(*c);
                next.push(t);
            }
        }
        all.extend(next.iter().cloned());
        last = next;
    }
    all
}

fn text(path: &FsPath) -> String {
    String::from_utf8(path.as_bytes().to_vec()).unwrap()
}

#[test]
fn white_space_is_that_of_std() {
    for v in 0..=0x10FFFFu32 {
        if let Some(c) = char::from_u32(v) {
            assert_eq!(CharClass::WhiteSpace.contains(c), c.is_whitespace(), "{:x}", v);
            assert_eq!(CharClass::Slash.contains(c), c == '/');
        }
    }
}

#[test]
fn trimming_is_that_of_std() {
    for s in strings(&[' ', '/', 'a', '\u{3000}', '\n'], 6) {
        assert_eq!(trim(&s, CharClass::WhiteSpace), s.trim());
        assert_eq!(trim(&s, CharClass::Slash), s.trim_matches('/'));
        assert_eq!(trim_start(&s, CharClass::Slash), s.trim_start_matches('/'));
    }
}

#[test]
fn source_paths_are_normalized() {
    assert_eq!(default_source_path(), "/");
    assert_eq!(normalize_source_path(""), "/");
    assert_eq!(normalize_source_path("  \t\n"), "/");
    assert_eq!(normalize_source_path("/"), "/");
    assert_eq!(normalize_source_path(" / "), "/");
    assert_eq!(normalize_source_path("///"), "/");
    assert_eq!(normalize_source_path("project/foo/bar"), "/project/foo/bar");
    assert_eq!(normalize_source_path("/project/foo/bar"), "/project/foo/bar");
    assert_eq!(normalize_source_path(" //project/foo/bar// "), "/project/foo/bar");
    assert_eq!(normalize_source_path("a//b"), "/a//b");
    assert_eq!(normalize_source_path("\u{a0}héllo/\u{2003}"), "/héllo");
}

#[test]
fn ready_paths_are_normalized() {
    assert_eq!(normalize_ready_path(None), None);
    assert_eq!(normalize_ready_path(Some("")), None);
    assert_eq!(normalize_ready_path(Some("   ")), None);
    assert_eq!(normalize_ready_path(Some("/")), None);
    assert_eq!(normalize_ready_path(Some(" / ")), None);
    assert_eq!(normalize_ready_path(Some("///")), Some("/".to_string()));
    assert_eq!(normalize_ready_path(Some(".buckconfig")), Some("/.buckconfig".to_string()));
    assert_eq!(normalize_ready_path(Some("/.buckconfig")), Some("/.buckconfig".to_string()));
    assert_eq!(normalize_ready_path(Some(" /a/b/ ")), Some("/a/b".to_string()));
}

#[test]
fn normalization_agrees_with_its_formula() {
    for s in strings(&[' ', '/', 'a', '\u{85}'], 7) {
        let bare = s.trim();
        let kept = if bare.is_empty() || bare == "/" {
            "/".to_string()
        } else {
            format!("/{}", bare.trim_matches('/'))
        };
        assert_eq!(normalize_source_path(&s), kept);
        let ready = if bare.is_empty() || bare == "/" { None } else { Some(kept.clone()) };
        assert_eq!(normalize_ready_path(Some(&s)), ready);
        // Kept paths are kept, unless they end in white space.
        if !kept.ends_with(char::is_whitespace) {
            assert_eq!(normalize_source_path(&kept), kept);
        }
        assert!(kept.starts_with('/'));
        assert!(kept == "/" || !kept.ends_with('/'));
    }
    assert_eq!(normalize_source_path("/a /"), "/a ");
    assert_eq!(normalize_source_path("/a "), "/a");
}

#[test]
fn joining_is_that_of_std() {
    let bases = strings(&['/', 'a', '.'], 4);
    let names = strings(&['/', 'b', 'é'], 4);
    for base in &bases {
        for name in &names {
            let expected = std::path::Path::new(base).join(name);
            let joined = FsPath::from_text(base).join(name);
            assert_eq!(text(&joined), expected.to_str().unwrap(), "{:?} {:?}", base, name);
        }
    }
    assert_eq!(text(&FsPath::from_text("/mnt").join("job")), "/mnt/job");
    assert_eq!(text(&FsPath::from_text("/mnt/").join("job")), "/mnt/job");
    assert_eq!(text(&FsPath::from_text("/mnt").join("/job")), "/job");
    assert_eq!(text(&FsPath::from_text("/mnt").join("")), "/mnt/");
    assert_eq!(text(&FsPath::from_text("").join("job")), "job");
}

#[test]
fn parents_are_those_of_std() {
    for s in strings(&['/', 'a', '.'], 8) {
        let expected = std::path::Path::new(&s).parent().map(|p| p.to_str().unwrap().to_string());
        let parent = FsPath::from_text(&s).parent().map(|p| text(&p));
        assert_eq!(parent, expected, "{:?}", s);
        if let Some(parent) = parent {
            assert!(s.starts_with(&parent) && parent.len() < s.len());
        }
    }
}

#[test]
fn paths_are_displayed_as_text() {
    assert_eq!(FsPath::from_text("/mnt/é").display(), "/mnt/é");
    assert_eq!(FsPath::from_bytes(vec![b'/', 0xff, b'a']).display(), "/\u{fffd}a");
    assert_eq!(FsPath::from_bytes(vec![b'a']).clone(), FsPath::from_text("a"));
}

#[test]
fn words_are_found_in_texts() {
    for t in strings(&['a', 'b'], 6) {
        for w in strings(&['a', 'b'], 3) {
            assert_eq!(contains(&t, &w), t.contains(&w), "{:?} {:?}", t, w);
        }
    }
}
