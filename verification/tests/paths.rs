use dev_browser::paths::{same_bytes, Component, FilePath};
use std::path::{Path, PathBuf};

// Every text of up to six of these characters.
fn all_paths() -> Vec<String> {
    let mut all: Vec<String> = vec![String::new()];
    let mut last: Vec<String> = vec![String::new()];
    for _ in 0..6 {
        let mut next: Vec<String> = Vec::new();
        for text in &last {
            for letter in ['/', '.', 'a', 'b'] {
                next.push(format!("{text}{letter}"));
            }
        }
        all.extend(next.iter().cloned());
        last = next;
    }
    all
}

fn text_of(path: FilePath) -> String {
    String::from_utf8(path.bytes).unwrap()
}

#[test]
fn parents_and_names_agree_with_the_standard_library() {
    for text in all_paths() {
        let ours = FilePath::new(&text);
        let theirs = Path::new(&text);
        assert_eq!(
            ours.parent().map(text_of),
            theirs.parent().map(|path| path.to_str().unwrap().to_string()),
            "{text}"
        );
        assert_eq!(
            ours.file_name().map(|name| String::from_utf8(name).unwrap()),
            theirs.file_name().map(|name| name.to_str().unwrap().to_string()),
            "{text}"
        );
        assert_eq!(
            ours.extension().map(|name| String::from_utf8(name).unwrap()),
            theirs.extension().map(|name| name.to_str().unwrap().to_string()),
            "{text}"
        );
    }
}

#[test]
fn joining_agrees_with_the_standard_library() {
    for text in all_paths() {
        for name in ["logs", "", ".", "..", "/", "/a", "a/b", "a/"] {
            assert_eq!(
                text_of(FilePath::new(&text).join(name)),
                Path::new(&text).join(name).to_str().unwrap(),
                "{text} {name}"
            );
        }
        let mut theirs = PathBuf::from(&text);
        theirs.set_extension("tmp.7");
        let ours = text_of(FilePath::new(&text).with_extension("tmp.7"));
        assert_eq!(ours, theirs.to_str().unwrap(), "{text}");
        let mut bare = PathBuf::from(&text);
        bare.set_extension("");
        let ours = text_of(FilePath::new(&text).with_extension(""));
        assert_eq!(ours, bare.to_str().unwrap(), "{text}");
    }
}

#[test]
fn components_agree_with_the_standard_library() {
    for text in all_paths() {
        let ours: Vec<String> = FilePath::new(&text)
            .components()
            .into_iter()
            .map(|component| match component {
                Component::RootDir => "RootDir".to_string(),
                Component::CurDir => "CurDir".to_string(),
                Component::ParentDir => "ParentDir".to_string(),
                Component::Normal(name) => {
                    format!("Normal({:?})", String::from_utf8(name).unwrap())
                }
            })
            .collect();
        let theirs: Vec<String> =
            Path::new(&text).components().map(|component| format!("{component:?}")).collect();
        assert_eq!(ours, theirs, "{text}");
    }
}

#[test]
fn bytes_that_are_no_text_are_still_shown() {
    let joined = FilePath::new("/a").join_name(&[255, 98]);
    assert_eq!(joined.bytes, vec![47, 97, 47, 255, 98]);
    let path = FilePath { bytes: vec![47, 255, 97] };
    assert_eq!(path.display(), "/\u{fffd}a");
    assert_eq!(FilePath::new("/h\u{e9}").display(), "/h\u{e9}");
    assert_eq!(text_of(FilePath::new("/h\u{e9}").copy()), "/h\u{e9}");
}

#[test]
fn bytes_are_compared_one_by_one() {
    assert!(same_bytes(&[], &[]));
    assert!(same_bytes(&[1, 2], &[1, 2]));
    assert!(!same_bytes(&[1, 2], &[1, 3]));
    assert!(!same_bytes(&[1, 2], &[1, 2, 3]));
}
