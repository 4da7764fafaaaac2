use image_folder_viewer::folder::{
    check_folder, first_image, is_image_filename, lex_le, select_images, FolderEntry, FolderError,
    ImageFile,
};

fn entry(name: &str, is_file: bool) -> FolderEntry {
    FolderEntry {
        path: format!("/folder/{}", name),
        filename: name.to_string(),
        is_file,
    }
}

fn names(files: &[ImageFile]) -> Vec<String> {
    files.iter().map(|f| f.filename.clone()).collect()
}

#[test]
fn accepts_the_six_extensions_case_insensitively() {
    for name in [
        "a.jpg", "a.jpeg", "a.png", "a.gif", "a.webp", "a.bmp", "a.JPG", "a.JpEg", "a.PNG",
        "a.GIF", "a.WEBP", "a.BMP",
    ] {
        assert!(is_image_filename(&name.to_string()), "{} should match", name);
    }
}

#[test]
fn rejects_other_names() {
    for name in ["a.txt", "a.jpg.txt", "jpg", "a.", "a", "", ".png", ".jpg", "a.jp", "a.jpgx"] {
        assert!(!is_image_filename(&name.to_string()), "{} should not match", name);
    }
}

#[test]
fn extension_is_after_last_dot() {
    assert!(is_image_filename(&"archive.tar.png".to_string()));
    assert!(!is_image_filename(&"picture.png.bak".to_string()));
    assert!(is_image_filename(&".hidden.png".to_string()));
}

#[test]
fn lexicographic_on_code_points() {
    assert!(lex_le("A.JPG", "a.webp"));
    assert!(!lex_le("a.webp", "A.JPG"));
    assert!(lex_le("abc", "abc"));
    assert!(lex_le("ab", "abc"));
    assert!(!lex_le("abc", "ab"));
}

#[test]
fn folder_listing_is_filtered_and_sorted() {
    let entries = vec![
        entry("b.png", true),
        entry("A.JPG", true),
        entry("c.txt", true),
        entry("a.webp", true),
    ];
    let images = select_images(entries);
    // Case-sensitive byte order: upper-case 'A' sorts before lower-case.
    assert_eq!(names(&images), vec!["A.JPG", "a.webp", "b.png"]);
    assert_eq!(images[0].path, "/folder/A.JPG");
}

#[test]
fn directories_are_excluded() {
    let entries = vec![entry("sub.png", false), entry("real.png", true)];
    let images = select_images(entries);
    assert_eq!(names(&images), vec!["real.png"]);
}

#[test]
fn first_image_is_first_of_sorted_listing() {
    let entries = vec![entry("zz.gif", true), entry("aa.bmp", true), entry("mm.txt", true)];
    let images = select_images(entries);
    assert_eq!(first_image(&images), Some("/folder/aa.bmp".to_string()));
}

#[test]
fn first_image_of_empty_listing_is_none() {
    let images = select_images(vec![entry("notes.txt", true)]);
    assert_eq!(first_image(&images), None);
}

#[test]
fn missing_folder_errors_with_its_path() {
    match check_folder(&"/nonexistent".to_string(), false, false) {
        Some(FolderError::NotFound { path }) => assert_eq!(path, "/nonexistent"),
        _ => panic!("a missing folder must fail as not found"),
    }
    let e = check_folder(&"/nonexistent".to_string(), false, false).unwrap();
    assert_eq!(e.message(), "folder not found: /nonexistent");
}

#[test]
fn non_directory_errors_distinctly() {
    match check_folder(&"/etc/hosts".to_string(), true, false) {
        Some(FolderError::NotADirectory { path }) => assert_eq!(path, "/etc/hosts"),
        _ => panic!("a non-directory must fail as not a folder"),
    }
    let e = check_folder(&"/etc/hosts".to_string(), true, false).unwrap();
    assert_eq!(e.message(), "path is not a folder: /etc/hosts");
}

#[test]
fn existing_directory_passes_the_check() {
    assert!(check_folder(&"/tmp".to_string(), true, true).is_none());
}
