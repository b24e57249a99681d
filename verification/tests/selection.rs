use resize_uploader::ScanEntry;
use resize_uploader::file_stem;
use resize_uploader::is_image_file;
use resize_uploader::select_newest;

fn entry(name: &str, mtime: u128) -> ScanEntry {
    ScanEntry { name: name.to_owned(), mtime }
}

#[test]
fn empty_directory_selects_none() {
    let entries: Vec<ScanEntry> = Vec::new();
    assert_eq!(select_newest(&entries), None);
}

#[test]
fn only_non_image_files_selects_none() {
    let entries = vec![
        entry("notes.txt", 50),
        entry("archive.zip", 90),
        entry("music.mp3", 120),
        entry("README", 300),
    ];
    assert_eq!(select_newest(&entries), None);
}

#[test]
fn newest_image_wins() {
    let entries = vec![
        entry("old.png", 10),
        entry("newest.jpg", 300),
        entry("middle.gif", 200),
        entry("very-new-but-not-image.pdf", 900),
    ];
    assert_eq!(select_newest(&entries), Some(1));
}

#[test]
fn selection_ignores_scan_order() {
    let forward = vec![
        entry("a.png", 10),
        entry("b.jpeg", 30),
        entry("c.gif", 20),
    ];
    let backward = vec![
        entry("c.gif", 20),
        entry("b.jpeg", 30),
        entry("a.png", 10),
    ];
    let i = select_newest(&forward).unwrap();
    let j = select_newest(&backward).unwrap();
    assert_eq!(forward[i].name, "b.jpeg");
    assert_eq!(backward[j].name, "b.jpeg");
}

#[test]
fn equal_mtimes_pick_the_later_entry() {
    let entries = vec![entry("first.png", 5), entry("second.png", 5)];
    assert_eq!(select_newest(&entries), Some(1));
}

#[test]
fn extension_allow_list_is_case_sensitive_and_asymmetric() {
    assert!(is_image_file("a.jpg"));
    assert!(is_image_file("a.jpeg"));
    assert!(is_image_file("a.png"));
    assert!(is_image_file("a.gif"));
    assert!(is_image_file("a.PNG"));
    assert!(is_image_file("a.JPG"));
    assert!(is_image_file("a.JPEG"));
    assert!(!is_image_file("a.GIF"));
    assert!(!is_image_file("a.Png"));
    assert!(!is_image_file("a.bmp"));
    assert!(!is_image_file("png"));
    assert!(!is_image_file(".png"));
    assert!(!is_image_file("a.png.txt"));
}

#[test]
fn stem_drops_only_the_last_extension() {
    assert_eq!(file_stem("vacation.png"), "vacation");
    assert_eq!(file_stem("archive.tar.gz"), "archive.tar");
    assert_eq!(file_stem("README"), "README");
    assert_eq!(file_stem(".bashrc"), ".bashrc");
    assert_eq!(file_stem("trailing."), "trailing");
}
