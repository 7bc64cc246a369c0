use akrs::fs_util::{
    infer_project_root, parse_bin_names, read_binary_names, sanitize_filename, scan_dir, Folder,
};

#[test]
fn sanitize_appends_extension() {
    assert_eq!(sanitize_filename("demo"), "demo.akrs");
    assert_eq!(sanitize_filename("demo.akrs"), "demo.akrs");
    assert_eq!(sanitize_filename("  a/b "), "ab.akrs");
    assert_eq!(sanitize_filename(""), "untitled.akrs");
}

#[test]
fn sanitize_edges() {
    assert_eq!(sanitize_filename(" / \\ "), " .akrs");
    assert_eq!(sanitize_filename("///"), "untitled.akrs");
    assert_eq!(sanitize_filename("akrs"), "akrs.akrs");
    assert_eq!(sanitize_filename("..\\..\\x"), "....x.akrs");
    let once = sanitize_filename("dir/第一章");
    assert_eq!(once, "dir第一章.akrs");
    assert_eq!(sanitize_filename(&once), once);
}

fn folder(path: &str, file: bool, assets: bool) -> Folder {
    Folder { path: path.to_string(), has_project_file: file, has_assets: assets }
}

#[test]
fn project_root_is_the_nearest() {
    assert_eq!(infer_project_root(&vec![]), ".");
    let up = vec![folder("/p/s/x", false, false), folder("/p/s", false, true), folder("/p", true, true)];
    assert_eq!(infer_project_root(&up), "/p/s");
    let none = vec![folder("/a/b", false, false), folder("/a", false, false)];
    assert_eq!(infer_project_root(&none), "/a/b");
}

#[test]
fn program_names_from_manifests() {
    let text = "[package]\nname = \"pkg\"\n\n[[bin]]\n# name = \"no\"\nname = \"one\" # first\npath = \"x\"\n[[bin]]\n  name = 'two'\n[[bin]]\nname = { workspace = true }\nnamex = \"bad\"\nname = \"open\n[[example]]\nname = \"ex\"\n[[bin]]\nname = \"one\"\n";
    let mut names = vec!["zero".to_string()];
    parse_bin_names(text, &mut names);
    assert_eq!(names, vec!["zero", "one", "two"]);
    let other = "[[bin]]\nname=\"three\"\n".to_string();
    assert_eq!(
        read_binary_names(&vec![text.to_string(), other], &None),
        vec!["one", "two", "three"]
    );
    assert_eq!(read_binary_names(&vec![], &Some("game".to_string())), vec!["game"]);
    assert_eq!(read_binary_names(&vec!["[[bin]]".to_string()], &None), vec!["akrs-game"]);
}

#[test]
fn listing_is_filtered_and_sorted() {
    let names: Vec<String> =
        ["b.PNG", "a.png", "notes.txt", "Z.Jpg", "İ.png"].iter().map(|s| s.to_string()).collect();
    let exts = vec![".png".to_string(), ".jpg".to_string()];
    assert_eq!(scan_dir(&names, &exts), vec!["Z.Jpg", "a.png", "b.PNG", "İ.png"]);
    assert!(scan_dir(&vec![], &exts).is_empty());
    let upper = vec![".PNG".to_string()];
    assert_eq!(scan_dir(&names, &upper), vec!["a.png", "b.PNG", "İ.png"]);
}
