use tagbox::paths::{drop_outcome, DropTarget};
use tagbox::paths::{
    get_parent_folder, is_supported_file, operation_target, parent_folder_of, parse_drag_data,
    reveal_folder, FileOperation,
};

#[test]
fn test_get_parent_folder() {
    let parent = get_parent_folder("/home/user/document.pdf");
    assert_eq!(parent, Some("/home/user".to_string()));

    let folder_path = "/home/user/";
    let parent = get_parent_folder(folder_path);
    assert_eq!(parent, Some(folder_path.to_string()));
}

#[test]
fn parent_folder_follows_what_is_on_disk() {
    assert_eq!(parent_folder_of("/a/b/c.txt", Some(true)), Some("/a/b".to_string()));
    assert_eq!(parent_folder_of("/a/b", Some(false)), Some("/a/b".to_string()));
    assert_eq!(parent_folder_of("/a/b/c.txt", None), Some("/a/b".to_string()));
    assert_eq!(parent_folder_of("/a/b/", None), Some("/a/b/".to_string()));
    assert_eq!(parent_folder_of("", None), Some("".to_string()));
    assert_eq!(parent_folder_of("/", Some(true)), None);
}

#[test]
fn existing_folder_is_its_own_folder() {
    assert_eq!(get_parent_folder("/"), Some("/".to_string()));
}

#[test]
fn reveal_uses_the_parent() {
    assert_eq!(reveal_folder("/x/y/z.pdf"), "/x/y");
    assert_eq!(reveal_folder("/"), "/");
    assert_eq!(operation_target(&FileOperation::Open("/x/y/z.pdf".to_string())), "/x/y/z.pdf");
    assert_eq!(
        operation_target(&FileOperation::RevealInFolder("/x/y/z.pdf".to_string())),
        "/x/y"
    );
}

#[test]
fn dropped_text_gives_paths() {
    let text = "file:///tmp/a.pdf\n  \n  /tmp/b.txt  \r\nfile://\n";
    assert_eq!(
        parse_drag_data(text),
        vec!["/tmp/a.pdf".to_string(), "/tmp/b.txt".to_string(), "".to_string()]
    );
    assert_eq!(parse_drag_data(""), Vec::<String>::new());
}

#[test]
fn supported_files_by_extension() {
    assert!(is_supported_file("/tmp/book.PDF", None));
    assert!(is_supported_file("notes.md", None));
    assert!(is_supported_file("x.azw3", Some((true, 10))));
    assert!(!is_supported_file("image.png", Some((true, 10))));
    assert!(!is_supported_file("archive.tar.gz", None));
}

#[test]
fn files_without_extension_by_size() {
    assert!(is_supported_file("README", Some((true, 1024))));
    assert!(!is_supported_file("README", Some((true, 52428800))));
    assert!(is_supported_file("README", Some((true, 52428799))));
    assert!(!is_supported_file("README", Some((false, 10))));
    assert!(!is_supported_file("README", None));
}

#[test]
fn folder_programs() {
    let p = tagbox::paths::reveal_programs();
    assert_eq!(p, vec!["xdg-open", "nautilus", "dolphin", "thunar", "pcmanfm", "nemo"]);
}

#[test]
fn tally_of_a_drop() {
    let dropped = vec![
        ("/a/book.pdf".to_string(), DropTarget::Present { is_dir: false, found: 0 }),
        ("/a/gone.epub".to_string(), DropTarget::Missing),
        ("/a/folder".to_string(), DropTarget::Present { is_dir: true, found: 3 }),
        ("/a/image.png".to_string(), DropTarget::Present { is_dir: false, found: 0 }),
        ("/a/notes.MD".to_string(), DropTarget::Present { is_dir: false, found: 0 }),
    ];
    let r = drop_outcome(&dropped);
    assert_eq!(r.total, 1 + 4 + 1 + 1);
    assert_eq!(r.imported, 1 + 3 + 1);
    assert_eq!(r.failed, 2);
    assert_eq!(r.files, vec!["/a/book.pdf".to_string(), "/a/notes.MD".to_string()]);
    let empty = drop_outcome(&Vec::new());
    assert_eq!((empty.total, empty.imported, empty.failed), (0, 0, 0));
}
