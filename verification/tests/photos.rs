use wim::encoding::{decode_base64, upload_payload};
use wim::photos::{
    folder_image, is_inside, mime_in_folder, mime_of_picked, needs_convert, photo_file,
    pick_photo_folder, picked_photo, picker_extensions, wim_delete_file, wim_delete_folder,
    wim_list_folders, wim_read_folder_images, wim_write_file, CanonicalPath, FolderEntry,
};

fn entry(name: &str, is_dir: bool) -> FolderEntry {
    FolderEntry {
        is_dir,
        is_file: !is_dir,
        name: Some(name.to_string()),
        extension: name.rsplit_once('.').map(|p| p.1.to_string()),
        path: format!("/photos/{}", name),
    }
}

fn path(text: &str) -> CanonicalPath {
    CanonicalPath { components: text.split('/').map(|c| c.as_bytes().to_vec()).collect() }
}

fn resolved(text: &str) -> Result<CanonicalPath, String> {
    Ok(path(text))
}

fn unresolved() -> Result<CanonicalPath, String> {
    Err("not found".to_string())
}

#[test]
fn types_of_picked_photos() {
    for (extension, mime) in [
        ("png", "image/png"),
        ("gif", "image/gif"),
        ("webp", "image/webp"),
        ("bmp", "image/bmp"),
        ("jpg", "image/jpeg"),
        ("heic", "image/jpeg"),
        ("", "image/jpeg"),
    ] {
        assert_eq!(mime_of_picked(extension), mime);
    }
}

#[test]
fn types_in_folders() {
    for (extension, mime) in [
        ("png", Some("image/png")),
        ("gif", Some("image/gif")),
        ("webp", Some("image/webp")),
        ("bmp", Some("image/bmp")),
        ("jpg", Some("image/jpeg")),
        ("jpeg", Some("image/jpeg")),
        ("heic", Some("image/heic")),
        ("heif", Some("image/heif")),
        ("txt", None),
        ("PNG", None),
        ("", None),
    ] {
        assert_eq!(mime_in_folder(extension), mime);
        assert_eq!(needs_convert(extension), extension == "heic" || extension == "heif");
    }
}

#[test]
fn the_picker_shows_photos() {
    assert_eq!(picker_extensions(), vec!["png", "jpg", "jpeg", "gif", "webp", "bmp"]);
    for extension in picker_extensions() {
        assert_eq!(mime_in_folder(extension), Some(mime_of_picked(extension)));
    }
}

#[test]
fn picking() {
    assert_eq!(pick_photo_folder(Some("/p".to_string())), "/p");
    assert_eq!(pick_photo_folder(None), "");
    assert_eq!(picked_photo(Some("PNG"), &[0xff]), "data:image/png;base64,/w==");
    assert_eq!(picked_photo(Some("tiff"), &[0xff]), "data:image/jpeg;base64,/w==");
    assert_eq!(picked_photo(None, &[]), "data:image/jpeg;base64,");
}

#[test]
fn other_alphabets_have_lower_case_too() {
    // A capital I with a dot is no capital of an ASCII `i`.
    let mut e = entry("x", false);
    e.extension = Some("G\u{130}F".to_string());
    assert!(photo_file(&e, 0).is_none());
    assert_eq!(picked_photo(Some("ÀB"), &[]), "data:image/jpeg;base64,");
}

#[test]
fn folders_are_listed() {
    let mut odd = entry("odd", true);
    odd.name = None;
    let listing = Some(vec![entry("b", true), entry("x.png", false), odd, entry("a", true)]);
    assert_eq!(wim_list_folders(&listing), vec!["b".to_string(), "a".to_string()]);
    assert_eq!(wim_list_folders(&None), Vec::<String>::new());
    assert_eq!(wim_list_folders(&Some(vec![])), Vec::<String>::new());
}

#[test]
fn photos_are_listed() {
    let mut odd = entry("odd.gif", false);
    odd.name = None;
    let listing = Some(vec![
        entry("z.JPG", false),
        entry("notes.txt", false),
        entry("dir.png", true),
        entry("IMG_1.HEIC", false),
        entry("none", false),
        odd,
    ]);
    let photos = wim_read_folder_images(&listing);
    let seen: Vec<(usize, &str, &str, &str, bool)> = photos
        .iter()
        .map(|p| (p.index, p.name.as_str(), p.path.as_str(), p.mime.as_str(), p.needs_convert))
        .collect();
    assert_eq!(
        seen,
        vec![
            (0, "z.JPG", "/photos/z.JPG", "image/jpeg", false),
            (3, "IMG_1.HEIC", "/photos/IMG_1.HEIC", "image/heic", true),
            (5, "photo", "/photos/odd.gif", "image/gif", false),
        ]
    );
    assert!(wim_read_folder_images(&None).is_empty());
}

#[test]
fn photos_are_handed_out() {
    let photo = photo_file(&entry("a.heif", false), 4).unwrap();
    let image = folder_image(photo, b"GIF89a");
    assert_eq!(image.name, "a.heif");
    assert_eq!(image.path, "/photos/a.heif");
    assert!(image.needs_convert);
    assert_eq!(image.data_url, "data:image/heif;base64,R0lGODlh");
    assert!(photo_file(&entry("a.heif", true), 0).is_none());
}

#[test]
fn photos_are_uploaded_as_they_are() {
    let bytes = vec![9u8, 8, 7, 6];
    for name in ["a.png", "a.jpeg", "a.heic", "a.webp"] {
        let photo = photo_file(&entry(name, false), 0).unwrap();
        let image = folder_image(photo, &bytes);
        assert_eq!(decode_base64(&upload_payload(&image.data_url)), Ok(bytes.clone()));
    }
    let url = picked_photo(Some("bmp"), &bytes);
    assert_eq!(decode_base64(&upload_payload(&url)), Ok(bytes));
}

#[test]
fn inside_goes_by_components() {
    assert!(is_inside(&path("/a/b"), &path("/a")));
    assert!(is_inside(&path("/a"), &path("/a")));
    assert!(!is_inside(&path("/ab"), &path("/a")));
    assert!(!is_inside(&path("/a"), &path("/a/b")));
    assert!(!is_inside(&path("/b/a"), &path("/a")));
}

#[test]
fn folders_that_may_be_deleted() {
    assert_eq!(wim_delete_folder(&resolved("/p/item"), &resolved("/p")), Ok(()));
    assert_eq!(wim_delete_folder(&resolved("/p/item/x"), &resolved("/p")), Ok(()));
}

#[test]
fn folders_that_may_not_be_deleted() {
    let outside = Err("Refused: target is not inside the WIM photo base folder.".to_string());
    assert_eq!(wim_delete_folder(&resolved("/"), &resolved("/p")), outside);
    assert_eq!(wim_delete_folder(&resolved("/photos"), &resolved("/p")), outside);
    assert_eq!(
        wim_delete_folder(&resolved("/p"), &resolved("/p")),
        Err("Refused: won't delete the base folder itself.".to_string())
    );
    assert_eq!(
        wim_delete_folder(&unresolved(), &Err("other".to_string())),
        Err("not found".to_string())
    );
    assert_eq!(wim_delete_folder(&resolved("/p/x"), &unresolved()), Err("not found".to_string()));
}

#[test]
fn files_that_may_be_deleted() {
    assert_eq!(wim_delete_file(&resolved("/p/a.heic"), &resolved("/p"), true), Ok(()));
    assert_eq!(
        wim_delete_file(&resolved("/p/a"), &resolved("/p"), false),
        Err("Refused: not a file.".to_string())
    );
    assert_eq!(
        wim_delete_file(&resolved("/q/a"), &resolved("/p"), true),
        Err("Refused: target file is not inside the WIM photo base folder.".to_string())
    );
    assert_eq!(
        wim_delete_file(&unresolved(), &Err("other".to_string()), true),
        Err("not found".to_string())
    );
    assert_eq!(
        wim_delete_file(&resolved("/p/a"), &unresolved(), true),
        Err("not found".to_string())
    );
}

#[test]
fn files_that_may_be_written() {
    assert_eq!(
        wim_write_file(&resolved("/p"), &Some(resolved("/p/item")), &None, "R0lGODlh"),
        Ok(b"GIF89a".to_vec())
    );
    assert_eq!(wim_write_file(&resolved("/p"), &Some(resolved("/p")), &None, ""), Ok(vec![]));
    assert_eq!(
        wim_write_file(&resolved("/p"), &Some(resolved("/p")), &Some(resolved("/p/a")), "AAAA"),
        Ok(vec![0, 0, 0])
    );
    assert_eq!(
        wim_write_file(&resolved("/p"), &Some(resolved("/p")), &None, "a:bc"),
        Err("Invalid symbol 58, offset 1.".to_string())
    );
}

#[test]
fn files_that_may_not_be_written() {
    let outside = Err("Refused: destination is not inside the WIM photo base folder.".to_string());
    assert_eq!(
        wim_write_file(&resolved("/p"), &Some(resolved("/q")), &None, "a:bc"),
        outside
    );
    assert_eq!(
        wim_write_file(&resolved("/p"), &None, &None, "AAAA"),
        Err("No parent directory".to_string())
    );
    assert_eq!(
        wim_write_file(&unresolved(), &None, &None, "AAAA"),
        Err("not found".to_string())
    );
    assert_eq!(
        wim_write_file(&resolved("/p"), &Some(unresolved()), &None, "AAAA"),
        Err("not found".to_string())
    );
}

#[test]
fn links_out_of_the_folder_are_not_written_through() {
    let parent = Some(resolved("/p/item"));
    assert_eq!(
        wim_write_file(&resolved("/p"), &parent, &Some(resolved("/etc/x")), "a:bc"),
        Err("Refused: destination is not inside the WIM photo base folder.".to_string())
    );
    assert_eq!(
        wim_write_file(&resolved("/p"), &parent, &Some(unresolved()), "AAAA"),
        Err("not found".to_string())
    );
}
