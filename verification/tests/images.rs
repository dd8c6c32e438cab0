use wallpaper_picker::images::{
    image_at, is_allowed_extension, load_images, select_image, DirListing, FileEntry, ImageError,
};

fn file(path: &str, extension: Option<&str>) -> FileEntry {
    FileEntry { path: String::from(path), is_file: true, extension: extension.map(String::from) }
}

fn directory(path: &str, extension: Option<&str>) -> FileEntry {
    FileEntry { path: String::from(path), is_file: false, extension: extension.map(String::from) }
}

fn extensions() -> Vec<String> {
    vec![String::from("png"), String::from("jpg"), String::from("jpeg")]
}

#[test]
fn is_allowed_extension_true() {
    let ext = "png";
    let image_extentions = vec![String::from("png"), String::from("jpg")];
    assert!(is_allowed_extension(ext, &image_extentions))
}

#[test]
fn is_allowed_extension_false() {
    let ext = "gif";
    let image_extentions = vec![String::from("png"), String::from("jpg")];
    assert!(!is_allowed_extension(ext, &image_extentions))
}

#[test]
fn extension_is_compared_case_sensitively() {
    let image_extentions = vec![String::from("png"), String::from("jpg")];
    assert!(!is_allowed_extension("PNG", &image_extentions));
    assert!(!is_allowed_extension("Jpg", &image_extentions));
}

#[test]
fn extension_must_match_as_a_whole() {
    let image_extentions = vec![String::from("png"), String::from("jpeg")];
    assert!(!is_allowed_extension("pn", &image_extentions));
    assert!(!is_allowed_extension("pngx", &image_extentions));
    assert!(!is_allowed_extension("jpg", &image_extentions));
    assert!(!is_allowed_extension("", &image_extentions));
    assert!(is_allowed_extension("jpeg", &image_extentions));
}

#[test]
fn no_extension_is_allowed_by_an_empty_list() {
    assert!(!is_allowed_extension("png", &Vec::new()));
}

#[test]
fn last_extension_of_the_list_is_found() {
    assert!(is_allowed_extension("jpeg", &extensions()));
}

#[test]
fn load_images_keeps_matching_files_in_order() {
    let listings = vec![
        DirListing::Entries(vec![
            file("/a/one.png", Some("png")),
            file("/a/notes.txt", Some("txt")),
            file("/a/two.jpg", Some("jpg")),
        ]),
        DirListing::Entries(vec![file("/b/three.jpeg", Some("jpeg"))]),
    ];
    assert_eq!(
        load_images(&listings, &extensions()),
        Ok(vec![
            String::from("/a/one.png"),
            String::from("/a/two.jpg"),
            String::from("/b/three.jpeg")
        ])
    );
}

#[test]
fn load_images_passes_over_what_is_not_a_file() {
    let listings = vec![DirListing::Entries(vec![
        directory("/a/album.png", Some("png")),
        file("/a/one.png", Some("png")),
    ])];
    assert_eq!(load_images(&listings, &extensions()), Ok(vec![String::from("/a/one.png")]));
}

#[test]
fn load_images_passes_over_files_without_extension() {
    let listings = vec![DirListing::Entries(vec![
        file("/a/README", None),
        file("/a/.png", None),
        file("/a/one.jpg", Some("jpg")),
    ])];
    assert_eq!(load_images(&listings, &extensions()), Ok(vec![String::from("/a/one.jpg")]));
}

#[test]
fn load_images_skips_missing_directories() {
    let listings = vec![
        DirListing::Missing,
        DirListing::Entries(vec![file("/b/one.png", Some("png"))]),
        DirListing::Missing,
    ];
    assert_eq!(load_images(&listings, &extensions()), Ok(vec![String::from("/b/one.png")]));
}

#[test]
fn no_directories_yield_no_images_found() {
    assert_eq!(load_images(&Vec::new(), &extensions()), Err(ImageError::NoImagesFound));
}

#[test]
fn only_missing_directories_yield_no_images_found() {
    let listings = vec![DirListing::Missing, DirListing::Missing];
    assert_eq!(load_images(&listings, &extensions()), Err(ImageError::NoImagesFound));
}

#[test]
fn directories_without_a_match_yield_no_images_found() {
    let listings = vec![
        DirListing::Entries(vec![file("/a/notes.txt", Some("txt")), file("/a/README", None)]),
        DirListing::Entries(Vec::new()),
        DirListing::Missing,
        DirListing::Entries(vec![directory("/c/album.png", Some("png"))]),
    ];
    assert_eq!(load_images(&listings, &extensions()), Err(ImageError::NoImagesFound));
    assert_eq!(select_image(&listings, &extensions()), Err(ImageError::NoImagesFound));
}

#[test]
fn no_allowed_extension_yields_no_images_found() {
    let listings = vec![DirListing::Entries(vec![file("/a/one.png", Some("png"))])];
    assert_eq!(load_images(&listings, &Vec::new()), Err(ImageError::NoImagesFound));
}

#[test]
fn unreadable_directory_fails_the_load() {
    let listings = vec![
        DirListing::Entries(vec![file("/a/one.png", Some("png"))]),
        DirListing::Unreadable,
        DirListing::Entries(vec![file("/c/two.png", Some("png"))]),
    ];
    assert_eq!(load_images(&listings, &extensions()), Err(ImageError::Io { directory: 1 }));
    assert_eq!(select_image(&listings, &extensions()), Err(ImageError::Io { directory: 1 }));
}

#[test]
fn first_unreadable_directory_is_reported() {
    let listings = vec![
        DirListing::Missing,
        DirListing::Entries(Vec::new()),
        DirListing::Unreadable,
        DirListing::Unreadable,
    ];
    assert_eq!(load_images(&listings, &extensions()), Err(ImageError::Io { directory: 2 }));
}

#[test]
fn unreadable_directory_goes_before_no_images_found() {
    let listings = vec![DirListing::Unreadable];
    assert_eq!(load_images(&listings, &extensions()), Err(ImageError::Io { directory: 0 }));
}

#[test]
fn image_at_returns_the_image_at_the_index() {
    let images = vec![String::from("a.png"), String::from("b.png"), String::from("c.png")];
    assert_eq!(image_at(&images, 0), "a.png");
    assert_eq!(image_at(&images, 1), "b.png");
    assert_eq!(image_at(&images, 2), "c.png");
}

#[test]
fn select_image_returns_the_only_candidate() {
    let listings = vec![
        DirListing::Missing,
        DirListing::Entries(vec![file("/a/notes.txt", Some("txt")), file("/a/one.png", Some("png"))]),
    ];
    for _ in 0..20 {
        assert_eq!(select_image(&listings, &extensions()), Ok(String::from("/a/one.png")));
    }
}

#[test]
fn select_image_returns_one_of_the_candidates() {
    let listings = vec![
        DirListing::Entries(vec![
            file("/a/one.png", Some("png")),
            file("/a/notes.txt", Some("txt")),
            file("/a/two.jpg", Some("jpg")),
        ]),
        DirListing::Entries(vec![file("/b/three.jpeg", Some("jpeg"))]),
    ];
    let candidates = load_images(&listings, &extensions()).unwrap();
    for _ in 0..200 {
        let selected = select_image(&listings, &extensions()).unwrap();
        assert!(candidates.contains(&selected));
    }
}

#[test]
fn select_image_reaches_every_candidate() {
    let listings = vec![DirListing::Entries(vec![
        file("/a/one.png", Some("png")),
        file("/a/two.png", Some("png")),
    ])];
    let mut seen_first = false;
    let mut seen_second = false;
    for _ in 0..400 {
        let selected = select_image(&listings, &extensions()).unwrap();
        if selected == "/a/one.png" {
            seen_first = true;
        } else {
            assert_eq!(selected, "/a/two.png");
            seen_second = true;
        }
    }
    assert!(seen_first && seen_second);
}
