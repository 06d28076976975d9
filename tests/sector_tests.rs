use backend::sector::{assign_sector_ids, image_content_type, is_image_filename, is_image_folded};

#[test]
fn content_type_by_extension() {
    assert_eq!(image_content_type("wall.png"), "image/png");
    assert_eq!(image_content_type("wall.jpg"), "image/jpeg");
    assert_eq!(image_content_type("wall.jpeg"), "image/jpeg");
    assert_eq!(image_content_type("wall.PNG"), "application/octet-stream");
    assert_eq!(image_content_type("wall.gif"), "application/octet-stream");
}

#[test]
fn image_file_detection_ignores_case() {
    assert!(is_image_filename("Wall.JPG"));
    assert!(is_image_filename("a.Jpeg"));
    assert!(is_image_filename("b.png"));
    assert!(!is_image_filename("metadata.json"));
    assert!(is_image_folded("x.jpg"));
    assert!(!is_image_folded("x.JPG"));
}

#[test]
fn missing_sector_ids_follow_the_largest() {
    assert_eq!(assign_sector_ids(&vec![Some(4), None, Some(2), None]), vec![4, 5, 2, 6]);
    assert_eq!(assign_sector_ids(&vec![None, None]), vec![1, 2]);
    assert_eq!(assign_sector_ids(&vec![]), Vec::<u16>::new());
    assert_eq!(assign_sector_ids(&vec![Some(65534), None]), vec![65534, 65535]);
}
