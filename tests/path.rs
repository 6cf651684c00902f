use django_rusty_templates::path::{construct_relative_path, RelativePathError};

#[test]
fn test_construct_adjacent_path_origin_root() {
    let path = "./foo.txt";
    let origin = Some("/");
    let at = (0, 8);
    assert_eq!(
        construct_relative_path(path, origin, at).unwrap().unwrap(),
        "foo.txt"
    );
}

#[test]
fn test_construct_parent_path_origin_root() {
    let path = "../foo.txt";
    let origin = "/";
    let at = (0, 8);
    assert_eq!(
        construct_relative_path(path, Some(origin), at).unwrap_err(),
        RelativePathError::Outside {
            at,
            origin: origin.to_string(),
            template_path: path.to_string(),
        }
    );
}

#[test]
fn test_construct_adjacent_path_origin_empty_string() {
    let path = "./foo.txt";
    let origin = Some("");
    let at = (0, 8);
    assert_eq!(
        construct_relative_path(path, origin, at).unwrap().unwrap(),
        "foo.txt"
    );
}

#[test]
fn test_construct_parent_path_origin_empty_string() {
    let path = "../foo.txt";
    let origin = "";
    let at = (0, 8);
    assert_eq!(
        construct_relative_path(path, Some(origin), at).unwrap_err(),
        RelativePathError::Outside {
            at,
            origin: origin.to_string(),
            template_path: path.to_string(),
        }
    );
}

#[test]
fn relative_path_in_subdirectory() {
    let at = (0, 10);
    assert_eq!(
        construct_relative_path("../foo.txt", Some("a/b/c.html"), at).unwrap(),
        Some("a/foo.txt".to_string())
    );
    assert_eq!(
        construct_relative_path("./foo.txt", Some("a/b/c.html"), at).unwrap(),
        Some("a/b/foo.txt".to_string())
    );
}

#[test]
fn relative_path_climbing_out_is_outside() {
    let at = (0, 13);
    assert_eq!(
        construct_relative_path("../../foo.txt", Some("a/c.html"), at).unwrap_err(),
        RelativePathError::Outside {
            at,
            origin: "a/c.html".to_string(),
            template_path: "../../foo.txt".to_string(),
        }
    );
}

#[test]
fn non_relative_path_is_none() {
    assert_eq!(construct_relative_path("foo.txt", Some("a/c.html"), (0, 7)), Ok(None));
}

#[test]
fn relative_path_without_origin() {
    assert_eq!(
        construct_relative_path("./foo.txt", None, (3, 9)),
        Err(RelativePathError::UnknownOrigin { path: "./foo.txt".to_string(), at: (3, 9) })
    );
}
