use graphics_playground::obj_parser::{
    corners_in_range, parse_corner, parse_face, parse_index, split_fields, split_words, Corner, ObjError,
};

fn corner(vertex: usize, texture: usize, normal: usize) -> Corner {
    Corner { vertex, texture, normal }
}

#[test]
fn words_split_on_any_whitespace() {
    let w = split_words(b"  f 1/1/1\t2/2/2   3/3/3 \r");
    assert_eq!(w, vec![b"f".to_vec(), b"1/1/1".to_vec(), b"2/2/2".to_vec(), b"3/3/3".to_vec()]);
    assert!(split_words(b"   ").is_empty());
    assert!(split_words(b"").is_empty());
}

#[test]
fn fields_keep_empty_parts() {
    assert_eq!(split_fields(b"1//3"), vec![b"1".to_vec(), b"".to_vec(), b"3".to_vec()]);
    assert_eq!(split_fields(b""), vec![b"".to_vec()]);
    assert_eq!(split_fields(b"/"), vec![b"".to_vec(), b"".to_vec()]);
}

#[test]
fn index_reads_like_usize_parse() {
    assert_eq!(parse_index(b"12"), 12);
    assert_eq!(parse_index(b"+7"), 7);
    assert_eq!(parse_index(b"0"), 0);
    assert_eq!(parse_index(b"007"), 7);
    assert_eq!(parse_index(b"18446744073709551615"), usize::MAX);
    // what does not read as a usize counts as one
    assert_eq!(parse_index(b""), 1);
    assert_eq!(parse_index(b"+"), 1);
    assert_eq!(parse_index(b"-3"), 1);
    assert_eq!(parse_index(b"4x"), 1);
    assert_eq!(parse_index(b"18446744073709551616"), 1);
    assert_eq!(parse_index(b"99999999999999999999999"), 1);
}

#[test]
fn corner_is_zero_based() {
    assert_eq!(parse_corner(b"1/2/3"), Ok(corner(0, 1, 2)));
    assert_eq!(parse_corner(b"5//9"), Ok(corner(4, 0, 8)));
    assert_eq!(parse_corner(b"1/2"), Err(ObjError::CornerFormat));
    assert_eq!(parse_corner(b"1/2/3/4"), Err(ObjError::CornerFormat));
    assert_eq!(parse_corner(b"0/1/1"), Err(ObjError::ZeroIndex));
    assert_eq!(parse_corner(b"1/1/0"), Err(ObjError::ZeroIndex));
}

#[test]
fn triangle_face_keeps_corners() {
    assert_eq!(
        parse_face(b"f 1/1/1 2/2/2 3/3/3"),
        Ok(vec![corner(0, 0, 0), corner(1, 1, 1), corner(2, 2, 2)])
    );
}

#[test]
fn quad_face_becomes_two_triangles() {
    let (a, b, c, d) = (corner(0, 0, 0), corner(1, 1, 1), corner(2, 2, 2), corner(3, 3, 3));
    assert_eq!(parse_face(b"f 1/1/1 2/2/2 3/3/3 4/4/4"), Ok(vec![a, b, c, a, c, d]));
}

#[test]
fn face_errors() {
    assert_eq!(parse_face(b"f 1/1/1 2/2/2"), Err(ObjError::FaceArity));
    assert_eq!(parse_face(b"f 1/1/1 2/2/2 3/3/3 4/4/4 5/5/5"), Err(ObjError::FaceArity));
    assert_eq!(parse_face(b"f 1/1/1 2/2 3/3/3"), Err(ObjError::CornerFormat));
    // the first bad corner decides
    assert_eq!(parse_face(b"f 1/2 0/1/1 1/1/1"), Err(ObjError::CornerFormat));
    assert_eq!(parse_face(b"f 0/1/1 1/2 1/1/1"), Err(ObjError::ZeroIndex));
}

#[test]
fn corners_checked_against_list_lengths() {
    let cs = vec![corner(0, 1, 2), corner(2, 0, 1)];
    assert!(corners_in_range(&cs, 3, 2, 3));
    assert!(!corners_in_range(&cs, 2, 2, 3));
    assert!(!corners_in_range(&cs, 3, 1, 3));
    assert!(!corners_in_range(&cs, 3, 2, 2));
    // without texture coordinates the texture index is not looked up
    assert!(corners_in_range(&cs, 3, 0, 3));
    assert!(corners_in_range(&Vec::new(), 0, 0, 0));
}
