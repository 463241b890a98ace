use quake_map::data::{BrushFace, DegenerateGeometryError, Properties, UvAxis};
use quake_map::number::rational::Rational;
use quake_map::parsing::components::{brush, brush_face, entity, point, uv_axis};
use quake_map::parsing::grammar::{Rule, SyntaxError};
use quake_map::parsing::parse_map;
use quake_map::parsing::util::{
    comment, escaped_string, generic_list, identifier, ignored, number,
};
use quake_map::vector::Vec3;

const TEST_MAP: &str = r#"// Game: Fumohouse
// Format: Valve
// entity 0
{
"mapversion" "220"
"classname" "worldspawn"
"_tb_textures" "textures/map"
// brush 0
{
( -16 -64 -16 ) ( -16 -63 -16 ) ( -16 -64 -15 ) map/grass [ 0 -1 0 0 ] [ 0 0 -1 0 ] 0 1 1
( -64 -16 -16 ) ( -64 -16 -15 ) ( -63 -16 -16 ) map/black [ 1 0 0 0 ] [ 0 0 -1 0 ] 0 1 1
( -64 -64 -16 ) ( -63 -64 -16 ) ( -64 -63 -16 ) map/wall [ -1 0 0 0 ] [ 0 -1 0 0 ] 0 1 1
( 64 64 16 ) ( 64 65 16 ) ( 65 64 16 ) map/accent [ 1 0 0 0 ] [ 0 -1 0 0 ] 0 1 1
( 64 16 16 ) ( 65 16 16 ) ( 64 16 17 ) map/dirt [ -1 0 0 0 ] [ 0 0 -1 0 ] 0 1 1
( 16 64 16 ) ( 16 64 17 ) ( 16 65 16 ) map/wall2 [ 0 1 0 0 ] [ 0 0 -1 0 ] 0 1 1
}
}"#;

fn rat(numerator: i64, denominator: u64) -> Rational {
    Rational::from_ratio(numerator, denominator).unwrap()
}

fn same_vec(a: &Vec3, x: i64, y: i64, z: i64) -> bool {
    a.equals(&Vec3::from_i64(x, y, z))
}

fn same_axis(a: &UvAxis, x: i64, y: i64, z: i64, offset: i64) -> bool {
    same_vec(&a.axis, x, y, z) && a.offset.equals(&Rational::from_i64(offset))
}

/// The face that the numbers `i`, `i + 1`, up to `i + 19` spell out.
fn test_brush_face(i: i64) -> Result<BrushFace, DegenerateGeometryError> {
    BrushFace::new(
        [
            Vec3::from_i64(i, i + 1, i + 2),
            Vec3::from_i64(i + 3, i + 4, i + 5),
            Vec3::from_i64(i + 6, i + 7, i + 8),
        ],
        b"TEXTURE".to_vec(),
        UvAxis { axis: Vec3::from_i64(i + 9, i + 10, i + 11), offset: Rational::from_i64(i + 12) },
        UvAxis { axis: Vec3::from_i64(i + 13, i + 14, i + 15), offset: Rational::from_i64(i + 16) },
        Rational::from_i64(i + 17),
        Rational::from_i64(i + 18),
        Rational::from_i64(i + 19),
    )
}

fn same_face(a: &BrushFace, b: &BrushFace) -> bool {
    let (a0, a1, a2) = a.points();
    let (b0, b1, b2) = b.points();
    a0.equals(b0)
        && a1.equals(b1)
        && a2.equals(b2)
        && a.texture() == b.texture()
        && a.u().axis.equals(&b.u().axis)
        && a.u().offset.equals(&b.u().offset)
        && a.v().axis.equals(&b.v().axis)
        && a.v().offset.equals(&b.v().offset)
        && a.rotation().equals(b.rotation())
        && a.x_scale().equals(b.x_scale())
        && a.y_scale().equals(b.y_scale())
        && a.normal().equals(b.normal())
        && a.origin_dist().equals(b.origin_dist())
}

#[test]
fn test_parse_map() {
    assert!(parse_map(TEST_MAP).is_ok());
}

#[test]
fn test_parse_identifier() {
    let input = b"test asdf";
    let end = identifier(input, 0);
    assert_eq!((&input[end..], &input[..end]), (&b" asdf"[..], &b"test"[..]));
}

#[test]
fn test_parse_comment() {
    let input = b"// this is a test";
    let end = comment(input, 0);
    assert_eq!(end.map(|e| &input[e..]), Some(&b""[..]));
}

#[test]
fn test_parse_ignored() {
    let empty = b"";
    assert_eq!(&empty[ignored(empty, 0)..], &b""[..]);

    let input = b" // this is a test\r\nasdf";
    assert_eq!(&input[ignored(input, 0)..], &b"asdf"[..]);
}

#[test]
fn test_parse_float_list() {
    let input = b"   0.0  1.0 3.0 5.0";
    let (numbers, end) = generic_list(input, 0, 4).unwrap();
    assert_eq!(&input[end..], &b""[..]);
    assert_eq!(numbers.len(), 4);
    assert!(numbers[0].equals(&Rational::from_i64(0)));
    assert!(numbers[1].equals(&Rational::from_i64(1)));
    assert!(numbers[2].equals(&Rational::from_i64(3)));
    assert!(numbers[3].equals(&Rational::from_i64(5)));

    assert!(generic_list(b"1.0 2.0 3.0 4.0", 0, 5).is_err());

    assert!(generic_list(b"1.0, 2.0", 0, 2).is_err());

    assert!(generic_list(b"1.302.2", 0, 2).is_err());
}

#[test]
fn test_parse_escaped_string() {
    let input = b"\"\\\"\"";
    let (text, end) = escaped_string(input, 0).unwrap();
    assert_eq!((&input[end..], text), (&b""[..], b"\"".to_vec()));

    assert!(escaped_string(b"\"\\\"", 0).is_err());
}

#[test]
fn test_parse_point() {
    let input = b"( 16 16.0 0.375 )";
    let (p, end) = point(input, 0).unwrap();
    assert_eq!(&input[end..], &b""[..]);
    assert!(p.x.equals(&Rational::from_i64(16)));
    assert!(p.y.equals(&Rational::from_i64(16)));
    assert!(p.z.equals(&rat(375, 1000)));
}

#[test]
fn test_parse_uv_axis() {
    let input = b"[ -1.0 0.0 1.0 2.0 ]";
    let (axis, end) = uv_axis(input, 0).unwrap();
    assert_eq!(&input[end..], &b""[..]);
    assert!(same_axis(&axis, -1, 0, 1, 2));
}

#[test]
fn test_parse_brush_face() {
    let input = b"( 0 1 2 ) (3 4 5) (6.0 7 8)\n\
                TEXTURE [9 10 11 12]    [13 14 15 16  ]   17 18 19.0000 asdf";
    let (outcome, end) = brush_face(input, 0).unwrap();
    assert_eq!(&input[end..], &b" asdf"[..]);
    // The three points lie on one line, so they make no face.
    assert_eq!(outcome.err(), Some(DegenerateGeometryError::CollinearPoints));
    assert_eq!(test_brush_face(0).err(), Some(DegenerateGeometryError::CollinearPoints));
}

#[test]
fn test_parse_brush() {
    let input = b"{
                (0 1 2) (3 4 5) (6 7 8) TEXTURE [9 10 11 12] [13 14 15 16] 17 18 19 // test comment
                (20 21 22) (23 24 25)
                (26 27 28) TEXTURE [29 30 31 32] [33 34 35 36] 37 38 39 (40 41 42) (43 44 45) (46 47 48)
                    TEXTURE [49 50 51 52] [53 54 55 56] 57 58 59
                } asdf";
    let (found, end) = brush(input, 0).unwrap();
    assert_eq!(&input[end..], &b" asdf"[..]);
    // All three faces are given by points on one line.
    assert_eq!(found.faces.len(), 0);
    assert_eq!(found.degenerate_faces, 3);
}

#[test]
fn test_parse_entity() {
    let input = b"{
                \"classname\"                 \"worldspawn\" // comment \r\n\r\n
                \"mapversion\"\t\t\t\"220\"\n
                {
                (0 1 2) (3 4 5) (6 7 8) TEXTURE [9 10 11 12] [13 14 15 16] 17 18 19 // comment
                } // comment
                } asdf";
    let (found, end) = entity(input, 0).unwrap();
    assert_eq!(&input[end..], &b" asdf"[..]);
    assert_eq!(found.properties.len(), 2);
    assert_eq!(found.properties.get(b"classname"), Some(&b"worldspawn".to_vec()));
    assert_eq!(found.properties.get(b"mapversion"), Some(&b"220".to_vec()));
    assert_eq!(found.brushes.len(), 1);
    assert_eq!(found.brushes[0].faces.len(), 0);
    assert_eq!(found.brushes[0].degenerate_faces, 1);
    assert!(found.is_worldspawn());
}

#[test]
fn parsed_face_holds_what_was_written() {
    let input = b"( -16 -64 -16 ) ( -16 -63 -16 ) ( -16 -64 -15 ) map/grass [ 0 -1 0 0.5 ] [ 0 0 -1 0 ] 90 1 -2.5";
    let (outcome, end) = brush_face(input, 0).unwrap();
    assert_eq!(end, input.len());
    let face = outcome.unwrap();
    let expected = BrushFace::new(
        [Vec3::from_i64(-16, -64, -16), Vec3::from_i64(-16, -63, -16), Vec3::from_i64(-16, -64, -15)],
        b"map/grass".to_vec(),
        UvAxis { axis: Vec3::from_i64(0, -1, 0), offset: rat(1, 2) },
        UvAxis { axis: Vec3::from_i64(0, 0, -1), offset: Rational::from_i64(0) },
        Rational::from_i64(90),
        Rational::from_i64(1),
        rat(-5, 2),
    )
    .unwrap();
    assert!(same_face(&face, &expected));
    assert!(same_vec(face.normal(), -1, 0, 0));
    assert!(face.origin_dist().equals(&Rational::from_i64(16)));
}

#[test]
fn numbers_are_read_exactly() {
    let cases: [(&[u8], i64, u64, usize); 8] = [
        (b"0", 0, 1, 1),
        (b"-16", -16, 1, 3),
        (b"+7", 7, 1, 2),
        (b"0.375", 3, 8, 5),
        (b"19.0000", 19, 1, 7),
        (b".5", 1, 2, 2),
        (b"5.", 5, 1, 2),
        (b"-0.001 ", -1, 1000, 6),
    ];
    for (text, numerator, denominator, length) in cases {
        let (value, end) = number(text, 0).unwrap();
        assert_eq!(end, length);
        assert!(value.equals(&rat(numerator, denominator)));
    }
    assert!(number(b"", 0).is_none());
    assert!(number(b"-", 0).is_none());
    assert!(number(b".", 0).is_none());
    assert!(number(b"abc", 0).is_none());
    assert!(number(b"12", 5).is_none());
    // A long number does not lose digits.
    let (long, _) = number(b"123456789012345678901234567890.5", 0).unwrap();
    let (same, _) = number(b"123456789012345678901234567890.50", 0).unwrap();
    let (other, _) = number(b"123456789012345678901234567890.6", 0).unwrap();
    assert!(long.equals(&same));
    assert!(long.lt(&other));
}

#[test]
fn string_escapes() {
    let (text, end) = escaped_string(b"\"a\\\\b\\\"c\\\nd\" rest", 0).unwrap();
    assert_eq!(text, b"a\\b\"c\nd".to_vec());
    assert_eq!(end, 12);
    assert_eq!(escaped_string(b"\"\"", 0).unwrap(), (Vec::new(), 2));
    assert_eq!(
        escaped_string(b"\"a\\nb\"", 0),
        Err(SyntaxError { rule: Rule::QuotedString, position: 3 })
    );
    assert_eq!(
        escaped_string(b"abc", 0),
        Err(SyntaxError { rule: Rule::QuotedString, position: 0 })
    );
    assert_eq!(
        escaped_string(b"\"abc", 0),
        Err(SyntaxError { rule: Rule::QuotedString, position: 4 })
    );
}

#[test]
fn comments_and_whitespace_between_tokens() {
    assert_eq!(ignored(b"//\nx", 0), 3);
    assert_eq!(ignored(b"  // a\r\n\t// b", 0), 13);
    assert_eq!(ignored(b"/ x", 0), 0);
    assert_eq!(comment(b"/ x", 0), None);
    assert_eq!(comment(b"x // y", 2), Some(6));
    let input = b"( 1 // one\n 2 // two\n 3 )";
    let (p, end) = point(input, 0).unwrap();
    assert_eq!(end, input.len());
    assert!(same_vec(&p, 1, 2, 3));
}

#[test]
fn missing_closing_brace_is_a_syntax_error() {
    let text = &TEST_MAP[..TEST_MAP.len() - 3];
    assert!(text.ends_with("1 1\n"));
    let error = parse_map(text).err().unwrap();
    assert_eq!(error, SyntaxError { rule: Rule::Brush, position: text.len() });

    let text = &TEST_MAP[..TEST_MAP.len() - 1];
    let error = parse_map(text).err().unwrap();
    assert_eq!(error, SyntaxError { rule: Rule::Entity, position: text.len() });
}

#[test]
fn syntax_errors_name_rule_and_position() {
    assert_eq!(parse_map("").err(), Some(SyntaxError { rule: Rule::Level, position: 0 }));
    assert_eq!(parse_map("  x").err(), Some(SyntaxError { rule: Rule::Level, position: 2 }));
    assert_eq!(parse_map("{ }").err(), Some(SyntaxError { rule: Rule::Entity, position: 2 }));
    assert_eq!(
        parse_map("{ \"a\" \"b\" { } }").err(),
        Some(SyntaxError { rule: Rule::Brush, position: 12 })
    );
    assert_eq!(
        parse_map("{ \"a\" \"b\" } trailing").err(),
        Some(SyntaxError { rule: Rule::Level, position: 12 })
    );
    assert_eq!(
        parse_map("{ \"a\" }").err(),
        Some(SyntaxError { rule: Rule::QuotedString, position: 6 })
    );
    assert_eq!(
        point(b"( 1 2 )", 0).err(),
        Some(SyntaxError { rule: Rule::Point, position: 6 })
    );
    assert_eq!(
        point(b"( 1 2 3 4 )", 0).err(),
        Some(SyntaxError { rule: Rule::Point, position: 8 })
    );
    assert_eq!(
        uv_axis(b"[ 1 2 3 ]", 0).err(),
        Some(SyntaxError { rule: Rule::UvAxis, position: 8 })
    );
    assert_eq!(
        brush_face(b"(0 0 0) (0 1 0) (0 0 1) tex [1 0 0 0] [0 1 0 0] 0 1", 0).err(),
        Some(SyntaxError { rule: Rule::BrushFace, position: 51 })
    );
}

#[test]
fn a_second_malformed_entity_fails_the_whole_parse() {
    let text = "{ \"classname\" \"worldspawn\" }\n{ \"classname\" }";
    assert!(parse_map(text).is_err());
}

#[test]
fn later_property_of_the_same_name_counts() {
    let map = parse_map("{ \"a\" \"1\" \"b\" \"2\" \"a\" \"3\" }").unwrap();
    let entity = &map.entities[0];
    assert_eq!(entity.properties.len(), 2);
    assert_eq!(
        entity.properties.entries(),
        &vec![(b"a".to_vec(), b"3".to_vec()), (b"b".to_vec(), b"2".to_vec())]
    );
    assert_eq!(entity.properties.get(b"a"), Some(&b"3".to_vec()));
    assert_eq!(entity.properties.get(b"b"), Some(&b"2".to_vec()));
    assert_eq!(entity.properties.get(b"c"), None);
    assert!(map.worldspawn().is_none());
}

#[test]
fn a_repeated_name_gives_one_property() {
    let input = b"{ \"a\" \"1\" \"a\" \"2\" }";
    let (found, end) = entity(input, 0).unwrap();
    assert_eq!(&input[end..], &b""[..]);
    assert_eq!(found.properties.len(), 1);
    assert_eq!(found.properties.get(b"a"), Some(&b"2".to_vec()));
    assert!(found.brushes.is_empty());
}

#[test]
fn inserting_properties() {
    let mut properties = Properties::new();
    assert_eq!(properties.len(), 0);
    properties.insert(b"x".to_vec(), b"1".to_vec());
    properties.insert(b"y".to_vec(), b"2".to_vec());
    assert_eq!(properties.len(), 2);
    properties.insert(b"x".to_vec(), b"3".to_vec());
    assert_eq!(properties.len(), 2);
    assert_eq!(properties.get(b"x"), Some(&b"3".to_vec()));
    assert_eq!(properties.get(b"y"), Some(&b"2".to_vec()));
    assert_eq!(properties.get(b""), None);
    properties.insert(b"".to_vec(), b"".to_vec());
    assert_eq!(properties.len(), 3);
    assert_eq!(properties.get(b""), Some(&b"".to_vec()));
}

#[test]
fn numbers_with_exponents() {
    let cases: [(&[u8], i64, u64, usize); 8] = [
        (b"1e3", 1000, 1, 3),
        (b"2.5e-2", 1, 40, 6),
        (b"-1.5E+2", -150, 1, 7),
        (b"7e0", 7, 1, 3),
        (b"1e", 1, 1, 1),
        (b"1e+", 1, 1, 1),
        (b"3.e1x", 30, 1, 4),
        (b".5e1", 5, 1, 4),
    ];
    for (text, numerator, denominator, length) in cases {
        let (value, end) = number(text, 0).unwrap();
        assert_eq!(end, length);
        assert!(value.equals(&rat(numerator, denominator)));
    }
    let (small, end) = number(b"6.123233995736766e-17", 0).unwrap();
    assert_eq!(end, 21);
    let expected = rat(6123233995736766, 1_000_000_000_000_000)
        .div(&rat(100_000_000_000_000_000, 1))
        .unwrap();
    assert!(small.equals(&expected));
    assert!(number(b"1e400", 0).is_some());
    assert!(number(b"1e-400", 0).is_some());
    assert!(number(b"1e401", 0).is_none());
    assert!(number(b"1e-99999999999999999999", 0).is_none());
    assert!(number(b"e5", 0).is_none());
    let (p, _) = point(b"( 1e1 -2E-1 3 )", 0).unwrap();
    assert!(p.x.equals(&rat(10, 1)));
    assert!(p.y.equals(&rat(-1, 5)));
}
