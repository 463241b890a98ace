use quake_map::fgd::to_fgd_literal::{decimal_text, ToFgdLiteral};
use quake_map::fgd::{
    lines, Choice, EntityProperty, EntityPropertyData, FgdClass, FgdClassProperty, FgdClassType,
    FgdFile, Flag, FlagsData, FloatLiteral,
};

#[test]
fn test_basic_property_serialize() {
    let property = EntityProperty::String(EntityPropertyData::<String> {
        name: "test".to_string(),
        display_name: "Test".to_string(),
        default: "yes".to_string(),
        description: "This is a test".to_string(),
    });

    assert_eq!(
        property.serialize(),
        "test(string) : \"Test\" : \"yes\" : \"This is a test\""
    );
}

#[test]
fn test_choices_property_serialize() {
    let property = EntityProperty::Choices(
        EntityPropertyData::<i32> {
            name: "test2".to_string(),
            display_name: "Test 2".to_string(),
            default: 0,
            description: "This is another test".to_string(),
        },
        vec![
            Choice {
                index: 0,
                name: "Choice 1".to_string(),
            },
            Choice {
                index: 1,
                name: "Choice 2".to_string(),
            },
        ],
    );

    assert_eq!(
        property.serialize(),
        r#"test2(choices) : "Test 2" : 0 : "This is another test" =
[
    0 : "Choice 1"
    1 : "Choice 2"
]"#
    );
}

#[test]
fn test_flags_data_serialize() {
    let property = EntityProperty::Flags(FlagsData {
        name: "spawnflags".to_string(),
        flags: vec![
            Flag {
                flag: 1,
                name: "This is a flag".to_string(),
                default: false,
            },
            Flag {
                flag: 2,
                name: "This is another flag".to_string(),
                default: true,
            },
        ],
    });

    assert_eq!(
        property.serialize(),
        r#"spawnflags(flags) =
[
    1 : "This is a flag" : 0
    2 : "This is another flag" : 1
]"#
    );
}

#[test]
fn literals() {
    assert_eq!("a b".to_string().to_fgd_literal(), "\"a b\"");
    assert_eq!(String::new().to_fgd_literal(), "\"\"");
    assert_eq!(0i32.to_fgd_literal(), "0");
    assert_eq!(7i32.to_fgd_literal(), "7");
    assert_eq!(10i32.to_fgd_literal(), "10");
    assert_eq!((-305i32).to_fgd_literal(), "-305");
    assert_eq!(i32::MAX.to_fgd_literal(), "2147483647");
    assert_eq!(i32::MIN.to_fgd_literal(), "-2147483648");
    assert_eq!(decimal_text(1000000), "1000000");
    assert_eq!(true.to_fgd_literal(), "1");
    assert_eq!(false.to_fgd_literal(), "0");
    assert_eq!(FloatLiteral { text: "5".to_string() }.to_fgd_literal(), "5");
    assert_eq!(FloatLiteral::default().to_fgd_literal(), "0");
}

#[test]
fn class_type_keywords() {
    assert_eq!(FgdClassType::Base.serialize(), "@BaseClass");
    assert_eq!(FgdClassType::Point.serialize(), "@PointClass");
    assert_eq!(FgdClassType::Solid.serialize(), "@SolidClass");
}

#[test]
fn named_property_and_kinds() {
    let data = EntityPropertyData::<i32>::named("speed".to_string());
    assert_eq!(data.name, "speed");
    assert_eq!(data.display_name, "");
    assert_eq!(data.default, 0);
    assert_eq!(data.description, "");
    assert_eq!(data.serialize("integer"), "speed(integer) : \"\" : 0 : \"\"");

    let property = EntityProperty::Float(EntityPropertyData::<FloatLiteral> {
        name: "test_prop".to_string(),
        display_name: "Test property".to_string(),
        default: FloatLiteral { text: "5".to_string() },
        description: "This is a test".to_string(),
    });
    assert_eq!(property.name(), "test_prop");
    assert_eq!(property.kind_name(), "Float");
    assert_eq!(
        property.serialize(),
        "test_prop(float) : \"Test property\" : 5 : \"This is a test\""
    );
    let flags = EntityProperty::Flags(FlagsData { name: "f".to_string(), flags: vec![] });
    assert_eq!(flags.name(), "f");
    assert_eq!(flags.kind_name(), "Flags");
    assert_eq!(flags.serialize(), "f(flags) =\n[\n]");
    let boolean = EntityProperty::Boolean(EntityPropertyData::<bool>::named("b".to_string()));
    assert_eq!(boolean.serialize(), "b(boolean) : \"\" : 0 : \"\"");
    assert_eq!(boolean.kind_name(), "Boolean");
}

fn float(text: &str) -> FloatLiteral {
    FloatLiteral { text: text.to_string() }
}

#[test]
fn test_fgd_serialize() {
    let fgd = FgdFile {
        name: "entities".to_string(),
        includes: vec!["base1".to_string(), "base2".to_string()],
        classes: vec![
            FgdClass {
                class_type: FgdClassType::Base,
                name: "TestBase".to_string(),
                description: "Test base class\nMultiline description".to_string(),
                class_properties: vec![FgdClassProperty::Color(255, 255, 255)],
                entity_properties: vec![EntityProperty::Float(EntityPropertyData::<FloatLiteral> {
                    name: "test_prop".to_string(),
                    display_name: "Test property".to_string(),
                    default: float("5"),
                    description: "This is a test".to_string(),
                })],
            },
            FgdClass {
                class_type: FgdClassType::Point,
                name: "test_point".to_string(),
                description: "Test point class".to_string(),
                class_properties: vec![FgdClassProperty::Base(vec!["TestBase".to_string()])],
                entity_properties: vec![EntityProperty::Flags(FlagsData {
                    name: "spawnflags".to_string(),
                    flags: vec![
                        Flag {
                            flag: 1,
                            name: "Flag 1".to_string(),
                            default: true,
                        },
                        Flag {
                            flag: 2,
                            name: "Flag 2".to_string(),
                            default: false,
                        },
                        Flag {
                            flag: 4,
                            name: "Flag 3".to_string(),
                            default: true,
                        },
                    ],
                })],
            },
        ],
    };

    let expected = r#"@include base1
@include base2

@BaseClass color(255 255 255) = TestBase :
    "Test base class\n" +
    "Multiline description"
[
    test_prop(float) : "Test property" : 5 : "This is a test"
]

@PointClass base(TestBase) = test_point :
    "Test point class"
[
    spawnflags(flags) =
    [
        1 : "Flag 1" : 1
        2 : "Flag 2" : 0
        4 : "Flag 3" : 1
    ]
]
"#;
    assert_eq!(expected, fgd.serialize());
}

#[test]
fn class_properties() {
    assert_eq!(FgdClassProperty::Base(vec![]).serialize(), "base()");
    assert_eq!(
        FgdClassProperty::Base(vec!["A".to_string(), "B".to_string(), "C".to_string()]).serialize(),
        "base(A, B, C)"
    );
    assert_eq!(
        FgdClassProperty::Model("models/box.obj".to_string()).serialize(),
        "model(\"models/box.obj\")"
    );
    assert_eq!(FgdClassProperty::Color(0, 128, 4294967295).serialize(), "color(0 128 4294967295)");
    assert_eq!(
        FgdClassProperty::Size(
            [float("-8"), float("-8"), float("0")],
            [float("8"), float("8"), float("16.5")]
        )
        .serialize(),
        "size(-8 -8 0, 8 8 16.5)"
    );
}

#[test]
fn lines_of_a_text() {
    assert_eq!(lines(""), Vec::<String>::new());
    assert_eq!(lines("one"), vec!["one"]);
    assert_eq!(lines("one\n"), vec!["one"]);
    assert_eq!(lines("one\ntwo"), vec!["one", "two"]);
    assert_eq!(lines("one\r\ntwo\r\n"), vec!["one", "two"]);
    assert_eq!(lines("one\n\ntwo"), vec!["one", "", "two"]);
    assert_eq!(lines("\n"), vec![""]);
    assert_eq!(lines("caf\u{e9}\nna\u{ef}ve\r"), vec!["caf\u{e9}", "na\u{ef}ve\r"]);
    // The same as the standard library gives.
    for text in ["", "a", "a\n", "\n\n", "a\r\nb", "a\rb\n", "\r\n", "x\n\r\ny\r"] {
        let expected: Vec<String> = text.lines().map(|l| l.to_string()).collect();
        assert_eq!(lines(text), expected);
    }
}

#[test]
fn renaming_a_property() {
    let mut property = EntityProperty::Choices(
        EntityPropertyData::<i32>::named("old".to_string()),
        vec![],
    );
    property.set_name("new".to_string());
    assert_eq!(property.name(), "new");
    assert_eq!(property.kind_name(), "Choices");
    assert_eq!(property.serialize(), "new(choices) : \"\" : 0 : \"\" =\n[\n]");

    // Everything but the name stays.
    let mut full = EntityProperty::Choices(
        EntityPropertyData::<i32> {
            name: "old".to_string(),
            display_name: "Shown".to_string(),
            default: 7,
            description: "What it is".to_string(),
        },
        vec![Choice { index: 7, name: "Seven".to_string() }],
    );
    full.set_name("new".to_string());
    assert_eq!(
        full.serialize(),
        "new(choices) : \"Shown\" : 7 : \"What it is\" =\n[\n    7 : \"Seven\"\n]"
    );
    let mut flags = EntityProperty::Flags(FlagsData {
        name: "old".to_string(),
        flags: vec![Flag { flag: 1, name: "One".to_string(), default: true }],
    });
    flags.set_name("new".to_string());
    assert_eq!(flags.serialize(), "new(flags) =\n[\n    1 : \"One\" : 1\n]");
}

#[test]
fn class_without_description_or_properties() {
    let class = FgdClass {
        class_type: FgdClassType::Solid,
        name: "wall".to_string(),
        description: String::new(),
        class_properties: vec![],
        entity_properties: vec![],
    };
    assert_eq!(class.serialize(), "@SolidClass = wall :\n[\n]");
    let file = FgdFile { name: "f".to_string(), includes: vec![], classes: vec![] };
    assert_eq!(file.serialize(), "");
}
