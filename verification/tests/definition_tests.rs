use onca::input_definitions::{
    parse_axis, parse_definition, parse_definitions, parse_dpad, parse_usage, DefinitionDPad,
    TomlItem,
};

fn s(x: &str) -> TomlItem {
    TomlItem::Str(x.to_string())
}

fn tbl(entries: Vec<(&str, TomlItem)>) -> TomlItem {
    TomlItem::Table(entries.into_iter().map(|(k, v)| (k.to_string(), v)).collect())
}

fn entries(item: TomlItem) -> Vec<(String, TomlItem)> {
    match item {
        TomlItem::Table(t) => t,
        _ => panic!("not a table"),
    }
}

fn usage(page: i64, usage: i64) -> TomlItem {
    tbl(vec![("page", TomlItem::Int(page)), ("usage", TomlItem::Int(usage))])
}

fn controller() -> TomlItem {
    tbl(vec![
        ("kind", s("gamepad")),
        ("vid", TomlItem::Int(0x054C)),
        ("pid", TomlItem::Int(0x0CE6)),
        ("name", s("DualSense")),
        (
            "buttons",
            tbl(vec![
                ("cross", usage(9, 2)),
                ("broken", tbl(vec![("page", TomlItem::Int(9))])),
                ("circle", usage(9, 3)),
            ]),
        ),
        (
            "axes",
            tbl(vec![
                ("left_stick", tbl(vec![("x", usage(1, 0x30)), ("y", usage(1, 0x31))])),
                (
                    "left_trigger",
                    tbl(vec![
                        ("page", TomlItem::Int(1)),
                        ("usage", TomlItem::Int(0x33)),
                        ("report", TomlItem::Int(2)),
                    ]),
                ),
            ]),
        ),
        (
            "dpad",
            tbl(vec![("kind", s("hat")), ("hat", usage(1, 0x39)), ("neutral", TomlItem::Int(8))]),
        ),
        (
            "touch",
            tbl(vec![(
                "touch",
                TomlItem::Array(vec![
                    tbl(vec![("x", usage(1, 0x30)), ("y", usage(1, 0x31))]),
                    tbl(vec![("x", usage(1, 0x32)), ("y", usage(1, 0x35))]),
                ]),
            )]),
        ),
        ("sensors", tbl(vec![("gyroscope", tbl(vec![("x", usage(0x20, 0x76))]))])),
    ])
}

#[test]
fn definition_reads_every_section() {
    let def = parse_definition(&controller()).unwrap();
    assert_eq!(def.kind.0, 0x1);
    assert_eq!(def.name, "DualSense");
    assert_eq!(def.vendor_product.vendor.0, 0x054C);
    assert_eq!(def.vendor_product.device.0, 0x0CE6);
    assert_eq!(def.buttons.len(), 2);
    assert_eq!(def.buttons[0].0, "cross");
    assert_eq!(def.buttons[0].1.usage.page.0, 9);
    assert_eq!(def.buttons[0].1.usage.usage.0, 2);
    assert_eq!(def.buttons[1].0, "circle");
    assert_eq!(def.axes.len(), 2);
    assert_eq!(def.axes[0].0, "left_stick");
    assert_eq!(def.axes[0].1.x.usage.usage.0, 0x30);
    assert_eq!(def.axes[0].1.y.unwrap().usage.usage.0, 0x31);
    assert!(def.axes[0].1.z.is_none());
    assert_eq!(def.axes[1].1.x.usage.usage.0, 0x33);
    assert_eq!(def.axes[1].1.x.report, 2);
    match def.dpad {
        Some(DefinitionDPad::Hat { usage, neutral }) => {
            assert_eq!(usage.usage.usage.0, 0x39);
            assert_eq!(neutral, 8);
        },
        _ => panic!("expected a hat"),
    }
    assert_eq!(def.touch.len(), 2);
    assert_eq!(def.touch[1].y.unwrap().usage.usage.0, 0x35);
    assert_eq!(def.sensors.gyroscope.unwrap().x.usage.page.0, 0x20);
    assert!(def.sensors.accelerometer.is_none());
}

#[test]
fn definition_needs_a_kind_and_ids() {
    let no_vid = tbl(vec![("kind", s("gamepad")), ("pid", TomlItem::Int(1))]);
    assert!(parse_definition(&no_vid).is_none());
    let unknown_kind =
        tbl(vec![("kind", s("keyboard")), ("vid", TomlItem::Int(1)), ("pid", TomlItem::Int(2))]);
    assert!(parse_definition(&unknown_kind).is_none());
    let no_kind = tbl(vec![("vid", TomlItem::Int(1)), ("pid", TomlItem::Int(2))]);
    assert!(parse_definition(&no_kind).is_none());
    let text_vid = tbl(vec![("kind", s("touch")), ("vid", s("1")), ("pid", TomlItem::Int(2))]);
    assert!(parse_definition(&text_vid).is_none());
    assert!(parse_definition(&TomlItem::Int(3)).is_none());
}

#[test]
fn definition_kind_array_and_generic_name() {
    let item = tbl(vec![
        ("kind", TomlItem::Array(vec![s("gamepad"), TomlItem::Int(3), s("mouse"), s("touch")])),
        ("vid", TomlItem::Int(0x1_0001)),
        ("pid", TomlItem::Int(-1)),
    ]);
    let def = parse_definition(&item).unwrap();
    assert_eq!(def.kind.0, 0x3);
    assert_eq!(def.name, "generic gamepad touch");
    assert_eq!(def.vendor_product.vendor.0, 1);
    assert_eq!(def.vendor_product.device.0, 0xFFFF);
    assert!(def.buttons.is_empty());
    assert!(def.dpad.is_none());
    assert!(def.touch.is_empty());
    assert!(def.sensors.gyroscope.is_none());
}

#[test]
fn definition_sections_that_do_not_read_are_left_out() {
    let item = tbl(vec![
        ("kind", s("sensor")),
        ("vid", TomlItem::Int(1)),
        ("pid", TomlItem::Int(2)),
        ("dpad", tbl(vec![("kind", s("wheel"))])),
        ("touch", tbl(vec![("touch", TomlItem::Int(4))])),
        ("sensors", tbl(vec![("accelerometer", TomlItem::Bool(true))])),
    ]);
    let def = parse_definition(&item).unwrap();
    assert_eq!(def.name, "generic sensor");
    assert!(def.dpad.is_none());
    assert!(def.touch.is_empty());
    assert!(def.sensors.accelerometer.is_none());
}

#[test]
fn usage_and_axis_reading() {
    let u = parse_usage(&tbl(vec![
        ("page", TomlItem::Int(0x1_0009)),
        ("usage", TomlItem::Int(5)),
    ]))
    .unwrap();
    assert_eq!(u.usage.page.0, 9);
    assert_eq!(u.report, 0);
    assert!(parse_usage(&usage(1, 2)).is_some());
    assert!(parse_usage(&s("button")).is_none());
    // an axis without `x` is itself the usage of its x
    let a = parse_axis(&tbl(vec![
        ("page", TomlItem::Int(1)),
        ("usage", TomlItem::Int(0x30)),
        ("z", usage(1, 0x32)),
    ]))
    .unwrap();
    assert_eq!(a.x.usage.usage.0, 0x30);
    assert_eq!(a.z.unwrap().usage.usage.0, 0x32);
    // a `y` that is no usage spoils the axis
    assert!(parse_axis(&tbl(vec![("x", usage(1, 0x30)), ("y", TomlItem::Int(1))])).is_none());
}

#[test]
fn dpad_buttons_with_and_without_diagonals() {
    let four = || {
        vec![
            ("kind", s("buttons")),
            ("up", usage(9, 1)),
            ("down", usage(9, 2)),
            ("left", usage(9, 3)),
            ("right", usage(9, 4)),
        ]
    };
    match parse_dpad(&entries(tbl(four()))) {
        Some(DefinitionDPad::Buttons { up, right, diags, .. }) => {
            assert_eq!(up.usage.usage.0, 1);
            assert_eq!(right.usage.usage.0, 4);
            assert!(diags.is_none());
        },
        _ => panic!("expected buttons"),
    }
    let mut one_diag = four();
    one_diag.push(("up_left", usage(9, 5)));
    assert!(parse_dpad(&entries(tbl(one_diag))).is_none());
    let mut all_diags = four();
    all_diags.push(("up_left", usage(9, 5)));
    all_diags.push(("up_right", usage(9, 6)));
    all_diags.push(("down_left", usage(9, 7)));
    all_diags.push(("down_right", usage(9, 8)));
    match parse_dpad(&entries(tbl(all_diags))) {
        Some(DefinitionDPad::Buttons { diags: Some(d), .. }) => {
            assert_eq!(d.down_left.usage.usage.0, 7);
            assert_eq!(d.up_right.usage.usage.0, 6);
        },
        _ => panic!("expected diagonals"),
    }
    assert!(parse_dpad(&entries(tbl(vec![("kind", s("hat"))]))).is_none());
}

#[test]
fn definitions_of_a_document() {
    let doc = entries(tbl(vec![(
        "definition",
        TomlItem::Array(vec![controller(), TomlItem::Int(1), tbl(vec![("kind", s("touch"))]), controller()]),
    )]));
    let defs = parse_definitions(&doc);
    assert_eq!(defs.len(), 2);
    assert_eq!(defs[1].name, "DualSense");
    let empty = entries(tbl(vec![("definition", tbl(vec![]))]));
    assert!(parse_definitions(&empty).is_empty());
}
