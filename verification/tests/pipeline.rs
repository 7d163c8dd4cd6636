use platform_intrinsics::doc::Node;
use platform_intrinsics::error::GenError;
use platform_intrinsics::generate;
use platform_intrinsics::IntrinsicsInput;

fn text(s: &str) -> Node {
    Node::Text(s.to_string())
}

fn record(fields: Vec<(&str, Node)>) -> Node {
    Node::Record(fields.into_iter().map(|(k, v)| (k.to_string(), v)).collect())
}

fn list(items: Vec<Node>) -> Node {
    Node::List(items)
}

fn widths(ws: Vec<u64>) -> Node {
    Node::List(ws.into_iter().map(Node::UInt).collect())
}

/// A platform document with one vector width table entry per given width and
/// one number class `i`.
fn platform_doc(ws: Vec<&str>) -> Node {
    record(vec![
        ("platform", text("x86")),
        (
            "width_info",
            Node::Record(
                ws.into_iter()
                    .map(|w| (w.to_string(), record(vec![("kind", text("vector"))])))
                    .collect(),
            ),
        ),
        ("number_info", record(vec![("i", record(vec![]))])),
    ])
}

fn entry(name: &str, ws: Vec<u64>, args: Vec<&str>, ret: &str) -> Node {
    record(vec![
        ("name", text(name)),
        ("widths", widths(ws)),
        ("args", list(args.into_iter().map(text).collect())),
        ("ret", text(ret)),
    ])
}

fn single_input(platform: Node, entries: Vec<Node>) -> IntrinsicsInput {
    let combined = match platform {
        Node::Record(mut fields) => {
            fields.push(("intrinsics".to_string(), list(entries)));
            Node::Record(fields)
        }
        _ => panic!("platform document must be a record"),
    };
    IntrinsicsInput::single(combined)
}

#[test]
fn non_power_of_two_width_rejected() {
    let doc = record(vec![
        ("platform", text("x86")),
        ("width_info", record(vec![("6", record(vec![]))])),
    ]);
    match generate(IntrinsicsInput::single(doc)) {
        Err(GenError::NonPowerOfTwoWidth { key, width }) => {
            assert_eq!(key, "6");
            assert_eq!(width, 6);
        }
        other => panic!("expected NonPowerOfTwoWidth, got {:?}", other),
    }
}

#[test]
fn non_numeric_width_key_rejected() {
    let doc = record(vec![
        ("platform", text("x86")),
        ("width_info", record(vec![("abc", record(vec![]))])),
    ]);
    match generate(IntrinsicsInput::single(doc)) {
        Err(GenError::InvalidWidthKey { key }) => assert_eq!(key, "abc"),
        other => panic!("expected InvalidWidthKey, got {:?}", other),
    }
}

#[test]
fn width_key_over_u64_rejected() {
    let doc = record(vec![
        ("platform", text("x86")),
        (
            "width_info",
            record(vec![("18446744073709551616", record(vec![]))]),
        ),
    ]);
    match generate(IntrinsicsInput::single(doc)) {
        Err(GenError::InvalidWidthKey { key }) => assert_eq!(key, "18446744073709551616"),
        other => panic!("expected InvalidWidthKey, got {:?}", other),
    }
}

#[test]
fn duplicate_width_spellings_rejected() {
    let doc = record(vec![
        ("platform", text("x86")),
        (
            "width_info",
            record(vec![("064", record(vec![])), ("64", record(vec![]))]),
        ),
    ]);
    match generate(IntrinsicsInput::single(doc)) {
        Err(GenError::DuplicateWidth { width }) => assert_eq!(width, 64),
        other => panic!("expected DuplicateWidth, got {:?}", other),
    }
}

#[test]
fn missing_platform_field_rejected() {
    let doc = record(vec![("width_info", record(vec![]))]);
    match generate(IntrinsicsInput::single(doc)) {
        Err(GenError::SchemaError { path, .. }) => assert_eq!(path, "platform"),
        other => panic!("expected SchemaError, got {:?}", other),
    }
}

#[test]
fn nested_schema_error_names_full_path() {
    let doc = record(vec![
        ("platform", text("x86")),
        (
            "width_info",
            record(vec![("64", record(vec![("kind", Node::UInt(3))]))]),
        ),
    ]);
    match generate(IntrinsicsInput::single(doc)) {
        Err(GenError::SchemaError { path, .. }) => assert_eq!(path, "width_info.64.kind"),
        other => panic!("expected SchemaError, got {:?}", other),
    }
}

#[test]
fn one_width_yields_one_binding_embedding_width() {
    let input = single_input(
        platform_doc(vec!["128"]),
        vec![entry("vadd", vec![128], vec!["i", "i"], "i")],
    );
    let out = generate(input).expect("generation should succeed");
    let decls: Vec<&str> = out.lines().filter(|l| l.starts_with("pub fn ")).collect();
    assert_eq!(decls.len(), 1);
    assert!(decls[0].contains("128"));
    assert_eq!(decls[0], "pub fn vadd128(i128, i128) -> i128;");
}

#[test]
fn three_widths_yield_three_bindings_ascending() {
    let input = single_input(
        platform_doc(vec!["64", "128", "256"]),
        vec![entry("vadd", vec![256, 64, 128], vec!["i"], "i")],
    );
    let out = generate(input).expect("generation should succeed");
    let decls: Vec<&str> = out.lines().filter(|l| l.starts_with("pub fn ")).collect();
    assert_eq!(
        decls,
        vec![
            "pub fn vadd64(i64) -> i64;",
            "pub fn vadd128(i128) -> i128;",
            "pub fn vadd256(i256) -> i256;",
        ]
    );
}

#[test]
fn unknown_type_reference_names_symbol_and_intrinsic() {
    let input = single_input(
        platform_doc(vec!["128"]),
        vec![entry("vadd", vec![128], vec!["ghost_class"], "i")],
    );
    match generate(input) {
        Err(GenError::UnknownTypeReference { symbol, intrinsic }) => {
            assert_eq!(symbol, "ghost_class");
            assert_eq!(intrinsic, "vadd");
        }
        other => panic!("expected UnknownTypeReference, got {:?}", other),
    }
}

#[test]
fn width_reference_resolves_against_width_table() {
    let input = single_input(
        platform_doc(vec!["128"]),
        vec![entry("mask", vec![128], vec!["128"], "i")],
    );
    let out = generate(input).expect("generation should succeed");
    assert!(out.contains("pub fn mask128(128) -> i128;"));
}

#[test]
fn unknown_width_rejected() {
    let input = single_input(
        platform_doc(vec!["128"]),
        vec![entry("vadd", vec![64], vec!["i"], "i")],
    );
    match generate(input) {
        Err(GenError::UnknownWidth { width, intrinsic }) => {
            assert_eq!(width, 64);
            assert_eq!(intrinsic, "vadd");
        }
        other => panic!("expected UnknownWidth, got {:?}", other),
    }
}

#[test]
fn generation_is_deterministic() {
    let make = || {
        single_input(
            platform_doc(vec!["64", "128"]),
            vec![
                entry("vadd", vec![64, 128], vec!["i", "i"], "i"),
                entry("vsub", vec![128], vec!["i"], "i"),
            ],
        )
    };
    let a = generate(make()).expect("generation should succeed");
    let b = generate(make()).expect("generation should succeed");
    assert_eq!(a, b);
}

#[test]
fn name_collision_rejected_before_output() {
    // "x3" at width 2 and "x" at width 32 both monomorphize to "x32".
    let input = single_input(
        platform_doc(vec!["2", "32"]),
        vec![
            entry("x3", vec![2], vec!["i"], "i"),
            entry("x", vec![32], vec!["i"], "i"),
        ],
    );
    match generate(input) {
        Err(GenError::NameCollision { name }) => assert_eq!(name, "x32"),
        other => panic!("expected NameCollision, got {:?}", other),
    }
}

#[test]
fn duplicate_intrinsic_name_across_files_rejected() {
    let files = vec![
        ("a.json".to_string(), list(vec![entry("vadd", vec![128], vec!["i"], "i")])),
        ("b.json".to_string(), list(vec![entry("vadd", vec![64], vec!["i"], "i")])),
    ];
    match generate(IntrinsicsInput::multi(platform_doc(vec!["64", "128"]), files)) {
        Err(GenError::DuplicateIntrinsicName { name }) => assert_eq!(name, "vadd"),
        other => panic!("expected DuplicateIntrinsicName, got {:?}", other),
    }
}

#[test]
fn file_order_is_preserved_not_resorted() {
    let a = || ("a.json".to_string(), list(vec![entry("zzz", vec![64], vec!["i"], "i")]));
    let b = || ("b.json".to_string(), list(vec![entry("aaa", vec![64], vec!["i"], "i")]));
    let out_ab = generate(IntrinsicsInput::multi(platform_doc(vec!["64"]), vec![a(), b()]))
        .expect("generation should succeed");
    let out_ba = generate(IntrinsicsInput::multi(platform_doc(vec!["64"]), vec![b(), a()]))
        .expect("generation should succeed");
    let decls = |s: &str| {
        s.lines()
            .filter(|l| l.starts_with("pub fn "))
            .map(|l| l.to_string())
            .collect::<Vec<_>>()
    };
    assert_eq!(decls(&out_ab), vec!["pub fn zzz64(i64) -> i64;", "pub fn aaa64(i64) -> i64;"]);
    assert_eq!(decls(&out_ba), vec!["pub fn aaa64(i64) -> i64;", "pub fn zzz64(i64) -> i64;"]);
}

#[test]
fn exact_output_text() {
    let input = single_input(
        platform_doc(vec!["128"]),
        vec![record(vec![
            ("name", text("vfma")),
            ("widths", widths(vec![128])),
            ("args", list(vec![text("i"), text("i"), text("i")])),
            ("ret", text("i")),
            ("feature", text("fma")),
        ])],
    );
    let out = generate(input).expect("generation should succeed");
    assert_eq!(
        out,
        "// Auto-generated module!\n\
         // platform: x86\n\
         #[cfg(target_feature = \"fma\")]\n\
         pub fn vfma128(i128, i128, i128) -> i128;\n"
    );
}

#[test]
fn single_document_without_intrinsics_emits_header_only() {
    let out = generate(IntrinsicsInput::single(platform_doc(vec!["64"])))
        .expect("generation should succeed");
    assert_eq!(out, "// Auto-generated module!\n// platform: x86\n");
}

#[test]
fn entry_missing_name_rejected() {
    let bad = record(vec![
        ("widths", widths(vec![64])),
        ("args", list(vec![text("i")])),
        ("ret", text("i")),
    ]);
    let input = single_input(platform_doc(vec!["64"]), vec![bad]);
    match generate(input) {
        Err(GenError::DefinitionError { origin, index, field }) => {
            assert_eq!(origin, "intrinsics");
            assert_eq!(index, 0);
            assert_eq!(field, "name");
        }
        other => panic!("expected DefinitionError, got {:?}", other),
    }
}

#[test]
fn entry_with_empty_widths_rejected() {
    let bad = record(vec![
        ("name", text("vadd")),
        ("widths", widths(vec![])),
        ("args", list(vec![text("i")])),
        ("ret", text("i")),
    ]);
    let input = single_input(platform_doc(vec!["64"]), vec![bad]);
    match generate(input) {
        Err(GenError::DefinitionError { index, field, .. }) => {
            assert_eq!(index, 0);
            assert_eq!(field, "widths");
        }
        other => panic!("expected DefinitionError, got {:?}", other),
    }
}

#[test]
fn entry_with_no_arguments_rejected() {
    let bad = record(vec![
        ("name", text("vadd")),
        ("widths", widths(vec![64])),
        ("args", list(vec![])),
        ("ret", text("i")),
    ]);
    let input = single_input(platform_doc(vec!["64"]), vec![bad]);
    match generate(input) {
        Err(GenError::DefinitionError { index, field, .. }) => {
            assert_eq!(index, 0);
            assert_eq!(field, "args");
        }
        other => panic!("expected DefinitionError, got {:?}", other),
    }
}

#[test]
fn entry_with_non_text_feature_rejected() {
    let bad = record(vec![
        ("name", text("vadd")),
        ("widths", widths(vec![64])),
        ("args", list(vec![text("i")])),
        ("ret", text("i")),
        ("feature", Node::UInt(1)),
    ]);
    let input = single_input(platform_doc(vec!["64"]), vec![bad]);
    match generate(input) {
        Err(GenError::DefinitionError { index, field, .. }) => {
            assert_eq!(index, 0);
            assert_eq!(field, "feature");
        }
        other => panic!("expected DefinitionError, got {:?}", other),
    }
}

#[test]
fn definition_document_must_be_a_list() {
    let files = vec![("a.json".to_string(), record(vec![]))];
    match generate(IntrinsicsInput::multi(platform_doc(vec!["64"]), files)) {
        Err(GenError::SchemaError { path, .. }) => assert_eq!(path, "a.json"),
        other => panic!("expected SchemaError, got {:?}", other),
    }
}

#[test]
fn duplicate_widths_within_one_entry_are_merged() {
    let input = single_input(
        platform_doc(vec!["64"]),
        vec![entry("vadd", vec![64, 64], vec!["i"], "i")],
    );
    let out = generate(input).expect("generation should succeed");
    let decls: Vec<&str> = out.lines().filter(|l| l.starts_with("pub fn ")).collect();
    assert_eq!(decls, vec!["pub fn vadd64(i64) -> i64;"]);
}
