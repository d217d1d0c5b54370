use kinewright_media::declared::{
    cc5_test_source, cc6_test_source, cc7_declared_test_names, cc7_inventory_groups,
    cc7_test_source, CC5_COMPOSITOR_TESTS, CC5_ENGINE_TESTS, CC5_INVENTORY_TESTS, CC5_MEDIA_TESTS,
    CC5_TEST_SOURCES, CC6_AGENT_TESTS, CC6_APP_TESTS, CC6_CORE_TESTS, CC6_EXPORT_TESTS,
    CC6_INVENTORY_TESTS, CC6_MEDIA_TESTS, CC6_MEDIA_TEST_SOURCES, CC6_TEST_SOURCES,
    CC7_AGENT_TESTS, CC7_AGENT_TEST_SOURCES, CC7_APP_TEST_SOURCES, CC7_CORE_TEST_SOURCES, CC7_EXPLICIT_TEST_NAMES, CC7_FORBIDDEN_HELPERS,
    CC7_GPU_SKIP_OWNER, CC7_INVENTORY_TESTS, CC7_MEDIA_TESTS, CC7_MEDIA_TEST_SOURCES,
    CC7_SKIP_TYPED_CODES, CC7_TEST_SOURCES,
};
use kinewright_media::inventory::{
    cc7_test_body, declared_test_names, declares_test, is_test_attribute, uses_outside_prose,
};
use kinewright_media::manifest::cc6_manifest;
use kinewright_media::naming::sorted;
use serde_json::Value;

/// The sources of the workflow tests: each group's names, the first source of
/// the group holding all but the last of them and the last source the rest.
fn workflow_sources() -> Vec<String> {
    let mut texts = vec![String::new(); CC7_TEST_SOURCES.len()];
    for group in cc7_inventory_groups() {
        for (index, name) in group.tests.iter().enumerate() {
            let path = if index + 1 == group.tests.len() {
                group.sources[group.sources.len() - 1]
            } else {
                group.sources[0]
            };
            let place = CC7_TEST_SOURCES
                .iter()
                .position(|source| *source == path)
                .expect("every owner is a source");
            let text = &mut texts[place];
            text.push_str("/// Never calls fixture_gpu_or_skip(\"here\").\n");
            text.push_str(if index % 2 == 0 { "#[test]\n" } else { "#[tokio::test]\n" });
            text.push_str(&format!("fn {name}() {{\n"));
            if group.label == "AGENT" && index < 6 {
                text.push_str("    if std::env::var(\"KINEWRIGHT_GPU_TESTS_MAY_SKIP\").is_ok() {\n");
                text.push_str("        assert_eq!(code, \"working_proof_unavailable\");\n");
                text.push_str("        println!(\"SKIPPED: no adapter\");\n    }\n");
            }
            text.push_str("    let needles = [\"fixture_gpu_or_skip\", \"std::env::var\"];\n}\n\n");
        }
    }
    texts
}

#[test]
fn cc7_declared_test_names_exist_in_their_source_files() {
    let texts = workflow_sources();
    let texts: Vec<&str> = texts.iter().map(String::as_str).collect();

    // --- both directions, per crate ---------------------------------------
    for group in cc7_inventory_groups() {
        let label = group.label;
        for name in &group.tests {
            assert!(
                group
                    .sources
                    .iter()
                    .any(|path| declares_test(cc7_test_source(&texts, path), name)),
                "no CC7_{label}_TEST_SOURCES file declares a #[test] named {name}"
            );
        }
        let declared = sorted(
            group
                .sources
                .iter()
                .flat_map(|path| declared_test_names(cc7_test_source(&texts, path), "cc7_"))
                .collect(),
        );
        let mut named = sorted(group.tests.iter().map(|name| (*name).to_owned()).collect());
        named.retain(|name| !CC7_EXPLICIT_TEST_NAMES.contains(&name.as_str()));
        assert_eq!(
            declared, named,
            "CC7_{label}_TESTS and the `cc7_*` tests the {label} sources actually declare disagree"
        );
    }

    // --- the `cargo test -- cc7_` filter, and no name declared twice -------
    let mut all = Vec::new();
    for group in cc7_inventory_groups() {
        for name in &group.tests {
            assert!(name.starts_with("cc7_") || CC7_EXPLICIT_TEST_NAMES.contains(name));
            all.push((*name).to_owned());
        }
    }
    let total = all.len();
    all.sort_unstable();
    all.dedup();
    assert_eq!(all.len(), total, "a CC7 test name is declared in two inventory arrays");
    assert_eq!(total, 96, "the CC7 slice declares 96 tests across five crates");
    assert_eq!(cc7_declared_test_names(), all);
    for name in CC7_EXPLICIT_TEST_NAMES {
        assert!(!name.starts_with("cc7_"));
        assert!(all.iter().any(|declared| declared == name));
    }
    let fixtures = cc7_test_source(&texts, CC7_MEDIA_TEST_SOURCES[0]);
    for name in CC7_INVENTORY_TESTS {
        assert!(declares_test(fixtures, name));
        assert!(CC7_MEDIA_TESTS.contains(&name));
    }

    // --- the guard on forbidden helpers ------------------------------------
    for path in CC7_MEDIA_TEST_SOURCES
        .into_iter()
        .chain(CC7_CORE_TEST_SOURCES)
    {
        for needle in CC7_FORBIDDEN_HELPERS {
            assert!(
                !uses_outside_prose(cc7_test_source(&texts, path), needle),
                "{path} must never reach for {needle}"
            );
        }
    }
    for path in CC7_APP_TEST_SOURCES {
        for needle in [CC7_FORBIDDEN_HELPERS[0], CC7_FORBIDDEN_HELPERS[1]] {
            assert!(
                !uses_outside_prose(cc7_test_source(&texts, path), needle),
                "{path} must never reach for {needle}"
            );
        }
    }
    assert_eq!(CC7_GPU_SKIP_OWNER, CC7_AGENT_TEST_SOURCES[0]);
    let agent = cc7_test_source(&texts, CC7_GPU_SKIP_OWNER);
    let any_call = format!("{}(", CC7_FORBIDDEN_HELPERS[2]);
    let template_call = format!(
        "{}(\"{}\")",
        CC7_FORBIDDEN_HELPERS[2], CC7_FORBIDDEN_HELPERS[1]
    );
    let mut template_branches = 0_usize;
    for name in CC7_AGENT_TESTS {
        let body = cc7_test_body(agent, name);
        assert!(!uses_outside_prose(&body, CC7_FORBIDDEN_HELPERS[0]));
        let consulted = body.matches(any_call.as_str()).count();
        let templated = body.matches(template_call.as_str()).count();
        assert_eq!(consulted, templated);
        if templated == 0 {
            continue;
        }
        template_branches += templated;
        assert!(body.contains("SKIPPED:"));
        assert!(CC7_SKIP_TYPED_CODES.iter().any(|code| body.contains(code)));
    }
    assert!(template_branches >= 5);
}

#[test]
fn a_test_needs_its_attribute() {
    let source = "#[test]\n#[ignore]\n/// Said of it.\nfn cc7_one() {}\n\nfn cc7_two() {}\n";
    assert!(declares_test(source, "cc7_one"));
    assert!(!declares_test(source, "cc7_two"));
    assert!(!declares_test(source, "cc7_three"));
    assert_eq!(declared_test_names(source, "cc7_"), vec!["cc7_one".to_owned()]);
    assert_eq!(declared_test_names(source, "cc6_"), Vec::<String>::new());
    assert!(is_test_attribute("#[test]"));
    assert!(is_test_attribute("#[tokio::test]"));
    assert!(!is_test_attribute("#[ignore]"));
}

#[test]
fn a_comment_uses_nothing() {
    assert!(uses_outside_prose("let gpu = helper();\n", "helper"));
    assert!(uses_outside_prose("std::env::var(\"helper\")\n", "helper"));
    assert!(!uses_outside_prose("// helper() is not for use\n", "helper"));
    assert!(!uses_outside_prose("let list = [\"helper\", \"other\"];\n", "helper"));
    assert!(!uses_outside_prose("call(); // helper()\n", "helper"));
}

#[test]
fn a_name_in_a_comment_or_a_string_is_no_test() {
    let commented = "#[test]\n// replaces fn cc5_a(\nfn cc5_b() {}\n";
    assert!(!declares_test(commented, "cc5_a"));
    assert!(declares_test(commented, "cc5_b"));
    assert_eq!(declared_test_names(commented, "cc5_"), vec!["cc5_b".to_owned()]);
    let trailing = "#[test]\nfn cc5_b() { // unlike fn cc5_a(\n}\n";
    assert!(!declares_test(trailing, "cc5_a"));
    assert!(declares_test(trailing, "cc5_b"));
    let quoted = "#[test]\n#[ignore = \"see fn cc5_a(\"]\nfn cc5_b() {}\n";
    assert!(!declares_test(quoted, "cc5_a"));
    assert!(declares_test(quoted, "cc5_b"));
    let escaped = "#[test]\nlet s = \"say \\\"fn cc5_a(\\\"\"; fn cc5_b() {}\n";
    assert!(!declares_test(escaped, "cc5_a"));
    assert!(declares_test(escaped, "cc5_b"));
    assert_eq!(declared_test_names(escaped, "cc5_"), vec!["cc5_b".to_owned()]);
}

#[test]
fn slashes_in_a_string_begin_no_comment() {
    let source = "fetch(\"https://host\"); fixture_gpu_or_skip();";
    assert!(uses_outside_prose(source, "fixture_gpu_or_skip"));
    assert!(!uses_outside_prose("fetch(\"https://host\"); // helper()", "helper"));
    assert!(uses_outside_prose("say(\"a \\\" // b\"); helper();", "helper"));
    assert!(!uses_outside_prose("push('\"'); // helper()", "helper"));
    assert!(!uses_outside_prose("push('\\\"'); // helper()", "helper"));
    assert!(uses_outside_prose("fixture_gpu_or_skip(\"cc7-a\")", "fixture_gpu_or_skip"));
}

#[test]
fn the_workflow_inventory_has_ninety_six_names() {
    let names = cc7_declared_test_names();
    assert_eq!(names.len(), 96);
    assert!(names.windows(2).all(|pair| pair[0] < pair[1]));
    assert!(names[..95].iter().all(|name| name.starts_with("cc7_")));
    assert_eq!(names[95], "published_v6_manifest_tracks_the_color_workflow_suite");
}

#[test]
fn a_body_begins_at_its_declaration_and_not_at_a_mention() {
    let source = "// see fn cc7_a(\nfn cc7_a() {\n}\n";
    assert_eq!(cc7_test_body(source, "cc7_a"), "fn cc7_a() {\n}");
}

#[test]
fn a_body_ends_at_the_first_brace_in_column_zero() {
    let source = "#[test]\nfn cc7_a() {\n    if true {\n    }\n}\nfn later() {}\n";
    assert_eq!(
        cc7_test_body(source, "cc7_a"),
        "fn cc7_a() {\n    if true {\n    }\n}"
    );
}

#[test]
fn a_source_stands_beside_its_path() {
    let texts = vec!["text"; CC5_TEST_SOURCES.len()];
    let mut marked = texts.clone();
    marked[1] = "second";
    assert_eq!(cc5_test_source(&marked, CC5_TEST_SOURCES[1]), "second");
    assert_eq!(cc5_test_source(&marked, CC5_TEST_SOURCES[0]), "text");
    let mut marked = vec!["text"; CC6_TEST_SOURCES.len()];
    let last = CC6_TEST_SOURCES.len() - 1;
    marked[last] = "last";
    assert_eq!(cc6_test_source(&marked, CC6_TEST_SOURCES[last]), "last");
}

#[test]
fn names_come_out_in_the_order_of_their_bytes() {
    let names = vec!["b".to_owned(), "ab".to_owned(), "a".to_owned(), "b".to_owned()];
    assert_eq!(sorted(names), vec!["a", "ab", "b", "b"]);
}

/// A source that declares the tests of a list.
fn source_of(names: &[&str]) -> String {
    names
        .iter()
        .map(|name| format!("#[test]\nfn {name}() {{\n    fallback_gpu();\n}}\n\n"))
        .collect()
}

/// One item of a manifest: an owner with its sources and its tests.
fn manifest_item(number: usize, path: &str, tests: &[&str]) -> String {
    let owner = path.split('/').nth(1).expect("a crate");
    let tests: Vec<String> = tests.iter().map(|name| format!("\"{name}\"")).collect();
    format!(
        "{{\"item\": {number}, \"owners\": [{{\"owner\": \"{owner}\", \"sources\": [\"{path}\"], \
         \"tests\": [{}]}}]}}",
        tests.join(", ")
    )
}

fn manifest_text(items: &[String], names: [&str; 2]) -> String {
    format!(
        "{{\"required_fixtures\": [{}], \"manifest_self_test\": {{\"test\": \"{}\", \
         \"inventory_test\": \"{}\"}}}}",
        items.join(", "),
        names[0],
        names[1]
    )
}

/// The number of tests that a manifest's items claim, each found in a source
/// that its owner names.
fn claimed_tests(manifest: &Value, source: &dyn Fn(&str) -> String) -> usize {
    let mut verified = 0_usize;
    for item in manifest["required_fixtures"].as_array().expect("items") {
        for owner in item["owners"].as_array().expect("owners") {
            let crate_name = owner["owner"].as_str().expect("an owner");
            let sources: Vec<String> = owner["sources"]
                .as_array()
                .expect("sources")
                .iter()
                .map(|path| {
                    let path = path.as_str().expect("a path");
                    assert!(path.starts_with(&format!("crates/{crate_name}/")));
                    source(path)
                })
                .collect();
            for test in owner["tests"].as_array().expect("tests") {
                let name = test.as_str().expect("a name");
                assert!(sources.iter().any(|source| declares_test(source, name)));
                verified += 1;
            }
        }
    }
    verified
}

#[test]
fn cc5_declared_test_names_exist_in_their_source_files() {
    let mut texts = vec![String::new(); CC5_TEST_SOURCES.len()];
    texts[0] = source_of(&CC5_MEDIA_TESTS);
    texts[1] = source_of(&CC5_ENGINE_TESTS);
    texts[2] = source_of(&CC5_COMPOSITOR_TESTS);
    let texts: Vec<&str> = texts.iter().map(String::as_str).collect();
    let fixtures = cc5_test_source(&texts, "crates/kinewright-media/src/cc5_fixtures.rs");
    let engine = cc5_test_source(&texts, "crates/kinewright-media/src/engine.rs");

    let mut expected_here = CC5_MEDIA_TESTS.map(str::to_owned).to_vec();
    expected_here.sort_unstable();
    let mut actual_here = declared_test_names(fixtures, "cc5_");
    actual_here.sort_unstable();
    assert_eq!(actual_here, expected_here);
    let mut expected_in_engine = CC5_ENGINE_TESTS.map(str::to_owned).to_vec();
    expected_in_engine.sort_unstable();
    let mut actual_in_engine = declared_test_names(engine, "cc5_");
    actual_in_engine.sort_unstable();
    assert_eq!(actual_in_engine, expected_in_engine);
    assert!(!engine.contains("fixture_gpu_or_skip"));
    for name in CC5_ENGINE_TESTS {
        assert!(name.starts_with("cc5_"));
    }

    let text = manifest_text(
        &[
            manifest_item(1, CC5_TEST_SOURCES[0], &CC5_MEDIA_TESTS),
            manifest_item(2, CC5_TEST_SOURCES[1], &CC5_ENGINE_TESTS),
            manifest_item(3, CC5_TEST_SOURCES[2], &CC5_COMPOSITOR_TESTS),
            manifest_item(4, CC5_TEST_SOURCES[0], &CC5_MEDIA_TESTS),
        ],
        CC5_INVENTORY_TESTS,
    );
    let manifest = cc6_manifest(&text).expect("the manifest is JSON");
    let mut verified = claimed_tests(&manifest, &|path| cc5_test_source(&texts, path).to_owned());
    for name in CC5_INVENTORY_TESTS {
        assert!(declares_test(fixtures, name));
        verified += 1;
    }
    assert_eq!(manifest["manifest_self_test"]["test"], CC5_INVENTORY_TESTS[0]);
    assert_eq!(manifest["manifest_self_test"]["inventory_test"], CC5_INVENTORY_TESTS[1]);
    assert!(verified >= 50);
}

#[test]
fn cc6_declared_test_names_exist_in_their_source_files() {
    let paths = CC6_TEST_SOURCES;
    let mut texts = vec![String::new(); paths.len()];
    texts[0] = source_of(&CC6_MEDIA_TESTS[..20]);
    texts[1] = source_of(&CC6_MEDIA_TESTS[20..22]);
    texts[2] = source_of(&CC6_MEDIA_TESTS[22..]);
    texts[3] = source_of(&CC6_EXPORT_TESTS);
    texts[4] = source_of(&CC6_CORE_TESTS);
    texts[5] = source_of(&CC6_AGENT_TESTS[..6]);
    texts[6] = source_of(&CC6_AGENT_TESTS[6..]);
    texts[7] = source_of(&CC6_APP_TESTS[..3]);
    texts[8] = source_of(&CC6_APP_TESTS[3..6]);
    texts[9] = source_of(&CC6_APP_TESTS[6..]);
    for name in CC6_INVENTORY_TESTS {
        if !declares_test(&texts[0], name) {
            for text in &mut texts[1..3] {
                *text = text.replace(&source_of(&[name]), "");
            }
            texts[0].push_str(&source_of(&[name]));
        }
    }
    let texts: Vec<&str> = texts.iter().map(String::as_str).collect();
    let source = |path: &str| cc6_test_source(&texts, path);

    let declared_in_media = sorted(
        CC6_MEDIA_TEST_SOURCES
            .into_iter()
            .flat_map(|path| declared_test_names(source(path), "cc6_"))
            .collect(),
    );
    assert_eq!(
        declared_in_media,
        sorted(CC6_MEDIA_TESTS.map(str::to_owned).to_vec())
    );
    for name in CC6_MEDIA_TESTS {
        assert!(name.starts_with("cc6_"));
    }
    let fixtures = source("crates/kinewright-media/src/cc6_fixtures.rs");
    for path in [
        "crates/kinewright-media/src/cc6_fixtures.rs",
        "crates/kinewright-media/src/export.rs",
        "crates/kinewright-media/src/verify.rs",
    ] {
        for needle in ["fixture_gpu_or_skip", "KINEWRIGHT_GPU_TESTS_MAY_SKIP"] {
            assert!(!uses_outside_prose(source(path), needle));
        }
    }
    for (path, expected) in [
        ("crates/kinewright-core/tests/cc6_core.rs", CC6_CORE_TESTS.to_vec()),
        ("crates/kinewright-media/src/export.rs", CC6_EXPORT_TESTS.to_vec()),
    ] {
        for name in &expected {
            assert!(declares_test(source(path), name));
        }
    }
    assert_eq!(
        sorted(declared_test_names(
            source("crates/kinewright-core/tests/cc6_core.rs"),
            "cc6_"
        )),
        sorted(CC6_CORE_TESTS.map(str::to_owned).to_vec())
    );
    for (sources, expected) in [
        (&paths[5..7], CC6_AGENT_TESTS.to_vec()),
        (&paths[7..10], CC6_APP_TESTS.to_vec()),
    ] {
        let declared = sorted(
            sources
                .iter()
                .flat_map(|path| declared_test_names(source(path), "cc6_"))
                .collect(),
        );
        assert_eq!(
            declared,
            sorted(expected.iter().map(|name| (*name).to_owned()).collect())
        );
    }

    let mut items = Vec::new();
    for number in 1..=24_usize {
        items.push(match number {
            16 | 18 => manifest_item(number, paths[5], &CC6_AGENT_TESTS[..6]),
            19..=21 => manifest_item(number, paths[7], &CC6_APP_TESTS[..3]),
            1..=5 | 9 | 12 | 15 | 17 => manifest_item(number, paths[4], &CC6_CORE_TESTS[..5]),
            _ => manifest_item(number, paths[3], &CC6_EXPORT_TESTS[..2]),
        });
    }
    let manifest =
        cc6_manifest(&manifest_text(&items, CC6_INVENTORY_TESTS)).expect("the manifest is JSON");
    let mut verified = claimed_tests(&manifest, &|path| source(path).to_owned());
    for name in CC6_INVENTORY_TESTS {
        assert!(declares_test(fixtures, name));
        verified += 1;
    }
    assert_eq!(manifest["manifest_self_test"]["test"], CC6_INVENTORY_TESTS[0]);
    assert_eq!(manifest["manifest_self_test"]["inventory_test"], CC6_INVENTORY_TESTS[1]);
    assert!(verified >= 45);
    let numbers: Vec<u64> = manifest["required_fixtures"]
        .as_array()
        .expect("items")
        .iter()
        .map(|entry| entry["item"].as_u64().expect("a numbered item"))
        .collect();
    assert_eq!(numbers, (1..=24).collect::<Vec<u64>>());
    for (item, owner) in [
        (1_u64, "kinewright-core"),
        (2, "kinewright-core"),
        (3, "kinewright-core"),
        (4, "kinewright-core"),
        (5, "kinewright-core"),
        (9, "kinewright-core"),
        (12, "kinewright-core"),
        (15, "kinewright-core"),
        (16, "kinewright-agent"),
        (17, "kinewright-core"),
        (18, "kinewright-agent"),
        (19, "kinewright-app"),
        (20, "kinewright-app"),
        (21, "kinewright-app"),
    ] {
        let entry = manifest["required_fixtures"]
            .as_array()
            .expect("items")
            .iter()
            .find(|entry| entry["item"] == item)
            .expect("the item");
        assert!(entry["owners"]
            .as_array()
            .expect("owners")
            .iter()
            .any(|declared| declared["owner"] == owner));
    }
}

#[test]
fn a_literal_of_several_lines_hides_no_comment() {
    assert!(!uses_outside_prose("def\"; // f()", "f"));
    assert!(!uses_outside_prose("let text = \"abc\ndef\"; // f()\n", "f"));
    assert!(!uses_outside_prose("let text = \"abc // f()\ndef\";\n", "f"));
    assert!(!uses_outside_prose("def\"; say(\"x\"); // f()\n", "f"));
    assert!(!uses_outside_prose("let path = r\"c:\\\"; // f()\n", "f"));
    assert!(uses_outside_prose("let text = \"abc\ndef\"; f();\n", "f"));
    assert!(uses_outside_prose("def\"; f(); // g()\n", "f"));
    assert!(!uses_outside_prose("def\"; f(); // g()\n", "g"));
}

#[test]
fn a_literal_of_several_lines_hides_no_declaration() {
    assert!(declares_test("#[test]\ndef\"; fn cc7_a() {}\n", "cc7_a"));
    assert!(!declares_test("#[test]\ndef\"; // fn cc7_a() {}\n", "cc7_a"));
    assert_eq!(
        declared_test_names("#[test]\ndef\"; fn cc7_a() {}\n", "cc7_"),
        vec!["cc7_a".to_string()]
    );
    let source = "let text = \"abc\ndef\"; fn cc7_a() {\n    f();\n}\n";
    assert_eq!(cc7_test_body(source, "cc7_a"), "def\"; fn cc7_a() {\n    f();\n}");
}
