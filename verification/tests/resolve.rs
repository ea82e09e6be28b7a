use file_resolver::{FileResolver, Platform};

fn listing(paths: &[&str]) -> Vec<String> {
    paths.iter().map(|p| p.to_string()).collect()
}

#[test]
fn first_search_path_wins() {
    let mut resolver = FileResolver::default();
    resolver.add_path("first").add_path("second");
    let files = listing(&["second/widget.js", "first/widget.js"]);
    let found = resolver.resolve(&files, "main.js", "widget");
    assert_eq!(found.unwrap(), "first/widget.js");
}

#[test]
fn later_search_path_is_used_when_earlier_has_no_file() {
    let mut resolver = FileResolver::default();
    resolver.add_path("first").add_path("second");
    let files = listing(&["second/widget.js"]);
    let found = resolver.resolve(&files, "main.js", "widget");
    assert_eq!(found.unwrap(), "second/widget.js");
}

#[test]
fn first_pattern_wins_when_both_files_exist() {
    let mut resolver = FileResolver::default();
    resolver.add_path("mods").add_pattern("{}.node");
    let files = listing(&["mods/widget.node", "mods/widget.js"]);
    let found = resolver.resolve(&files, "main.js", "widget");
    assert_eq!(found.unwrap(), "mods/widget.js");
}

#[test]
fn later_pattern_is_used_when_only_its_file_exists() {
    let mut resolver = FileResolver::default();
    resolver.add_path("mods").add_pattern("{}.node");
    let files = listing(&["mods/widget.node"]);
    let found = resolver.resolve(&files, "main.js", "widget");
    assert_eq!(found.unwrap(), "mods/widget.node");
}

#[test]
fn pattern_order_beats_search_path_order_only_within_one_path() {
    let mut resolver = FileResolver::default();
    resolver.add_path("first").add_path("second").add_pattern("{}.node");
    let files = listing(&["first/widget.node", "second/widget.js"]);
    let found = resolver.resolve(&files, "main.js", "widget");
    assert_eq!(found.unwrap(), "first/widget.node");
}

#[test]
fn relative_name_is_sought_beside_the_base() {
    let resolver = FileResolver::default();
    let files = listing(&["src/util.js"]);
    let found = resolver.resolve(&files, "src/main.js", "./util");
    assert_eq!(found.unwrap(), "src/util.js");
}

#[test]
fn relative_name_fails_without_the_file() {
    let resolver = FileResolver::default();
    let files = listing(&["lib/util.js", "util.js"]);
    let error = resolver.resolve(&files, "src/main.js", "./util").unwrap_err();
    assert_eq!(error.base, "src/main.js");
    assert_eq!(error.name, "./util");
}

#[test]
fn relative_name_ignores_search_paths() {
    let mut resolver = FileResolver::default();
    resolver.add_path("lib");
    let files = listing(&["lib/util.js"]);
    assert!(resolver.resolve(&files, "src/main.js", "./util").is_err());
}

#[test]
fn relative_name_may_climb() {
    let resolver = FileResolver::default();
    let files = listing(&["src/shared/util.js"]);
    let found = resolver.resolve(&files, "src/app/main.js", "../shared/util");
    assert_eq!(found.unwrap(), "src/shared/util.js");
}

#[test]
fn unknown_extension_fails_even_if_file_exists() {
    let resolver = FileResolver::default();
    let files = listing(&["src/data.json", "src/data.json.js"]);
    let error = resolver.resolve(&files, "src/main.js", "./data.json").unwrap_err();
    assert_eq!(error.base, "src/main.js");
    assert_eq!(error.name, "./data.json");
}

#[test]
fn known_extension_resolves_to_the_path_itself() {
    let resolver = FileResolver::default();
    let files = listing(&["src/util.js"]);
    let found = resolver.resolve(&files, "src/main.js", "./util.js");
    assert_eq!(found.unwrap(), "src/util.js");
}

#[test]
fn known_extension_fails_without_the_file() {
    let resolver = FileResolver::default();
    let files = listing(&["src/util.js.js"]);
    assert!(resolver.resolve(&files, "src/main.js", "./util.js").is_err());
}

#[test]
fn bare_name_with_known_extension_is_sought_below_each_path() {
    let mut resolver = FileResolver::default();
    resolver.add_path("first").add_path("second");
    let files = listing(&["second/widget.js"]);
    let found = resolver.resolve(&files, "main.js", "widget.js");
    assert_eq!(found.unwrap(), "second/widget.js");
}

#[test]
fn base_without_parent_uses_the_name_itself() {
    let resolver = FileResolver::default();
    assert_eq!(resolver.candidates("", "./util"), vec!["./util".to_string()]);
    let files = listing(&["./util.js"]);
    let found = resolver.resolve(&files, "", "./util");
    assert_eq!(found.unwrap(), "./util.js");
}

#[test]
fn base_that_is_a_file_name_has_the_empty_parent() {
    let resolver = FileResolver::default();
    assert_eq!(resolver.candidates("main.js", "./util"), vec!["util".to_string()]);
    let files = listing(&["util.js"]);
    let found = resolver.resolve(&files, "main.js", "./util");
    assert_eq!(found.unwrap(), "util.js");
}

#[test]
fn bare_name_without_search_paths_fails() {
    let resolver = FileResolver::default();
    let files = listing(&["widget.js"]);
    let error = resolver.resolve(&files, "main.js", "widget").unwrap_err();
    assert_eq!(error.base, "main.js");
    assert_eq!(error.name, "widget");
}

#[test]
fn empty_name_counts_as_bare() {
    let mut resolver = FileResolver::default();
    resolver.add_path("lib");
    assert_eq!(resolver.candidates("main.js", ""), vec!["lib".to_string()]);
    let files = listing(&["lib.js"]);
    assert_eq!(resolver.resolve(&files, "main.js", "").unwrap(), "lib.js");
}

#[test]
fn path_without_file_name_has_no_trials() {
    let resolver = FileResolver::default();
    assert!(resolver.try_patterns("").is_empty());
    assert!(resolver.try_patterns("..").is_empty());
    let files = listing(&[".js", "../.js"]);
    assert!(resolver.resolve(&files, "src/main.js", "..").is_err());
}

#[test]
fn default_has_the_script_pattern_alone() {
    let resolver = FileResolver::default();
    assert_eq!(resolver.try_patterns("lib/widget"), vec!["lib/widget.js".to_string()]);
    assert!(resolver.candidates("main.js", "widget").is_empty());
}

#[test]
fn candidates_are_joined_and_normalised() {
    let mut resolver = FileResolver::default();
    resolver.add_path("a/b").add_path("./c/");
    assert_eq!(
        resolver.candidates("main.js", "x/../widget"),
        vec!["a/b/widget".to_string(), "c/widget".to_string()]
    );
    assert_eq!(resolver.candidates("src/deep/main.js", "../x"), vec!["src/x".to_string()]);
}

#[test]
fn placeholder_is_replaced_wherever_it_stands() {
    let mut resolver = FileResolver::default();
    resolver.add_pattern("lib{}.so").add_pattern("{}/{}.js").add_pattern("index.js");
    assert_eq!(
        resolver.try_patterns("mods/widget"),
        vec![
            "mods/widget.js".to_string(),
            "mods/libwidget.so".to_string(),
            "mods/widget/widget.js".to_string(),
            "mods/index.js".to_string(),
        ]
    );
}

#[test]
fn try_patterns_keeps_a_path_with_a_known_extension() {
    let mut resolver = FileResolver::default();
    resolver.add_pattern("{}.node");
    assert_eq!(resolver.try_patterns("mods/widget.node"), vec!["mods/widget.node".to_string()]);
    assert_eq!(resolver.try_patterns("mods/widget.js"), vec!["mods/widget.js".to_string()]);
    assert!(resolver.try_patterns("mods/widget.so").is_empty());
}

#[test]
fn add_native_appends_unix_templates() {
    let mut resolver = FileResolver::default();
    resolver.add_native(Platform::Unix);
    assert_eq!(
        resolver.try_patterns("mods/widget"),
        vec![
            "mods/widget.js".to_string(),
            "mods/widget.so".to_string(),
            "mods/libwidget.so".to_string(),
        ]
    );
}

#[test]
fn add_native_appends_apple_templates() {
    let mut resolver = FileResolver::default();
    resolver.add_native(Platform::Apple);
    assert_eq!(
        resolver.try_patterns("mods/widget"),
        vec![
            "mods/widget.js".to_string(),
            "mods/widget.dylib".to_string(),
            "mods/libwidget.dylib".to_string(),
        ]
    );
}

#[test]
fn add_native_appends_windows_template() {
    let mut resolver = FileResolver::default();
    resolver.add_native(Platform::Windows);
    assert_eq!(
        resolver.try_patterns("mods/widget"),
        vec!["mods/widget.js".to_string(), "mods/widget.dll".to_string()]
    );
}

#[test]
fn add_native_twice_duplicates() {
    let mut resolver = FileResolver::default();
    resolver.add_native(Platform::Windows).add_native(Platform::Windows);
    assert_eq!(
        resolver.try_patterns("widget"),
        vec!["widget.js".to_string(), "widget.dll".to_string(), "widget.dll".to_string()]
    );
}

#[test]
fn native_patterns_take_part_in_resolution() {
    let mut resolver = FileResolver::default();
    resolver.add_path("mods").add_native(Platform::Unix);
    let files = listing(&["mods/libwidget.so"]);
    assert_eq!(resolver.resolve(&files, "main.js", "widget").unwrap(), "mods/libwidget.so");
    let both = listing(&["mods/libwidget.so", "mods/widget.so"]);
    assert_eq!(resolver.resolve(&both, "main.js", "widget").unwrap(), "mods/widget.so");
    let named = listing(&["mods/widget.so"]);
    assert_eq!(resolver.resolve(&named, "main.js", "widget.so").unwrap(), "mods/widget.so");
}

#[test]
fn built_copy_is_independent() {
    let mut source = FileResolver::default();
    source.add_path("first");
    let copy = source.build();
    source.add_path("second").add_pattern("{}.node");
    let files = listing(&["second/widget.js", "first/widget.node"]);
    assert!(copy.resolve(&files, "main.js", "widget").is_err());
    assert_eq!(source.resolve(&files, "main.js", "widget").unwrap(), "first/widget.node");
    assert_eq!(copy.candidates("main.js", "widget"), vec!["first".to_string() + "/widget"]);
}

#[test]
fn built_copy_resolves_as_the_source() {
    let mut source = FileResolver::default();
    source.add_path("first").add_native(Platform::Unix);
    let copy = source.build();
    let files = listing(&["first/libwidget.so"]);
    assert_eq!(
        copy.resolve(&files, "main.js", "widget").unwrap(),
        source.resolve(&files, "main.js", "widget").unwrap()
    );
}
