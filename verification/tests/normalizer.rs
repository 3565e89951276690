use ide_discovery::product::get_product_info;

#[test]
fn known_prefixes_map_to_canonical_identity() {
    let cases = [
        ("IntelliJIdea2024.3", "IntelliJ IDEA", "idea"),
        ("WebStorm2024.3", "WebStorm", "webstorm"),
        ("RustRover2024.2", "RustRover", "rustrover"),
        ("CLion2023.1", "CLion", "clion"),
        ("PyCharm2024.3", "PyCharm", "pycharm"),
        ("GoLand2024.3", "GoLand", "goland"),
        ("PhpStorm2022.2", "PhpStorm", "phpstorm"),
        ("Rider2024.1", "Rider", "rider"),
        ("DataGrip2024.3", "DataGrip", "datagrip"),
    ];
    for (raw, display, code) in cases {
        let (d, c) = get_product_info(raw);
        assert_eq!(d, display);
        assert_eq!(c, code);
    }
}

#[test]
fn bare_prefix_matches_too() {
    let (d, c) = get_product_info("PyCharm");
    assert_eq!(d, "PyCharm");
    assert_eq!(c, "pycharm");
}

#[test]
fn unknown_name_is_kept_unchanged() {
    let (d, c) = get_product_info("Fleet1.0");
    assert_eq!(d, "Fleet1.0");
    assert_eq!(c, "Fleet1.0");
}

#[test]
fn unknown_mixed_case_name_is_not_lowercased() {
    let (d, c) = get_product_info("SomeTool2024");
    assert_eq!(d, "SomeTool2024");
    assert_eq!(c, "SomeTool2024");
}

#[test]
fn matching_is_case_sensitive() {
    let (d, c) = get_product_info("intellijidea2024.3");
    assert_eq!(d, "intellijidea2024.3");
    assert_eq!(c, "intellijidea2024.3");
}

#[test]
fn empty_name_maps_to_itself() {
    let (d, c) = get_product_info("");
    assert_eq!(d, "");
    assert_eq!(c, "");
}
