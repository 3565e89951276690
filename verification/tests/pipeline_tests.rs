use ide_discovery::instance::{resolve_all, resolve_instance, CandidateObservation, InstalledInstance};
use ide_discovery::numbers::u16_to_string;
use ide_discovery::paths::Platform;
use ide_discovery::query::{get_by_name, list_instances};
use ide_discovery::render::{render_config_text, render_list_text};

fn linux_instance(name: &str, vmoptions: Option<&str>, port_file: Option<&str>) -> InstalledInstance {
    resolve_instance(
        Platform::Linux,
        Some("/home/u"),
        "/home/u/.cache/JetBrains",
        name,
        &vec![false],
        vmoptions,
        port_file,
    )
}

#[test]
fn resolver_populates_every_field() {
    let inst = linux_instance(
        "IntelliJIdea2024.3",
        Some("-Xmx2g\n-Dtoolbox.notification.portFile=/tmp/p\n"),
        Some("63342\n"),
    );
    assert_eq!(inst.name, "IntelliJIdea2024.3");
    assert_eq!(inst.logs_dir, "/home/u/.cache/JetBrains/IntelliJIdea2024.3/log");
    assert_eq!(inst.install_dir, "/opt/jetbrains/IntelliJ IDEA");
    assert_eq!(inst.config_dir, "/home/u/.config/JetBrains/IntelliJIdea2024.3");
    assert_eq!(
        inst.vm_options,
        Some(vec![
            "-Xmx2g".to_string(),
            "-Dtoolbox.notification.portFile=/tmp/p".to_string(),
        ])
    );
    assert_eq!(inst.notification_port, Some(63342));
}

#[test]
fn resolver_on_macos_uses_bundle_and_flat_logs_dir() {
    let inst = resolve_instance(
        Platform::MacOs,
        Some("/Users/u"),
        "/Users/u/Library/Logs/JetBrains",
        "GoLand2024.3",
        &vec![false, true],
        None,
        None,
    );
    assert_eq!(inst.logs_dir, "/Users/u/Library/Logs/JetBrains/GoLand2024.3");
    assert_eq!(inst.install_dir, "/Users/u/Applications/GoLand.app");
    assert_eq!(inst.vm_options, None);
    assert_eq!(inst.notification_port, None);
}

#[test]
fn missing_vmoptions_means_no_port() {
    let inst = linux_instance("CLion2023.1", None, Some("63342"));
    assert_eq!(inst.vm_options, None);
    assert_eq!(inst.notification_port, None);
}

#[test]
fn missing_directive_means_no_port() {
    let inst = linux_instance("CLion2023.1", Some("-Xmx2g\n"), Some("63342"));
    assert_eq!(inst.vm_options, Some(vec!["-Xmx2g".to_string()]));
    assert_eq!(inst.notification_port, None);
}

#[test]
fn unreadable_port_file_means_no_port() {
    let inst = linux_instance(
        "CLion2023.1",
        Some("-Dtoolbox.notification.portFile=/tmp/p\n"),
        None,
    );
    assert_eq!(inst.notification_port, None);
}

#[test]
fn unparsable_port_content_means_no_port() {
    let inst = linux_instance(
        "CLion2023.1",
        Some("-Dtoolbox.notification.portFile=/tmp/p\n"),
        Some("not a port"),
    );
    assert_eq!(inst.notification_port, None);
}

#[test]
fn empty_candidate_list_resolves_to_empty_scan() {
    let observations: Vec<CandidateObservation> = Vec::new();
    let instances = resolve_all(Platform::Linux, Some("/home/u"), "/home/u/.cache/JetBrains", &observations);
    assert!(instances.is_empty());
}

#[test]
fn scan_keeps_one_record_per_candidate_in_order() {
    let observations = vec![
        CandidateObservation {
            name: "IntelliJIdea2024.3".to_string(),
            install_exists: vec![true],
            vmoptions_content: Some("-Xmx2g\n".to_string()),
            port_file_content: None,
        },
        CandidateObservation {
            name: "GoLand2024.3".to_string(),
            install_exists: vec![false],
            vmoptions_content: None,
            port_file_content: None,
        },
    ];
    let instances = resolve_all(
        Platform::Linux,
        Some("/home/u"),
        "/home/u/.cache/JetBrains",
        &observations,
    );
    assert_eq!(instances.len(), 2);
    assert_eq!(instances[0].name, "IntelliJIdea2024.3");
    assert_eq!(instances[1].name, "GoLand2024.3");
}

#[test]
fn default_listing_is_subset_of_verbose_listing() {
    let a = linux_instance("IntelliJIdea2024.3", None, None);
    let b = linux_instance("GoLand2024.3", None, None);
    let has_log = vec![true, false];
    let verbose = list_instances(vec![a.clone(), b.clone()], true, &has_log);
    let filtered = list_instances(vec![a, b], false, &has_log);
    assert_eq!(verbose.len(), 2);
    assert_eq!(filtered.len(), 1);
    assert_eq!(filtered[0].name, verbose[0].name);
    assert_eq!(filtered[0].name, "IntelliJIdea2024.3");
}

#[test]
fn listing_keeps_scan_order() {
    let a = linux_instance("Rider2024.1", None, None);
    let b = linux_instance("CLion2023.1", None, None);
    let c = linux_instance("DataGrip2024.3", None, None);
    let kept = list_instances(vec![a, b, c], false, &vec![true, false, true]);
    assert_eq!(kept.len(), 2);
    assert_eq!(kept[0].name, "Rider2024.1");
    assert_eq!(kept[1].name, "DataGrip2024.3");
}

#[test]
fn lookup_finds_exact_name_only() {
    let instances = vec![linux_instance("IntelliJIdea2024.3", None, None)];
    assert!(get_by_name(&instances, "IntelliJIdea2024.3").is_some());
    assert!(get_by_name(&instances, "GoLand2024.3").is_none());
    assert!(get_by_name(&instances, "intellijidea2024.3").is_none());
    assert!(get_by_name(&instances, "IntelliJIdea2024.3 ").is_none());
    assert!(get_by_name(&instances, " IntelliJIdea2024.3").is_none());
}

#[test]
fn lookup_is_idempotent() {
    let instances = vec![
        linux_instance("IntelliJIdea2024.3", None, None),
        linux_instance("GoLand2024.3", None, None),
    ];
    let found = get_by_name(&instances, "GoLand2024.3").unwrap();
    let again = get_by_name(&instances, found.name.as_str()).unwrap();
    assert_eq!(again.name, found.name);
    assert_eq!(again.install_dir, found.install_dir);
}

#[test]
fn empty_listing_renders_not_found_line() {
    let none: Vec<InstalledInstance> = Vec::new();
    assert_eq!(render_list_text(&none), "No JetBrains IDEs found\n");
}

#[test]
fn listing_renders_name_and_install_path() {
    let inst = linux_instance("IntelliJIdea2024.3", None, None);
    let text = render_list_text(&vec![inst]);
    assert_eq!(
        text,
        "Found JetBrains IDEs:\nIntelliJIdea2024.3: /opt/jetbrains/IntelliJ IDEA\n"
    );
}

#[test]
fn config_view_renders_full_block() {
    let inst = linux_instance(
        "IntelliJIdea2024.3",
        Some("-Xmx2g\n-Dtoolbox.notification.portFile=/tmp/p\n"),
        Some("63342\n"),
    );
    let text = render_config_text(&inst);
    let expected = "Configuration for IntelliJIdea2024.3:\n  Install directory: /opt/jetbrains/IntelliJ IDEA\n  Config directory: /home/u/.config/JetBrains/IntelliJIdea2024.3\n  Logs directory: /home/u/.cache/JetBrains/IntelliJIdea2024.3/log\n  VM Options:\n    -Xmx2g\n    -Dtoolbox.notification.portFile=/tmp/p\n  Port: 63342\n";
    assert_eq!(text, expected);
}

#[test]
fn config_view_renders_not_found_markers() {
    let inst = linux_instance("CLion2023.1", None, None);
    let text = render_config_text(&inst);
    assert!(text.contains("  VM Options: Not found\n"));
    assert!(text.contains("  Port: Not found\n"));
}

#[test]
fn port_renders_in_decimal() {
    assert_eq!(u16_to_string(0), "0");
    assert_eq!(u16_to_string(7), "7");
    assert_eq!(u16_to_string(63342), "63342");
    assert_eq!(u16_to_string(65535), "65535");
}
