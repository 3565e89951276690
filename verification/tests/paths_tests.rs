use ide_discovery::paths::{
    choose_install_dir, find_ide_config_dir, install_dir_candidates, instance_logs_dir,
    log_marker_path, logs_root_path, vmoptions_file_path, Platform,
};

#[test]
fn logs_root_follows_platform_convention() {
    assert_eq!(
        logs_root_path(Platform::MacOs, Some("/Users/u"), None),
        Some("/Users/u/Library/Logs/JetBrains".to_string())
    );
    assert_eq!(
        logs_root_path(Platform::Windows, None, Some("C:/Users/u/AppData/Local")),
        Some("C:/Users/u/AppData/Local/JetBrains".to_string())
    );
    assert_eq!(
        logs_root_path(Platform::Linux, Some("/home/u"), None),
        Some("/home/u/.cache/JetBrains".to_string())
    );
}

#[test]
fn logs_root_is_absent_without_its_source() {
    assert_eq!(logs_root_path(Platform::MacOs, None, Some("ignored")), None);
    assert_eq!(logs_root_path(Platform::Windows, Some("/home/u"), None), None);
    assert_eq!(logs_root_path(Platform::Linux, None, None), None);
}

#[test]
fn config_dir_uses_raw_name() {
    assert_eq!(
        find_ide_config_dir(Platform::MacOs, Some("/Users/u"), "IntelliJIdea2024.3"),
        "/Users/u/Library/Application Support/JetBrains/IntelliJIdea2024.3"
    );
    assert_eq!(
        find_ide_config_dir(Platform::Windows, None, "GoLand2024.3"),
        "%APPDATA%/JetBrains/GoLand2024.3"
    );
    assert_eq!(
        find_ide_config_dir(Platform::Linux, Some("/home/u"), "IntelliJIdea2024.3"),
        "/home/u/.config/JetBrains/IntelliJIdea2024.3"
    );
}

#[test]
fn install_candidates_follow_platform_rules() {
    let mac = install_dir_candidates(Platform::MacOs, Some("/Users/u"), "IntelliJ IDEA");
    assert_eq!(
        mac,
        vec![
            "/Applications/IntelliJ IDEA.app".to_string(),
            "/Users/u/Applications/IntelliJ IDEA.app".to_string(),
        ]
    );
    let win = install_dir_candidates(Platform::Windows, None, "GoLand");
    assert_eq!(win, vec!["C:\\Program Files\\JetBrains\\GoLand".to_string()]);
    let linux = install_dir_candidates(Platform::Linux, None, "IntelliJ IDEA");
    assert_eq!(linux, vec!["/opt/jetbrains/IntelliJ IDEA".to_string()]);
}

#[test]
fn bundle_suffix_is_not_doubled() {
    let mac = install_dir_candidates(Platform::MacOs, None, "Thing.app");
    assert_eq!(
        mac,
        vec![
            "/Applications/Thing.app".to_string(),
            "/Applications/Thing.app".to_string(),
        ]
    );
}

#[test]
fn first_existing_install_candidate_wins() {
    let cands = vec!["/a".to_string(), "/b".to_string()];
    assert_eq!(choose_install_dir(&cands, &vec![true, true]), "/a");
    assert_eq!(choose_install_dir(&cands, &vec![false, true]), "/b");
    assert_eq!(choose_install_dir(&cands, &vec![true, false]), "/a");
}

#[test]
fn absent_everywhere_falls_back_to_first_candidate() {
    let cands = vec!["/a".to_string(), "/b".to_string()];
    assert_eq!(choose_install_dir(&cands, &vec![false, false]), "/a");
}

#[test]
fn logs_dir_is_versioned_dir_on_macos_and_log_subdir_elsewhere() {
    assert_eq!(
        instance_logs_dir(Platform::MacOs, "/root/logs", "IntelliJIdea2024.3"),
        "/root/logs/IntelliJIdea2024.3"
    );
    assert_eq!(
        instance_logs_dir(Platform::Linux, "/root/logs", "IntelliJIdea2024.3"),
        "/root/logs/IntelliJIdea2024.3/log"
    );
    assert_eq!(
        instance_logs_dir(Platform::Windows, "/root/logs", "IntelliJIdea2024.3"),
        "/root/logs/IntelliJIdea2024.3/log"
    );
}

#[test]
fn vmoptions_file_is_named_by_short_code() {
    assert_eq!(
        vmoptions_file_path("/home/u/.config/JetBrains/IntelliJIdea2024.3", "idea"),
        "/home/u/.config/JetBrains/IntelliJIdea2024.3/idea.vmoptions"
    );
}

#[test]
fn log_marker_is_idea_log() {
    assert_eq!(log_marker_path("/x/log"), "/x/log/idea.log");
}

#[test]
fn environment_logs_root_follows_linux_rule_when_home_known() {
    match ide_discovery::paths::get_jetbrains_base_path(Platform::Linux, None) {
        Some(p) => assert!(p.ends_with("/.cache/JetBrains")),
        None => {}
    }
}
