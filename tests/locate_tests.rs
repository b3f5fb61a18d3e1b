use ironcore::error::IronCoreError;
use ironcore::locate::{
    get_runtime_dir, get_runtime_path, get_trusted_assemblies, join_assemblies, load_coreclr_library,
};

#[test]
fn runtime_dir_for_version() {
    assert_eq!(get_runtime_dir("7.0.0"), "/usr/share/dotnet/shared/Microsoft.NETCore.App/7.0.0");
    assert_eq!(get_runtime_dir("7.0.0"), get_runtime_dir("7.0.0"));
    assert_ne!(get_runtime_dir("7.0.0"), get_runtime_dir("6.0.0"));
}

#[test]
fn runtime_path_for_version() {
    assert_eq!(
        get_runtime_path("7.0.0"),
        "/usr/share/dotnet/shared/Microsoft.NETCore.App/7.0.0/libcoreclr.so"
    );
}

#[test]
fn trusted_list_keeps_only_dll_files() {
    let dir = "/rt/7.0.0";
    let entries = vec![
        format!("{}/a.dll", dir),
        format!("{}/notes.txt", dir),
        format!("{}/b.dll", dir),
    ];
    let list = get_trusted_assemblies(&entries);
    assert_eq!(list, "/rt/7.0.0/a.dll;/rt/7.0.0/b.dll");
    assert!(!list.starts_with(';'));
    assert!(!list.ends_with(';'));
    assert!(!list.contains("notes.txt"));
}

#[test]
fn trusted_list_in_enumeration_order() {
    let entries = vec!["/d/notes.txt".to_string(), "/d/b.dll".to_string(), "/d/a.dll".to_string()];
    assert_eq!(get_trusted_assemblies(&entries), "/d/b.dll;/d/a.dll");
}

#[test]
fn trusted_list_extension_rules() {
    let entries = vec![
        "/d/.dll".to_string(),
        "/d/x.dll.bak".to_string(),
        "/d/y.DLL".to_string(),
        "/d/lib.so".to_string(),
        "/d/one.two.dll".to_string(),
    ];
    assert_eq!(get_trusted_assemblies(&entries), "/d/one.two.dll");
}

#[test]
fn trusted_list_of_empty_directory() {
    assert_eq!(get_trusted_assemblies(&Vec::new()), "");
    assert_eq!(get_trusted_assemblies(&vec!["/d/readme".to_string()]), "");
}

#[test]
fn missing_runtime_fails_to_load() {
    match load_coreclr_library("0.0.0-not-installed") {
        Err(IronCoreError::LibError(_)) => {}
        Err(other) => panic!("unexpected {:?}", other),
        Ok(_) => panic!("a runtime that does not exist was loaded"),
    }
}

#[test]
fn join_uses_given_extensions() {
    let entries = vec!["p".to_string(), "q".to_string(), "r".to_string(), "s".to_string()];
    let exts = vec![
        Some("dll".to_string()),
        None,
        Some("txt".to_string()),
        Some("dll".to_string()),
    ];
    assert_eq!(join_assemblies(&entries, &exts), "p;s");
}

#[test]
fn join_leaves_out_entries_without_extension() {
    let entries = vec!["p".to_string(), "q".to_string(), "r".to_string()];
    let exts = vec![None, Some("dll".to_string())];
    assert_eq!(join_assemblies(&entries, &exts), "q");
    assert_eq!(join_assemblies(&entries, &Vec::new()), "");
}
