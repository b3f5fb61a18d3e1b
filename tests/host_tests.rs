use ironcore::error::IronCoreError;
use ironcore::hresult::HRESULT;
use ironcore::host::{
    prepare_delegate, prepare_execute, prepare_initialize, property_keys, property_values,
    HostSession, COMPAT_SWITCH_VALUE, DOMAIN_FRIENDLY_NAME,
};

fn with_zero(text: &str) -> Vec<u8> {
    let mut v = text.as_bytes().to_vec();
    v.push(0);
    v
}

#[test]
fn property_lists_line_up() {
    let keys = property_keys();
    let values = property_values("tpa", "app", "ni", "native");
    assert_eq!(
        keys,
        vec![
            "TRUSTED_PLATFORM_ASSEMBLIES",
            "APP_PATHS",
            "APP_NI_PATHS",
            "NATIVE_DLL_SEARCH_DIRECTORIES",
            "AppDomainCompatSwitch"
        ]
    );
    assert_eq!(values, vec!["tpa", "app", "ni", "native", COMPAT_SWITCH_VALUE]);
    assert_eq!(COMPAT_SWITCH_VALUE, "UseLatestBehaviorWhenTFMNotSpecified");
}

#[test]
fn initialize_request_holds_all_buffers() {
    let req = prepare_initialize(Some("/bin/host"), "/rt/a.dll", "/cwd", "/cwd", "/cwd").unwrap();
    assert_eq!(req.exe_path, with_zero("/bin/host"));
    assert_eq!(req.friendly_name, with_zero(DOMAIN_FRIENDLY_NAME));
    assert_eq!(req.property_keys.len(), 5);
    assert_eq!(req.property_keys[0], with_zero("TRUSTED_PLATFORM_ASSEMBLIES"));
    assert_eq!(req.property_keys[4], with_zero("AppDomainCompatSwitch"));
    assert_eq!(req.property_values.len(), 5);
    assert_eq!(req.property_values[0], with_zero("/rt/a.dll"));
    assert_eq!(req.property_values[3], with_zero("/cwd"));
    assert_eq!(req.property_values[4], with_zero(COMPAT_SWITCH_VALUE));
}

#[test]
fn initialize_without_exe_path_is_invalid() {
    let r = prepare_initialize(None, "", "", "", "");
    assert!(matches!(r, Err(IronCoreError::InvalidExePath)));
}

#[test]
fn initialize_with_zero_byte_fails() {
    let r = prepare_initialize(Some("/bin/host"), "", "a\0b", "", "");
    assert!(matches!(r, Err(IronCoreError::NulError(_))));
    let r = prepare_initialize(Some("/bin/\0host"), "", "", "", "");
    assert!(matches!(r, Err(IronCoreError::NulError(_))));
}

#[test]
fn execute_request_marshals_path_and_args() {
    let req = prepare_execute("app.dll", vec!["x", "yz"]).unwrap();
    assert_eq!(req.assembly, with_zero("app.dll"));
    assert_eq!(req.args, vec![with_zero("x"), with_zero("yz")]);
    let empty = prepare_execute("app.dll", Vec::new()).unwrap();
    assert!(empty.args.is_empty());
    assert!(matches!(prepare_execute("a\0", Vec::new()), Err(IronCoreError::NulError(_))));
    assert!(matches!(prepare_execute("a", vec!["\0"]), Err(IronCoreError::NulError(_))));
}

#[test]
fn delegate_request_checks_each_name() {
    let req = prepare_delegate("asm", "Ns.Type", "Main").unwrap();
    assert_eq!(req.assembly_name, with_zero("asm"));
    assert_eq!(req.class_name, with_zero("Ns.Type"));
    assert_eq!(req.method_name, with_zero("Main"));
    assert!(prepare_delegate("\0", "t", "m").is_err());
    assert!(prepare_delegate("a", "t\0", "m").is_err());
    assert!(prepare_delegate("a", "t", "\0m").is_err());
}

#[test]
fn failed_initialize_never_goes_live() {
    let mut s = HostSession::new();
    assert!(!s.is_live());
    match s.on_initialized(0x8007_0002, 3) {
        Err(IronCoreError::HresultError(h)) => assert_eq!(h, HRESULT::FileNotFound),
        other => panic!("unexpected {:?}", other),
    }
    assert!(!s.is_live());
    assert!(!s.on_release());
    assert!(!s.on_release());
}

#[test]
fn shutdown_once_after_failed_call() {
    let mut s = HostSession::new();
    s.on_initialized(0, 7).unwrap();
    assert!(s.is_live());
    assert_eq!(s.domain_id(), 7);
    assert!(s.on_executed(0x8013_1524, 0).is_err());
    assert!(s.on_delegate_created(0x8013_1523).is_err());
    assert!(s.is_live());
    assert!(s.on_release());
    assert!(!s.is_live());
    assert!(!s.on_release());
}

#[test]
fn execute_then_missing_assembly_keeps_instance() {
    let mut s = HostSession::new();
    s.on_initialized(0, 1).unwrap();
    assert_eq!(s.on_executed(0, 0).unwrap(), 0);
    assert_eq!(s.on_executed(0, 42).unwrap(), 42);
    match s.on_executed(0x8013_1524, 0) {
        Err(IronCoreError::HresultError(h)) => {
            assert_eq!(h, HRESULT::CorEDLLNotFound);
            assert!(h.failed());
        }
        other => panic!("unexpected {:?}", other),
    }
    assert!(s.is_live());
    assert_eq!(s.on_executed(0, 3).unwrap(), 3);
    assert!(s.on_delegate_created(0).is_ok());
    assert!(s.on_release());
}
