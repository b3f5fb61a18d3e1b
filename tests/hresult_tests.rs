use ironcore::error::IronCoreError;
use ironcore::hresult::HRESULT;

#[test]
fn zero_is_success() {
    let h = HRESULT::from(0u32);
    assert_eq!(h, HRESULT::Success);
    assert!(h.succeeded());
    assert!(!h.failed());
}

#[test]
fn named_codes_translate_and_fail() {
    let cases = [
        (0x8007_0002u32, HRESULT::FileNotFound),
        (0x8013_1522u32, HRESULT::CorETypeLoad),
        (0x8013_1523u32, HRESULT::CorEEntryPointNotFound),
        (0x8013_1524u32, HRESULT::CorEDLLNotFound),
    ];
    for (code, expected) in cases {
        let h = HRESULT::from(code);
        assert_eq!(h, expected);
        assert!(h.failed());
        assert!(!h.succeeded());
    }
}

#[test]
fn unknown_code_with_high_bit_fails() {
    let h = HRESULT::from(0x8000_4005u32);
    assert_eq!(h, HRESULT::Unknown(0x8000_4005));
    assert!(h.failed());
    assert!(!h.succeeded());
    let top = HRESULT::from(0xFFFF_FFFFu32);
    assert_eq!(top, HRESULT::Unknown(0xFFFF_FFFF));
    assert!(top.failed());
}

#[test]
fn unknown_code_without_high_bit_succeeds() {
    let h = HRESULT::from(1u32);
    assert_eq!(h, HRESULT::Unknown(1));
    assert!(h.succeeded());
    assert!(!h.failed());
    let edge = HRESULT::from(0x7FFF_FFFFu32);
    assert!(edge.succeeded());
}

#[test]
fn check_passes_success_and_carries_failure() {
    assert!(HRESULT::from(0u32).check().is_ok());
    assert!(HRESULT::Unknown(5).check().is_ok());
    match HRESULT::from(0x8007_0002u32).check() {
        Err(IronCoreError::HresultError(h)) => assert_eq!(h, HRESULT::FileNotFound),
        other => panic!("unexpected {:?}", other),
    }
    match HRESULT::Unknown(0x8000_0000).check() {
        Err(IronCoreError::HresultError(h)) => assert_eq!(h, HRESULT::Unknown(0x8000_0000)),
        other => panic!("unexpected {:?}", other),
    }
}
