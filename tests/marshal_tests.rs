use ironcore::error::IronCoreError;
use ironcore::marshal::{to_c_string, vec2cstring};

fn read_back(buf: &[u8]) -> Vec<u8> {
    buf.iter().take_while(|b| **b != 0).copied().collect()
}

#[test]
fn text_gets_terminating_zero() {
    let b = to_c_string("abc").unwrap();
    assert_eq!(b, vec![b'a', b'b', b'c', 0]);
    assert_eq!(to_c_string("").unwrap(), vec![0]);
}

#[test]
fn multibyte_text_keeps_its_bytes() {
    let b = to_c_string("é").unwrap();
    assert_eq!(b, vec![0xC3, 0xA9, 0]);
}

#[test]
fn embedded_zero_is_rejected_with_position() {
    let e = to_c_string("ab\0cd").unwrap_err();
    assert_eq!(e.nul_position(), 2);
    assert_eq!(e.into_vec(), b"ab\0cd".to_vec());
}

#[test]
fn list_round_trips() {
    let input = vec!["one", "", "three;four", "/usr/lib"];
    let bufs = vec2cstring(input.clone()).unwrap();
    assert_eq!(bufs.len(), input.len());
    for (buf, text) in bufs.iter().zip(input.iter()) {
        assert_eq!(read_back(buf), text.as_bytes().to_vec());
        assert_eq!(*buf.last().unwrap(), 0);
    }
}

#[test]
fn empty_list_gives_no_buffers() {
    assert!(vec2cstring(Vec::new()).unwrap().is_empty());
}

#[test]
fn list_with_zero_fails_whole() {
    let r = vec2cstring(vec!["fine", "bad\0", "also fine"]);
    match r {
        Err(IronCoreError::NulError(e)) => {
            assert_eq!(e.nul_position(), 3);
            assert_eq!(e.bytes, b"bad\0".to_vec());
        }
        other => panic!("unexpected {:?}", other),
    }
}
