use vstd::prelude::*;
use vstd::string::StringSliceAdditionalSpecFns;
use crate::error::{IronCoreError, IronCoreResult, NulError};

verus! {

/// Whether a byte sequence holds a zero byte.
pub open spec fn has_nul(b: Seq<u8>) -> bool {
    exists|i: int| 0 <= i < b.len() && b[i] == 0
}

/// Whether `i` is the index of the first zero byte of `b`.
pub open spec fn is_first_nul(b: Seq<u8>, i: int) -> bool {
    &&& 0 <= i < b.len()
    &&& b[i] == 0
    &&& forall|j: int| 0 <= j < i ==> b[j] != 0
}

/// The null-terminated buffer that holds the bytes `b`.
pub open spec fn c_buffer(b: Seq<u8>) -> Seq<u8> {
    b.push(0)
}

/// What a native reader sees in a buffer: the bytes before the first zero.
pub open spec fn read_c_str(b: Seq<u8>) -> Seq<u8>
    decreases b.len(),
{
    if b.len() == 0 {
        b
    } else if b[0] == 0 {
        Seq::empty()
    } else {
        seq![b[0]] + read_c_str(b.subrange(1, b.len() as int))
    }
}

/// Copies the bytes of `s` into a null-terminated buffer, failing at the
/// first zero byte of `s`.
pub fn to_c_string(s: &str) -> (r: Result<Vec<u8>, NulError>)
    ensures
        r is Ok <==> !has_nul(s.spec_bytes()),
        r matches Ok(b) ==> b@ == c_buffer(s.spec_bytes()),
        r matches Err(e) ==> is_first_nul(s.spec_bytes(), e.position as int) && e.bytes@
            == s.spec_bytes(),
{
    let bytes = s.as_bytes();
    let mut out: Vec<u8> = Vec::new();
    let mut i: usize = 0;
    while i < bytes.len()
        invariant
            bytes@ == s.spec_bytes(),
            i <= bytes@.len(),
            out@ == bytes@.subrange(0, i as int),
            forall|j: int| 0 <= j < i ==> bytes@[j] != 0,
        decreases bytes@.len() - i,
    {
        if bytes[i] == 0 {
            assert(out@ == bytes@.subrange(0, i as int));
            let mut all: Vec<u8> = out;
            let mut k: usize = i;
            while k < bytes.len()
                invariant
                    i <= k <= bytes@.len(),
                    all@ == bytes@.subrange(0, k as int),
                decreases bytes@.len() - k,
            {
                all.push(bytes[k]);
                assert(all@ == bytes@.subrange(0, k + 1));
                k = k + 1;
            }
            assert(all@ == bytes@);
            return Err(NulError { position: i, bytes: all });
        }
        out.push(bytes[i]);
        assert(out@ == bytes@.subrange(0, i + 1));
        i = i + 1;
    }
    assert(out@ == bytes@);
    out.push(0);
    Ok(out)
}

/// The byte buffers of a list of texts, one for each, in order, provided that
/// none of them holds a zero byte.
pub fn vec2cstring(strings: Vec<&str>) -> (r: IronCoreResult<Vec<Vec<u8>>>)
    ensures
        r is Ok <==> forall|i: int| 0 <= i < strings@.len() ==> !has_nul(#[trigger] strings@[i].spec_bytes()),
        r matches Ok(bufs) ==> {
            &&& bufs@.len() == strings@.len()
            &&& forall|i: int|
                0 <= i < strings@.len() ==> #[trigger] bufs@[i]@ == c_buffer(strings@[i].spec_bytes())
            &&& forall|i: int|
                0 <= i < strings@.len() ==> read_c_str(#[trigger] bufs@[i]@) == strings@[i].spec_bytes()
        },
        r matches Err(e) ==> (e matches IronCoreError::NulError(n) && exists|i: int|
            0 <= i < strings@.len() && is_first_nul(#[trigger] strings@[i].spec_bytes(), n.position as int)
            && n.bytes@ == strings@[i].spec_bytes()),
{
    let mut bufs: Vec<Vec<u8>> = Vec::new();
    let mut i: usize = 0;
    while i < strings.len()
        invariant
            i <= strings@.len(),
            bufs@.len() == i,
            forall|j: int| 0 <= j < i ==> !has_nul(#[trigger] strings@[j].spec_bytes()),
            forall|j: int| 0 <= j < i ==> #[trigger] bufs@[j]@ == c_buffer(strings@[j].spec_bytes()),
            forall|j: int| 0 <= j < i ==> read_c_str(#[trigger] bufs@[j]@) == strings@[j].spec_bytes(),
        decreases strings@.len() - i,
    {
        match to_c_string(strings[i]) {
            Ok(b) => {
                proof {
                    lemma_read_back(strings@[i as int].spec_bytes());
                }
                bufs.push(b);
            },
            Err(e) => {
                return Err(IronCoreError::NulError(e));
            },
        }
        i = i + 1;
    }
    Ok(bufs)
}

/// Reading a buffer back gives the bytes it was made from, provided they hold
/// no zero byte.
pub proof fn lemma_read_back(b: Seq<u8>)
    requires
        !has_nul(b),
    ensures
        read_c_str(c_buffer(b)) == b,
    decreases b.len(),
{
    let c = c_buffer(b);
    if b.len() == 0 {
        assert(c[0] == 0);
    } else {
        assert(b[0] != 0);
        let rest = b.subrange(1, b.len() as int);
        assert(!has_nul(rest)) by {
            if has_nul(rest) {
                let k = choose|k: int| 0 <= k < rest.len() && rest[k] == 0;
                assert(b[k + 1] == 0);
            }
        }
        lemma_read_back(rest);
        assert(c.subrange(1, c.len() as int) == c_buffer(rest));
        assert(c == seq![b[0]] + c_buffer(rest));
        assert(seq![b[0]] + rest == b);
    }
}

/// Marshaling a list of texts without zero bytes gives one buffer per text,
/// and each buffer, read back as a native reader would, is that text's bytes.
pub proof fn lemma_marshal_round_trip(texts: Seq<Seq<u8>>, bufs: Seq<Seq<u8>>)
    requires
        forall|i: int| 0 <= i < texts.len() ==> !has_nul(#[trigger] texts[i]),
        bufs.len() == texts.len(),
        forall|i: int| 0 <= i < texts.len() ==> #[trigger] bufs[i] == c_buffer(texts[i]),
    ensures
        forall|i: int| 0 <= i < texts.len() ==> #[trigger] read_c_str(bufs[i]) == texts[i],
{
    assert forall|i: int| 0 <= i < texts.len() implies #[trigger] read_c_str(bufs[i]) == texts[i] by {
        lemma_read_back(texts[i]);
    }
}


/// An ASCII text holds a zero byte exactly when it holds the character `'\0'`.
pub proof fn lemma_ascii_nul(s: &str)
    requires
        vstd::string::is_ascii(s),
    ensures
        has_nul(s.spec_bytes()) <==> s@.contains('\0'),
{
    vstd::string::is_ascii_spec_bytes(s);
    let b = s.spec_bytes();
    if has_nul(b) {
        let i = choose|i: int| 0 <= i < b.len() && b[i] == 0;
        assert(s@[i] as u8 == 0);
        assert(s@[i] == '\0') by {
            assert(vstd::utf8::is_ascii_chars(s@));
        }
    }
    if s@.contains('\0') {
        let i = choose|i: int| 0 <= i < s@.len() && s@[i] == '\0';
        assert(b[i] == 0);
    }
}

} // verus!
