//! Line-ending translation for text sinks whose devices want CR LF.
use vstd::prelude::*;

verus! {

/// `bytes` with every `\n` preceded by a `\r`.
pub open spec fn crlf_spec(bytes: Seq<u8>) -> Seq<u8>
    decreases bytes.len(),
{
    if bytes.len() == 0 {
        Seq::empty()
    } else if bytes.last() == 10 {
        crlf_spec(bytes.drop_last()).push(13).push(10)
    } else {
        crlf_spec(bytes.drop_last()).push(bytes.last())
    }
}

/// Expands bare `\n` to `\r\n`; every other byte passes through untouched.
pub fn expand_lf_to_crlf(bytes: &[u8]) -> (out: Vec<u8>)
    ensures
        out@ == crlf_spec(bytes@),
{
    let mut out: Vec<u8> = Vec::new();
    let mut i: usize = 0;
    assert(bytes@.take(0) =~= Seq::<u8>::empty());
    while i < bytes.len()
        invariant
            0 <= i <= bytes@.len(),
            out@ == crlf_spec(bytes@.take(i as int)),
        decreases bytes@.len() - i,
    {
        let byte = bytes[i];
        assert(bytes@.take(i + 1).drop_last() =~= bytes@.take(i as int));
        if byte == 10 {
            out.push(13);
        }
        out.push(byte);
        i = i + 1;
    }
    assert(bytes@.take(i as int) =~= bytes@);
    out
}

} // verus!
