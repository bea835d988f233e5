use vstd::prelude::*;
use vstd::utf8::{decode_utf8, valid_utf8};

use crate::json::texts;

verus! {

/// The text that lossy UTF-8 decoding gives for `b`.
pub uninterp spec fn lossy_utf8(b: Seq<u8>) -> Seq<char>;

/// Relies on `String::from_utf8_lossy`: the text depends on the bytes alone, and bytes
/// that are valid UTF-8 decode to exactly the characters they encode.
#[verifier::external_body]
fn decode_lossy(b: &[u8]) -> (r: String)
    ensures
        r@ == lossy_utf8(b@),
        valid_utf8(b@) ==> r@ == decode_utf8(b@),
{
    String::from_utf8_lossy(b).into_owned()
}

/// The view of a list of byte strings.
pub open spec fn byte_strings(v: Seq<Vec<u8>>) -> Seq<Seq<u8>> {
    v.map_values(|b: Vec<u8>| b@)
}

/// The paths that a file-list representation yields: none when the payload offers no
/// file list, else one lossily decoded path per entry, in order.
pub open spec fn paths_of(file_list: Option<Vec<Vec<u8>>>) -> Seq<Seq<char>> {
    match file_list {
        None => seq![],
        Some(l) => byte_strings(l@).map_values(|b: Seq<u8>| lossy_utf8(b)),
    }
}

/// Collects the paths of a drag payload from its file-list representation (the native
/// bytes of each file name), or from none when the payload offers no file list. Each name
/// is decoded lossily: malformed bytes are replaced, never rejected. Order and duplicates
/// are kept.
pub fn collect_paths(file_list: &Option<Vec<Vec<u8>>>) -> (r: Vec<String>)
    ensures
        texts(r@) == paths_of(*file_list),
{
    let mut out: Vec<String> = Vec::new();
    match file_list {
        None => {
            assert(texts(out@) =~= seq![]);
        },
        Some(l) => {
            let ghost want = byte_strings(l@).map_values(|b: Seq<u8>| lossy_utf8(b));
            let mut i: usize = 0;
            while i < l.len()
                invariant
                    want == byte_strings(l@).map_values(|b: Seq<u8>| lossy_utf8(b)),
                    i <= l@.len(),
                    out@.len() == i,
                    forall|j: int| 0 <= j < i ==> (#[trigger] out@[j])@ == want[j],
                decreases l@.len() - i,
            {
                let p = decode_lossy(l[i].as_slice());
                out.push(p);
                i = i + 1;
            }
            assert(texts(out@) =~= want);
        },
    }
    out
}

} // verus!
