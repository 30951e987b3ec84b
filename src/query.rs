//! The read side of the cache: which directory entries are metadata records,
//! and how a cached message is shown.
use vstd::prelude::*;
use vstd::string::StrSliceExecFns;

verus! {

/// A file name whose extension is `json`: it ends in `.json` and has a
/// non-empty stem before that.
pub open spec fn is_metadata_name(name: Seq<char>) -> bool {
    name.len() > 5 && name.skip(name.len() - 5) == ".json"@
}

/// Whether a directory entry of a metadata directory holds an envelope record.
pub fn is_metadata_file(name: &str) -> (r: bool)
    ensures
        r == is_metadata_name(name@),
{
    let n = name.unicode_len();
    if n <= 5 {
        return false;
    }
    let suffix = ".json";
    proof {
        reveal_strlit(".json");
    }
    let mut i: usize = 0;
    while i < 5
        invariant
            n == name@.len(),
            n > 5,
            suffix@ == ".json"@,
            suffix@.len() == 5,
            i <= 5,
            forall|j: int| 0 <= j < i ==> name@[n - 5 + j] == suffix@[j],
        decreases 5 - i,
    {
        if name.get_char(n - 5 + i) != suffix.get_char(i) {
            assert(name@.skip(n - 5)[i as int] != ".json"@[i as int]);
            return false;
        }
        i = i + 1;
    }
    assert(name@.skip(n - 5) =~= ".json"@);
    true
}

/// The bytes with each carriage return that precedes a line feed removed.
pub open spec fn crlf_to_lf(s: Seq<u8>) -> Seq<u8>
    decreases s.len(),
{
    if s.len() == 0 {
        s
    } else if s.len() >= 2 && s[0] == 13 && s[1] == 10 {
        seq![10u8] + crlf_to_lf(s.skip(2))
    } else {
        seq![s[0]] + crlf_to_lf(s.skip(1))
    }
}

/// Turns each CRLF line ending of a message into LF. Neither byte occurs
/// inside a multi-byte UTF-8 character, so this can precede decoding.
pub fn normalize_line_endings(bytes: &Vec<u8>) -> (r: Vec<u8>)
    ensures
        r@ == crlf_to_lf(bytes@),
{
    let mut out: Vec<u8> = Vec::new();
    let mut i: usize = 0;
    assert(bytes@.skip(0) =~= bytes@);
    assert(out@ + crlf_to_lf(bytes@) =~= crlf_to_lf(bytes@));
    while i < bytes.len()
        invariant
            i <= bytes@.len(),
            out@ + crlf_to_lf(bytes@.skip(i as int)) == crlf_to_lf(bytes@),
        decreases bytes@.len() - i,
    {
        let ghost rest = bytes@.skip(i as int);
        if i + 1 < bytes.len() && bytes[i] == 13 && bytes[i + 1] == 10 {
            assert(rest.skip(2) =~= bytes@.skip(i + 2));
            out.push(10);
            assert(out@ + crlf_to_lf(bytes@.skip(i + 2)) =~= crlf_to_lf(bytes@));
            i = i + 2;
        } else {
            assert(rest.skip(1) =~= bytes@.skip(i + 1));
            out.push(bytes[i]);
            assert(out@ + crlf_to_lf(bytes@.skip(i + 1)) =~= crlf_to_lf(bytes@));
            i = i + 1;
        }
    }
    assert(bytes@.skip(i as int) =~= Seq::<u8>::empty());
    assert(out@ + crlf_to_lf(bytes@.skip(i as int)) =~= out@);
    out
}

/// The JSON string literal that serde_json writes for a text: quoted, with
/// its special characters escaped. It depends on the text alone.
pub uninterp spec fn json_string_literal(s: Seq<char>) -> Seq<char>;

/// Relies on `serde_json::to_string` applied to a string slice: it serializes
/// through `serialize_str` into a `Vec`, which cannot fail, so the error arm
/// is never taken.
#[verifier::external_body]
fn encode_json_string(s: &str) -> (r: String)
    ensures
        r@ == json_string_literal(s@),
{
    serde_json::to_string(s).unwrap_or_default()
}

/// A cached message as it is shown: its text as one JSON string literal.
pub fn render_message(text: &str) -> (r: String)
    ensures
        r@ == json_string_literal(text@),
{
    encode_json_string(text)
}

} // verus!
