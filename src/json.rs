//! The calls into serde_json that the record format rests on.
use vstd::prelude::*;

verus! {

#[verifier::external_type_specification]
#[verifier::external_body]
pub struct ExJsonError(serde_json::Error);

/// The JSON string literal that serde_json writes for the text `s`,
/// quotes and escapes included.
pub uninterp spec fn json_quoted(s: Seq<char>) -> Seq<char>;

/// The entries of the JSON object of string values that serde_json reads
/// from `text`, in ascending order of key; `None` where `text` is no such
/// object.
pub uninterp spec fn json_string_entries(text: Seq<char>) -> Option<Seq<(Seq<char>, Seq<char>)>>;

/// The text of a record object with two string fields, laid out as
/// serde_json's pretty printer lays out a struct: one field per line,
/// indented by two spaces, fields in declaration order.
pub open spec fn pretty_object2(
    k1: Seq<char>,
    v1: Seq<char>,
    k2: Seq<char>,
    v2: Seq<char>,
) -> Seq<char> {
    seq!['{', '\n', ' ', ' '] + json_quoted(k1) + seq![':', ' '] + json_quoted(v1) + seq![
        ',',
        '\n',
        ' ',
        ' ',
    ] + json_quoted(k2) + seq![':', ' '] + json_quoted(v2) + seq!['\n', '}']
}

/// Relies on serde_json::to_string on a `str`: it writes the string as a
/// JSON string literal, and writing into memory cannot fail.
#[verifier::external_body]
pub(crate) fn quote_json(s: &str) -> (r: Result<String, serde_json::Error>)
    ensures
        r is Ok,
        r matches Ok(q) ==> q@ == json_quoted(s@),
{
    serde_json::to_string(s)
}

/// Relies on serde_json::from_str into a `BTreeMap<String, String>`: it reads
/// a JSON object whose values are all strings, and the map hands its entries
/// out in ascending order of key. Reading back an object of two distinct
/// keys written with serde_json's own string literals gives those two
/// entries.
#[verifier::external_body]
pub(crate) fn parse_string_object(text: &str) -> (r: Result<Vec<(String, String)>, serde_json::Error>)
    ensures
        r is Ok <==> json_string_entries(text@) is Some,
        r matches Ok(v) ==> entries_view(v@) == json_string_entries(text@)->Some_0,
        reads_back_pairs(text@, r),
{
    let m: std::collections::BTreeMap<String, String> = serde_json::from_str(text)?;
    Ok(m.into_iter().collect())
}

/// Whether `r` is what reading `text` gives where `text` is an object of
/// two distinct keys written by `pretty_object2`: both entries, in ascending
/// order of key.
pub open spec fn reads_back_pairs(
    text: Seq<char>,
    r: Result<Vec<(String, String)>, serde_json::Error>,
) -> bool {
    forall|k1: Seq<char>, v1: Seq<char>, k2: Seq<char>, v2: Seq<char>|
        #![trigger pretty_object2(k1, v1, k2, v2)]
        text == pretty_object2(k1, v1, k2, v2) && k1 != k2 ==> (r matches Ok(v) && entries_view(v@)
            == if seq_char_lt(k1, k2) {
            seq![(k1, v1), (k2, v2)]
        } else {
            seq![(k2, v2), (k1, v1)]
        })
}

/// The entries of a list of string pairs, as text.
pub open spec fn entries_view(v: Seq<(String, String)>) -> Seq<(Seq<char>, Seq<char>)> {
    v.map_values(|p: (String, String)| (p.0@, p.1@))
}

/// Whether `a` comes before `b` in the order of `String`'s `Ord`: the
/// lexicographic order of their characters.
pub open spec fn seq_char_lt(a: Seq<char>, b: Seq<char>) -> bool
    decreases a.len(),
{
    if b.len() == 0 {
        false
    } else if a.len() == 0 {
        true
    } else if a[0] != b[0] {
        (a[0] as u32) < (b[0] as u32)
    } else {
        seq_char_lt(a.drop_first(), b.drop_first())
    }
}

} // verus!
