//! The cached record of a built image, and the text of its record file.
use vstd::prelude::*;
use vstd::string::StringExecFns;
use crate::error::CacheError;
use crate::json::{json_quoted, json_string_entries, pretty_object2, quote_json, parse_string_object, entries_view, seq_char_lt};

verus! {

/// A built image: its content digest and its name (an image tag).
#[derive(Debug, Clone)]
pub struct CachedDockerImage {
    pub sha256: String,
    pub name: String,
}

/// A record as plain text values.
pub struct ImageRecord {
    pub sha256: Seq<char>,
    pub name: Seq<char>,
}

impl View for CachedDockerImage {
    type V = ImageRecord;

    open spec fn view(&self) -> ImageRecord {
        ImageRecord { sha256: self.sha256@, name: self.name@ }
    }
}

impl ImageRecord {
    /// Both fields are required and non-empty.
    pub open spec fn is_valid(self) -> bool {
        self.sha256.len() > 0 && self.name.len() > 0
    }
}

/// The key under which a record file holds the digest.
pub open spec fn digest_key() -> Seq<char> {
    seq!['s', 'h', 'a', '2', '5', '6']
}

/// The key under which a record file holds the name.
pub open spec fn name_key() -> Seq<char> {
    seq!['n', 'a', 'm', 'e']
}

/// The text of the record file of `v`: a JSON object with the digest and
/// then the name, pretty-printed.
pub open spec fn record_text(v: ImageRecord) -> Seq<char> {
    pretty_object2(digest_key(), v.sha256, name_key(), v.name)
}

/// The value of the first entry with key `key`, if any.
pub open spec fn field_of(e: Seq<(Seq<char>, Seq<char>)>, key: Seq<char>) -> Option<Seq<char>>
    decreases e.len(),
{
    if e.len() == 0 {
        None
    } else if e[0].0 == key {
        Some(e[0].1)
    } else {
        field_of(e.drop_first(), key)
    }
}

/// What the record file text `text` reads as: `Malformed` where it is not
/// a JSON object of strings, `MissingField` where the digest or the name is
/// absent or empty, and the record otherwise.
pub open spec fn decode_record(text: Seq<char>) -> Result<ImageRecord, CacheError> {
    match json_string_entries(text) {
        None => Err(CacheError::Malformed),
        Some(e) => {
            let d = field_of(e, digest_key());
            let n = field_of(e, name_key());
            if d is Some && n is Some && d->Some_0.len() > 0 && n->Some_0.len() > 0 {
                Ok(ImageRecord { sha256: d->Some_0, name: n->Some_0 })
            } else {
                Err(CacheError::MissingField)
            }
        },
    }
}

/// Whether the executable result `r` is the decoded record `s`.
pub open spec fn decoded_as(
    r: Result<CachedDockerImage, CacheError>,
    s: Result<ImageRecord, CacheError>,
) -> bool {
    match (r, s) {
        (Ok(x), Ok(y)) => x@ == y,
        (Err(a), Err(b)) => a == b,
        _ => false,
    }
}

fn digest_key_string() -> (r: String)
    ensures
        r@ == digest_key(),
{
    proof {
        reveal_strlit("sha256");
    }
    String::from_str("sha256")
}

fn name_key_string() -> (r: String)
    ensures
        r@ == name_key(),
{
    proof {
        reveal_strlit("name");
    }
    String::from_str("name")
}

/// The value of the first entry of `entries` with key `key`.
fn find_field(entries: &Vec<(String, String)>, key: &String) -> (r: Option<String>)
    ensures
        match (r, field_of(entries_view(entries@), key@)) {
            (Some(x), Some(y)) => x@ == y,
            (None, None) => true,
            _ => false,
        },
{
    let ghost e = entries_view(entries@);
    let mut i: usize = 0;
    assert(e.subrange(0, e.len() as int) =~= e);
    while i < entries.len()
        invariant
            0 <= i <= entries.len(),
            e == entries_view(entries@),
            field_of(e, key@) == field_of(e.subrange(i as int, e.len() as int), key@),
        decreases entries.len() - i,
    {
        let ghost rest = e.subrange(i as int, e.len() as int);
        assert(rest.drop_first() =~= e.subrange(i + 1, e.len() as int));
        if entries[i].0 == *key {
            return Some(entries[i].1.clone());
        }
        i = i + 1;
    }
    None
}

impl CachedDockerImage {
    /// The text of this record's file.
    pub fn to_record_text(&self) -> (r: Result<String, CacheError>)
        ensures
            r matches Ok(t) && t@ == record_text(self@),
    {
        let dk = digest_key_string();
        let nk = name_key_string();
        let q_dk = match quote_json(dk.as_str()) {
            Ok(q) => q,
            Err(_) => return Err(CacheError::Encode),
        };
        let q_d = match quote_json(self.sha256.as_str()) {
            Ok(q) => q,
            Err(_) => return Err(CacheError::Encode),
        };
        let q_nk = match quote_json(nk.as_str()) {
            Ok(q) => q,
            Err(_) => return Err(CacheError::Encode),
        };
        let q_n = match quote_json(self.name.as_str()) {
            Ok(q) => q,
            Err(_) => return Err(CacheError::Encode),
        };
        proof {
            reveal_strlit("{\n  ");
            reveal_strlit(": ");
            reveal_strlit(",\n  ");
            reveal_strlit("\n}");
        }
        let mut out = String::from_str("{\n  ");
        out.append(q_dk.as_str());
        out.append(": ");
        out.append(q_d.as_str());
        out.append(",\n  ");
        out.append(q_nk.as_str());
        out.append(": ");
        out.append(q_n.as_str());
        out.append("\n}");
        assert(out@ =~= record_text(self@));
        Ok(out)
    }

    /// The record that the record file text `text` holds.
    pub fn from_record_text(text: &str) -> (r: Result<CachedDockerImage, CacheError>)
        ensures
            decoded_as(r, decode_record(text@)),
            forall|v: ImageRecord|
                text@ == record_text(v) ==> if v.is_valid() {
                    r matches Ok(x) && x@ == v
                } else {
                    r == Err::<CachedDockerImage, CacheError>(CacheError::MissingField)
                },
    {
        let entries = match parse_string_object(text) {
            Ok(v) => v,
            Err(_) => return Err(CacheError::Malformed),
        };
        proof {
            assert forall|v: ImageRecord| text@ == record_text(v) implies decode_record(text@) == if v.is_valid() {
                Ok::<ImageRecord, CacheError>(v)
            } else {
                Err::<ImageRecord, CacheError>(CacheError::MissingField)
            } by {
                assert(digest_key().len() != name_key().len());
                assert(!seq_char_lt(digest_key(), name_key()));
                let e = seq![(name_key(), v.name), (digest_key(), v.sha256)];
                assert(json_string_entries(text@) == Some(e));
                assert(field_of(e, name_key()) == Some(v.name));
                assert(e.drop_first() =~= seq![(digest_key(), v.sha256)]);
                assert(field_of(e.drop_first(), digest_key()) == Some(v.sha256));
                assert(field_of(e, digest_key()) == Some(v.sha256));
            }
        }
        let dk = digest_key_string();
        let nk = name_key_string();
        let d = find_field(&entries, &dk);
        let n = find_field(&entries, &nk);
        match (d, n) {
            (Some(d), Some(n)) => {
                if d.as_str().unicode_len() > 0 && n.as_str().unicode_len() > 0 {
                    Ok(CachedDockerImage { sha256: d, name: n })
                } else {
                    Err(CacheError::MissingField)
                }
            },
            _ => Err(CacheError::MissingField),
        }
    }
}

} // verus!
