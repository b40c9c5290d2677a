//! Inbound event payloads, modelled as a tagged variant over a dynamically
//! shaped value: a structured key/value document, a plain text value, or
//! anything else. The only contractually read field is `room_id`; extraction
//! is best effort and never traps on an unexpected shape.

use vstd::prelude::*;
use vstd::string::StringExecFns;

verus! {

/// A dynamically shaped inbound value. A `Document` is an ordered list of
/// key/value pairs; keys need not be distinct and need not be text.
pub enum PayloadValue {
    Text(String),
    Document(Vec<(PayloadValue, PayloadValue)>),
    Other,
}

/// The first entry of `entries` whose key is the text `key` and whose value
/// is text; entries of any other shape are skipped, never an error.
pub open spec fn doc_lookup(entries: Seq<(PayloadValue, PayloadValue)>, key: Seq<char>) -> Option<
    Seq<char>,
>
    decreases entries.len(),
{
    if entries.len() == 0 {
        None
    } else if entry_matches(entries[0], key) {
        match entries[0].1 {
            PayloadValue::Text(v) => Some(v@),
            _ => None,
        }
    } else {
        doc_lookup(entries.drop_first(), key)
    }
}

/// Does this entry bind the text key `key` to a text value?
pub open spec fn entry_matches(entry: (PayloadValue, PayloadValue), key: Seq<char>) -> bool {
    &&& entry.0 matches PayloadValue::Text(k) && k@ == key
    &&& entry.1 is Text
}

/// The room identifier a payload carries: present exactly when the payload
/// is a structured document with a text field named `room_id`.
pub open spec fn room_id_of(p: PayloadValue) -> Option<Seq<char>> {
    match p {
        PayloadValue::Document(entries) => doc_lookup(entries@, "room_id"@),
        _ => None,
    }
}

/// Best-effort extraction of the text value bound to `key` in `entries`.
pub fn lookup_text_field(entries: &Vec<(PayloadValue, PayloadValue)>, key: &String) -> (found:
    Option<String>)
    ensures
        match found {
            Some(s) => doc_lookup(entries@, key@) == Some(s@),
            None => doc_lookup(entries@, key@) is None,
        },
{
    let n = entries.len();
    let mut k: usize = 0;
    proof {
        assert(entries@.skip(0) =~= entries@);
    }
    while k < n
        invariant
            k <= n,
            n == entries@.len(),
            doc_lookup(entries@, key@) == doc_lookup(entries@.skip(k as int), key@),
        decreases n - k,
    {
        let ghost rest = entries@.skip(k as int);
        proof {
            assert(rest[0] == entries@[k as int]);
            assert(rest.drop_first() =~= entries@.skip(k as int + 1));
        }
        let entry = &entries[k];
        match (&entry.0, &entry.1) {
            (PayloadValue::Text(field), PayloadValue::Text(value)) => {
                if *field == *key {
                    proof {
                        assert(entry_matches(entries@[k as int], key@));
                    }
                    return Some(value.clone());
                }
            },
            _ => {},
        }
        proof {
            assert(!entry_matches(entries@[k as int], key@));
        }
        k += 1;
    }
    proof {
        assert(entries@.skip(n as int) =~= Seq::<(PayloadValue, PayloadValue)>::empty());
    }
    None
}

/// Best-effort extraction of the `room_id` field from an arbitrary payload:
/// `Some` exactly when the payload is a document with a text `room_id` field.
pub fn extract_room_id(p: &PayloadValue) -> (found: Option<String>)
    ensures
        match found {
            Some(s) => room_id_of(*p) == Some(s@),
            None => room_id_of(*p) is None,
        },
{
    match p {
        PayloadValue::Document(entries) => {
            let key = String::from_str("room_id");
            lookup_text_field(entries, &key)
        },
        _ => None,
    }
}

} // verus!
