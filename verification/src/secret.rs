//! Secrets: byte strings under keys.

use vstd::prelude::*;
use vstd::utf8::{decode_utf8, valid_utf8};

use crate::text::same_text;

verus! {

/// One entry of a Secret.
#[derive(Clone, Debug)]
struct Entry {
    key: String,
    value: Vec<u8>,
}

/// The data of a Secret: a map from keys to byte strings.
///
/// Entries are kept in the order in which they were inserted; of several under
/// one key the last counts.
#[derive(Clone, Debug)]
pub struct SecretData {
    entries: Vec<Entry>,
}

/// The map that a list of entries stands for.
spec fn entries_map(entries: Seq<Entry>) -> Map<Seq<char>, Seq<u8>>
    decreases entries.len(),
{
    if entries.len() == 0 {
        Map::empty()
    } else {
        entries_map(entries.drop_last()).insert(entries.last().key@, entries.last().value@)
    }
}

impl DeepView for SecretData {
    type V = Map<Seq<char>, Seq<u8>>;

    closed spec fn deep_view(&self) -> Map<Seq<char>, Seq<u8>> {
        entries_map(self.entries@)
    }
}

impl SecretData {
    /// Data without any key.
    pub fn new() -> (data: Self)
        ensures
            data.deep_view() == Map::<Seq<char>, Seq<u8>>::empty(),
    {
        SecretData { entries: Vec::new() }
    }

    /// Puts a value under a key, in place of the one that may be there.
    pub fn insert(&mut self, key: &str, value: Vec<u8>)
        ensures
            final(self).deep_view() == old(self).deep_view().insert(key@, value@),
    {
        let ghost before = self.entries@;
        self.entries.push(Entry { key: key.to_owned(), value });
        assert(self.entries@.drop_last() =~= before);
    }

    /// The value under a key.
    pub fn get(&self, key: &str) -> (value: Option<&Vec<u8>>)
        ensures
            value is Some == self.deep_view().contains_key(key@),
            value matches Some(bytes) ==> bytes@ == self.deep_view()[key@],
    {
        let mut i: usize = self.entries.len();
        assert(self.entries@.take(i as int) =~= self.entries@);
        while i > 0
            invariant
                i <= self.entries.len(),
                self.deep_view().contains_key(key@) == entries_map(
                    self.entries@.take(i as int),
                ).contains_key(key@),
                self.deep_view()[key@] == entries_map(self.entries@.take(i as int))[key@],
            decreases i,
        {
            assert(self.entries@.take(i as int).drop_last() =~= self.entries@.take(i - 1));
            i -= 1;
            if same_text(self.entries[i].key.as_str(), key) {
                return Some(&self.entries[i].value);
            }
        }
        None
    }
}

/// A Secret, as far as it is read.
#[derive(Clone, Debug)]
pub struct Secret {
    pub data: Option<SecretData>,
}

impl DeepView for Secret {
    type V = Option<Map<Seq<char>, Seq<u8>>>;

    open spec fn deep_view(&self) -> Option<Map<Seq<char>, Seq<u8>>> {
        self.data.deep_view()
    }
}

/// The text under a key: there is none where the Secret has no data, no such
/// key, or bytes there that are not UTF-8.
pub open spec fn text_at(secret: Option<Map<Seq<char>, Seq<u8>>>, key: Seq<char>) -> Option<
    Seq<char>,
> {
    match secret {
        Some(data) => if data.contains_key(key) && valid_utf8(data[key]) {
            Some(decode_utf8(data[key]))
        } else {
            None
        },
        None => None,
    }
}

/// Calls `String::from_utf8`, which returns the string that the bytes encode,
/// and fails exactly where they are not valid UTF-8. The error is dropped.
#[verifier::external_body]
fn utf8_text(bytes: Vec<u8>) -> (text: Option<String>)
    ensures
        text is Some == valid_utf8(bytes@),
        text matches Some(s) ==> s@ == decode_utf8(bytes@),
{
    String::from_utf8(bytes).ok()
}

/// Reads the text under a key of a Secret.
pub fn secret_value(secret: &Secret, key: &str) -> (value: Option<String>)
    ensures
        value.deep_view() == text_at(secret.deep_view(), key@),
{
    match &secret.data {
        Some(data) => match data.get(key) {
            Some(bytes) => {
                let copy = bytes.clone();
                assert(copy@ =~= bytes@);
                utf8_text(copy)
            },
            None => None,
        },
        None => None,
    }
}

} // verus!
