//! The header fields of a request, as the policy reads them.

use vstd::prelude::*;

use crate::text::{same, view_of};

verus! {

/// The header fields of a request: names in lower case, values as raw bytes, in
/// the order of the request.
pub struct Headers {
    pub entries: Vec<(String, Vec<u8>)>,
}

/// The first value under `name`.
pub open spec fn first_value(entries: Seq<(String, Vec<u8>)>, name: Seq<char>) -> Option<Seq<u8>>
    decreases entries.len(),
{
    if entries.len() == 0 {
        None
    } else if entries[0].0@ == name {
        Some(entries[0].1@)
    } else {
        first_value(entries.skip(1), name)
    }
}

/// A byte that a header value may hold to be read as text: visible ASCII, a
/// space or a tab.
pub open spec fn visible(b: u8) -> bool {
    32 <= b < 127 || b == 9
}

/// A header value as text: `None` where a byte is not visible ASCII.
pub open spec fn header_text(value: Seq<u8>) -> Option<Seq<char>> {
    if forall|i: int| 0 <= i < value.len() ==> visible(#[trigger] value[i]) {
        Some(Seq::new(value.len(), |i: int| value[i] as char))
    } else {
        None
    }
}

impl Headers {
    /// The text of the field `name`: that of its first value, where it has one
    /// and that is visible ASCII.
    pub open spec fn field(self, name: Seq<char>) -> Option<Seq<char>> {
        match first_value(self.entries@, name) {
            Some(value) => header_text(value),
            None => None,
        }
    }

    /// The text of the field `name`, where it has one.
    pub fn get(&self, name: &str) -> (r: Option<String>)
        ensures
            view_of(r) == self.field(name@),
    {
        let mut i: usize = 0;
        assert(self.entries@.skip(0) == self.entries@);
        while i < self.entries.len()
            invariant
                i <= self.entries@.len(),
                first_value(self.entries@, name@) == first_value(
                    self.entries@.skip(i as int),
                    name@,
                ),
            decreases self.entries@.len() - i,
        {
            if same(self.entries[i].0.as_str(), name) {
                return read_value(&self.entries[i].1);
            }
            assert(self.entries@.skip(i as int).skip(1) == self.entries@.skip(i + 1));
            i += 1;
        }
        None
    }
}

/// Reads a header value as text.
pub fn read_value(value: &Vec<u8>) -> (r: Option<String>)
    ensures
        view_of(r) == header_text(value@),
{
    let mut out = String::new();
    let mut i: usize = 0;
    while i < value.len()
        invariant
            i <= value@.len(),
            forall|j: int| 0 <= j < i ==> visible(#[trigger] value@[j]),
            out@ == Seq::new(i as nat, |j: int| value@[j] as char),
        decreases value@.len() - i,
    {
        let b: u8 = value[i];
        if !((32 <= b && b < 127) || b == 9) {
            return None;
        }
        out.push(b as char);
        i += 1;
    }
    Some(out)
}

} // verus!
