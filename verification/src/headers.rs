use vstd::prelude::*;
use vstd::string::*;

use crate::config::opt_str_view;
use crate::text::{assoc_find, assoc_lookup};

verus! {

/// The header (or call metadata) fields of one request, in arrival order.
/// Names are compared without regard to ASCII case; a value is `None` where
/// the field's bytes are not visible ASCII text.
pub struct Headers {
    pub fields: Vec<(String, Option<String>)>,
}

impl Headers {
    /// The value of the first field named `key`, compared without regard to
    /// ASCII case; no value where that field is not text.
    pub open spec fn lookup(self, key: Seq<char>) -> Option<Seq<char>> {
        match assoc_lookup(self.fields@, key, true) {
            Some(v) => opt_str_view(v),
            None => None,
        }
    }

    pub fn new() -> (h: Headers)
        ensures
            h.fields@.len() == 0,
    {
        Headers { fields: Vec::new() }
    }

    /// Adds a text field at the end.
    pub fn append(&mut self, name: &str, value: &str)
        ensures
            final(self).fields@.len() == old(self).fields@.len() + 1,
            final(self).fields@.subrange(0, old(self).fields@.len() as int) == old(self).fields@,
            final(self).fields@.last().0@ == name@,
            final(self).fields@.last().1 matches Some(v) && v@ == value@,
    {
        self.fields.push((String::from_str(name), Some(String::from_str(value))));
        assert(self.fields@.subrange(0, old(self).fields@.len() as int) =~= old(self).fields@);
    }

    /// Adds a field whose value is not text.
    pub fn append_opaque(&mut self, name: &str)
        ensures
            final(self).fields@.len() == old(self).fields@.len() + 1,
            final(self).fields@.subrange(0, old(self).fields@.len() as int) == old(self).fields@,
            final(self).fields@.last().0@ == name@,
            final(self).fields@.last().1 is None,
    {
        self.fields.push((String::from_str(name), None));
        assert(self.fields@.subrange(0, old(self).fields@.len() as int) =~= old(self).fields@);
    }

    /// The text value of the first field named `key`, without regard to ASCII case.
    pub fn get(&self, key: &str) -> (r: Option<String>)
        ensures
            opt_str_view(r) == self.lookup(key@),
    {
        match assoc_find(&self.fields, key, true) {
            Some(Some(v)) => Some(v.clone()),
            _ => None,
        }
    }
}

} // verus!
