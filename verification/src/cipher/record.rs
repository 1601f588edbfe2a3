//! The opaque value in which a cipher's public parameters are persisted.
//!
//! A record is an ordered list of named text fields: the content of a flat
//! object of strings. A backend writes its versioned metadata into one and
//! reads it back; the surrounding application stores the record in whatever
//! notation it likes. A record never holds key material.

use vstd::prelude::*;

verus! {

/// One named text field.
#[derive(Debug, PartialEq, Eq)]
pub struct MetadataField {
    pub name: String,
    pub value: String,
}

/// An ordered list of named text fields.
#[derive(Debug, PartialEq, Eq)]
pub struct MetadataRecord {
    pub fields: Vec<MetadataField>,
}

impl View for MetadataField {
    type V = (Seq<char>, Seq<char>);

    open spec fn view(&self) -> (Seq<char>, Seq<char>) {
        (self.name@, self.value@)
    }
}

impl View for MetadataRecord {
    type V = Seq<(Seq<char>, Seq<char>)>;

    open spec fn view(&self) -> Seq<(Seq<char>, Seq<char>)> {
        Seq::new(self.fields@.len(), |i: int| self.fields@[i]@)
    }
}

impl Clone for MetadataField {
    fn clone(&self) -> (copy: Self)
        ensures
            copy@ == self@,
    {
        MetadataField { name: self.name.clone(), value: self.value.clone() }
    }
}

impl Clone for MetadataRecord {
    fn clone(&self) -> (copy: Self)
        ensures
            copy@ == self@,
    {
        let mut fields: Vec<MetadataField> = Vec::new();
        let mut i: usize = 0;
        while i < self.fields.len()
            invariant
                i <= self.fields@.len(),
                fields@.len() == i,
                forall|j: int| 0 <= j < i ==> (#[trigger] fields@[j])@ == self.fields@[j]@,
            decreases self.fields@.len() - i,
        {
            let field = self.fields[i].clone();
            fields.push(field);
            i += 1;
        }
        let copy = MetadataRecord { fields };
        proof {
            assert(copy@ =~= self@);
        }
        copy
    }
}

/// The value of the first field called `name`, if there is one.
pub open spec fn field_value(fields: Seq<(Seq<char>, Seq<char>)>, name: Seq<char>) -> Option<
    Seq<char>,
>
    decreases fields.len(),
{
    if fields.len() == 0 {
        None
    } else if fields[0].0 == name {
        Some(fields[0].1)
    } else {
        field_value(fields.drop_first(), name)
    }
}

impl MetadataRecord {
    /// A record without fields.
    pub fn new() -> (record: MetadataRecord)
        ensures
            record@ == Seq::<(Seq<char>, Seq<char>)>::empty(),
    {
        MetadataRecord { fields: Vec::new() }
    }

    /// Appends a field after those already there.
    pub fn push(&mut self, name: &str, value: &str)
        ensures
            final(self)@ == old(self)@.push((name@, value@)),
    {
        self.fields.push(MetadataField { name: name.to_owned(), value: value.to_owned() });
    }

    /// The value of the first field called `name`, if there is one.
    pub fn get(&self, name: &str) -> (value: Option<String>)
        ensures
            match field_value(self@, name@) {
                Some(text) => value matches Some(v) && v@ == text,
                None => value is None,
            },
    {
        let wanted = name.to_owned();
        let mut i: usize = 0;
        proof {
            assert(self@.subrange(0, self@.len() as int) == self@);
        }
        while i < self.fields.len()
            invariant
                i <= self.fields@.len(),
                wanted@ == name@,
                field_value(self@, name@) == field_value(
                    self@.subrange(i as int, self@.len() as int),
                    name@,
                ),
            decreases self.fields@.len() - i,
        {
            let ghost rest = self@.subrange(i as int, self@.len() as int);
            proof {
                assert(rest[0] == self.fields@[i as int]@);
                assert(rest.drop_first() == self@.subrange(i + 1, self@.len() as int));
            }
            if self.fields[i].name == wanted {
                return Some(self.fields[i].value.clone());
            }
            i += 1;
        }
        None
    }
}

} // verus!
