//! The interchange form of a record: its values under the names of their
//! fields. The caller writes the members out as text and reads them back;
//! the entity says which members make a record.

use crate::entity::mismatch;
use crate::error::RecordError;
use crate::field::FieldDescriptorView;
use crate::object::{EntityDescriptorView, ObjectDecoder};
use crate::scalar::{Value, ValueView};
use crate::text::str_eq;
use vstd::prelude::*;

verus! {

/// Whether `index` is the first member under `name`.
pub open spec fn is_first_member(
    members: Seq<(Seq<char>, ValueView)>,
    name: Seq<char>,
    index: int,
) -> bool {
    &&& 0 <= index < members.len()
    &&& members[index].0 == name
    &&& forall|j: int| 0 <= j < index ==> (#[trigger] members[j]).0 != name
}

/// The value of the first member under `name`, if there is one.
pub open spec fn member_named(members: Seq<(Seq<char>, ValueView)>, name: Seq<char>) -> Option<
    ValueView,
> {
    if exists|i: int| is_first_member(members, name, i) {
        Some(members[choose|i: int| is_first_member(members, name, i)].1)
    } else {
        None
    }
}

/// Whether no two of the fields have one name.
pub open spec fn distinct_fields(fields: Seq<FieldDescriptorView>) -> bool {
    forall|i: int, j: int|
        0 <= i < j < fields.len() ==> (#[trigger] fields[i]).name != (#[trigger] fields[j]).name
}

impl EntityDescriptorView {
    /// The members of a record: each value under the name of its field, in
    /// field order.
    pub open spec fn members_of(self, record: Seq<ValueView>) -> Seq<(Seq<char>, ValueView)> {
        Seq::new(self.fields.len(), |i: int| (self.fields[i].name, record[i]))
    }

    /// The members of a record, or the error for a record that is not
    /// valid.
    pub open spec fn to_members(self, record: Seq<ValueView>) -> Result<
        Seq<(Seq<char>, ValueView)>,
        RecordError,
    > {
        if self.accepts(record) {
            Ok(self.members_of(record))
        } else {
            Err(mismatch(self.fields, record))
        }
    }

    /// What the field at a position reads out of members: the value of the
    /// first member under the field's name, where it is within the field's
    /// value space.
    pub open spec fn member_read(self, members: Seq<(Seq<char>, ValueView)>, i: int) -> Result<
        ValueView,
        RecordError,
    > {
        match member_named(members, self.fields[i].name) {
            None => Err(RecordError::MissingMember { position: i as usize }),
            Some(value) => if self.fields[i].scalar.repr().admits(value) {
                Ok(value)
            } else {
                Err(RecordError::ValueMismatch { position: i as usize })
            },
        }
    }

    /// Whether `index` is the first field that reads no value out of members.
    pub open spec fn is_first_unread(self, members: Seq<(Seq<char>, ValueView)>, index: int) -> bool {
        &&& 0 <= index < self.fields.len()
        &&& self.member_read(members, index) is Err
        &&& forall|j: int| 0 <= j < index ==> #[trigger] self.member_read(members, j) is Ok
    }

    /// The record that members make: for each field the value of the member
    /// under its name; members under other names are passed over. It is the
    /// error of the first field that reads no value.
    pub open spec fn from_members(self, members: Seq<(Seq<char>, ValueView)>) -> Result<
        Seq<ValueView>,
        RecordError,
    > {
        if forall|i: int| 0 <= i < self.fields.len() ==> #[trigger] self.member_read(members, i) is Ok {
            Ok(Seq::new(self.fields.len(), |i: int| self.member_read(members, i)->Ok_0))
        } else {
            Err(self.member_read(members, choose|i: int| self.is_first_unread(members, i))->Err_0)
        }
    }
}

/// Finds the value of the first member under a name.
fn find_member<'a>(members: &'a Vec<(String, Value)>, name: &str) -> (found: Option<&'a Value>)
    ensures
        match found {
            Some(value) => member_named(members.deep_view(), name@) == Some(value@),
            None => member_named(members.deep_view(), name@) is None,
        },
{
    let mut i: usize = 0;
    while i < members.len()
        invariant
            i <= members.len(),
            forall|j: int| 0 <= j < i ==> (#[trigger] members.deep_view()[j]).0 != name@,
        decreases members.len() - i,
    {
        if str_eq(members[i].0.as_str(), name) {
            proof {
                assert(is_first_member(members.deep_view(), name@, i as int));
            }
            return Some(&members[i].1);
        }
        i += 1;
    }
    None
}

impl ObjectDecoder {
    /// Names the values of a record: one member per field, in field order.
    pub fn to_members(&self, record: &Vec<Value>) -> (members: Result<
        Vec<(String, Value)>,
        RecordError,
    >)
        ensures
            match members {
                Ok(named) => self@.to_members(record.deep_view()) == Ok::<
                    Seq<(Seq<char>, ValueView)>,
                    RecordError,
                >(named.deep_view()),
                Err(e) => self@.to_members(record.deep_view()) == Err::<
                    Seq<(Seq<char>, ValueView)>,
                    RecordError,
                >(e),
            },
    {
        let fields = self.fields();
        let ghost view = self@;
        let ghost values = record.deep_view();
        match self.to_row(record) {
            Err(e) => {
                return Err(e);
            },
            Ok(_) => {},
        }
        let mut named: Vec<(String, Value)> = Vec::new();
        let mut i: usize = 0;
        while i < fields.len()
            invariant
                i <= fields.len(),
                view == self@,
                values == record.deep_view(),
                view.accepts(values),
                fields.deep_view() == view.fields,
                named.deep_view() == view.members_of(values).take(i as int),
            decreases fields.len() - i,
        {
            let ghost before = named.deep_view();
            named.push((fields[i].name.clone(), record[i].clone()));
            proof {
                assert(named.deep_view() =~= before.push(view.members_of(values)[i as int]));
            }
            i += 1;
        }
        proof {
            assert(view.members_of(values).take(i as int) =~= view.members_of(values));
        }
        Ok(named)
    }

    /// Makes a record of named values: for each field the value of the
    /// first member under the field's name.
    pub fn from_members(&self, members: &Vec<(String, Value)>) -> (record: Result<
        Vec<Value>,
        RecordError,
    >)
        ensures
            match record {
                Ok(values) => self@.from_members(members.deep_view()) == Ok::<
                    Seq<ValueView>,
                    RecordError,
                >(values.deep_view()),
                Err(e) => self@.from_members(members.deep_view()) == Err::<
                    Seq<ValueView>,
                    RecordError,
                >(e),
            },
    {
        let fields = self.fields();
        let ghost view = self@;
        let ghost named = members.deep_view();
        let ghost whole = Seq::new(view.fields.len(), |k: int| view.member_read(named, k)->Ok_0);
        let mut values: Vec<Value> = Vec::new();
        let mut i: usize = 0;
        while i < fields.len()
            invariant
                i <= fields.len(),
                view == self@,
                named == members.deep_view(),
                fields.deep_view() == view.fields,
                whole == Seq::new(view.fields.len(), |k: int| view.member_read(named, k)->Ok_0),
                values.deep_view() == whole.take(i as int),
                forall|k: int| 0 <= k < i ==> #[trigger] view.member_read(named, k) is Ok,
            decreases fields.len() - i,
        {
            let ghost before = values.deep_view();
            let value = match find_member(members, fields[i].name.as_str()) {
                None => {
                    proof {
                        assert(view.is_first_unread(named, i as int));
                    }
                    return Err(RecordError::MissingMember { position: i });
                },
                Some(value) => value,
            };
            if !fields[i].scalar.native_repr().accepts(value) {
                proof {
                    assert(view.is_first_unread(named, i as int));
                }
                return Err(RecordError::ValueMismatch { position: i });
            }
            values.push(value.clone());
            proof {
                assert(values.deep_view() =~= before.push(view.member_read(named, i as int)->Ok_0));
            }
            i += 1;
        }
        proof {
            assert(whole.take(i as int) =~= whole);
        }
        Ok(values)
    }
}

/// Round trip through the interchange form: the members of a valid record
/// of an entity whose fields have distinct names make that record again.
pub proof fn lemma_members_round_trip(entity: EntityDescriptorView, record: Seq<ValueView>)
    requires
        entity.accepts(record),
        distinct_fields(entity.fields),
    ensures
        entity.from_members(entity.members_of(record)) == Ok::<Seq<ValueView>, RecordError>(record),
{
    let members = entity.members_of(record);
    assert forall|i: int| 0 <= i < entity.fields.len() implies #[trigger] entity.member_read(
        members,
        i,
    ) == Ok::<ValueView, RecordError>(record[i]) by {
        assert(is_first_member(members, entity.fields[i].name, i));
    }
    assert(Seq::new(entity.fields.len(), |i: int| entity.member_read(members, i)->Ok_0) =~= record);
}

} // verus!
