//! The field set of a union: the fields of its member objects, collected in
//! member order into an order-preserving set without duplicates.

use crate::error::{CompileError, CompileErrorView};
use crate::field::{id_name, is_id_name};
use crate::schema::{FieldDefinition, FieldDefinitionView, SchemaCatalog, SchemaCatalogView};
use crate::text::str_eq;
use linked_hash_set::LinkedHashSet;
use std::collections::hash_map::RandomState;
use vstd::prelude::*;

verus! {

/// `linked_hash_set::LinkedHashSet`, a hash set that keeps its entries in
/// the order of their insertion. It is declared so that a set can be held
/// and handed to the functions below; nothing inside it is visible.
#[verifier::external_type_specification]
#[verifier::external_body]
#[verifier::reject_recursive_types(T)]
#[verifier::reject_recursive_types(S)]
pub struct ExLinkedHashSet<T, S>(LinkedHashSet<T, S>);

/// What a set of fields holds: its entries in the order in which they
/// were first inserted, oldest first. An entry is a field's name, its
/// scalar and its nullability.
pub uninterp spec fn entries(set: LinkedHashSet<(String, String, bool), RandomState>) -> Seq<
    (Seq<char>, Seq<char>, bool),
>;

/// `LinkedHashSet::new`: the set it returns has no entries.
#[verifier::external_body]
fn set_new() -> (set: LinkedHashSet<(String, String, bool), RandomState>)
    ensures
        entries(set) == Seq::<(Seq<char>, Seq<char>, bool)>::empty(),
{
    LinkedHashSet::new()
}

/// `LinkedHashSet::insert_if_absent`: an entry that the set does not hold
/// yet goes to the end of the order and the call returns `true`; for one
/// that it holds the set and its order stay as they are and the call
/// returns `false`. Entries are the same when their texts and flags are.
#[verifier::external_body]
fn set_insert_if_absent(
    set: &mut LinkedHashSet<(String, String, bool), RandomState>,
    entry: (String, String, bool),
) -> (fresh: bool)
    ensures
        fresh == !entries(*old(set)).contains((entry.0@, entry.1@, entry.2)),
        entries(*final(set)) == if fresh {
            entries(*old(set)).push((entry.0@, entry.1@, entry.2))
        } else {
            entries(*old(set))
        },
{
    set.insert_if_absent(entry)
}

/// `LinkedHashSet::pop_front`: takes the oldest entry out of the set and
/// returns it; of a set without entries it returns `None` and changes
/// nothing.
#[verifier::external_body]
fn set_pop_front(set: &mut LinkedHashSet<(String, String, bool), RandomState>) -> (first: Option<
    (String, String, bool),
>)
    ensures
        match first {
            None => entries(*old(set)).len() == 0 && entries(*final(set)) == entries(*old(set)),
            Some(e) => entries(*old(set)).len() > 0 && (e.0@, e.1@, e.2) == entries(*old(set))[0]
                && entries(*final(set)) == entries(*old(set)).drop_first(),
        },
{
    set.pop_front()
}

/// The set entry that stands for a field.
pub open spec fn entry_of(field: FieldDefinitionView) -> (Seq<char>, Seq<char>, bool) {
    (field.name, field.scalar, field.nullable)
}

/// The set entries that stand for fields, in their order.
pub open spec fn entries_of(fields: Seq<FieldDefinitionView>) -> Seq<(Seq<char>, Seq<char>, bool)> {
    fields.map_values(|f: FieldDefinitionView| entry_of(f))
}

/// The names of declared fields, in their order.
pub open spec fn names_of(fields: Seq<FieldDefinitionView>) -> Seq<Seq<char>> {
    fields.map_values(|f: FieldDefinitionView| f.name)
}

/// Whether no two of the fields have one name.
pub open spec fn distinct_names(fields: Seq<FieldDefinitionView>) -> bool {
    forall|i: int, j: int|
        0 <= i < j < fields.len() ==> (#[trigger] fields[i]).name != (#[trigger] fields[j]).name
}

/// The error for a field of `member` that differs from the field of its
/// name in an earlier member of `union_name`.
pub open spec fn inconsistent(
    union_name: Seq<char>,
    field: FieldDefinitionView,
    member: Seq<char>,
) -> CompileErrorView {
    CompileErrorView::InconsistentUnionFieldType { in_type: union_name, field: field.name, member }
}

/// The field set after one more field of `member`: unchanged where the set
/// holds the very field; an error where it holds another field of that
/// name; else the set with the field at its end.
pub open spec fn with_field(
    sofar: Seq<FieldDefinitionView>,
    field: FieldDefinitionView,
    union_name: Seq<char>,
    member: Seq<char>,
) -> Result<Seq<FieldDefinitionView>, CompileErrorView> {
    if sofar.contains(field) {
        Ok(sofar)
    } else if names_of(sofar).contains(field.name) {
        Err(inconsistent(union_name, field, member))
    } else {
        Ok(sofar.push(field))
    }
}

/// The field set after the fields of one member, taken in their order.
pub open spec fn with_fields(
    sofar: Seq<FieldDefinitionView>,
    fields: Seq<FieldDefinitionView>,
    union_name: Seq<char>,
    member: Seq<char>,
) -> Result<Seq<FieldDefinitionView>, CompileErrorView>
    decreases fields.len(),
{
    if fields.len() == 0 {
        Ok(sofar)
    } else {
        match with_fields(sofar, fields.drop_last(), union_name, member) {
            Err(e) => Err(e),
            Ok(set) => with_field(set, fields.last(), union_name, member),
        }
    }
}

/// The error for a member of `union_name` that the catalog does not hold.
pub open spec fn missing_member(union_name: Seq<char>, member: Seq<char>) -> CompileErrorView {
    CompileErrorView::MissingUnionMember { in_type: union_name, member }
}

/// The field set of a union: the fields of its members in member order,
/// each field at the place of its first occurrence. It is an error where a
/// member is not in the catalog, and where a later occurrence of a field
/// differs in scalar or nullability from the first.
pub open spec fn merged(
    catalog: SchemaCatalogView,
    members: Seq<Seq<char>>,
    union_name: Seq<char>,
) -> Result<Seq<FieldDefinitionView>, CompileErrorView>
    decreases members.len(),
{
    if members.len() == 0 {
        Ok(Seq::empty())
    } else {
        match merged(catalog, members.drop_last(), union_name) {
            Err(e) => Err(e),
            Ok(set) => if catalog.has_object(members.last()) {
                with_fields(set, catalog.fields_of(members.last()), union_name, members.last())
            } else {
                Err(missing_member(union_name, members.last()))
            },
        }
    }
}

/// The field that a union declares for a field of its set: every field is
/// nullable but `id`, which is required.
pub open spec fn synthesized_field(field: FieldDefinitionView) -> FieldDefinitionView {
    FieldDefinitionView {
        name: field.name,
        scalar: field.scalar,
        nullable: field.name != id_name(),
    }
}

/// The fields that a union declares for its field set, one for one.
pub open spec fn synthesized(fields: Seq<FieldDefinitionView>) -> Seq<FieldDefinitionView> {
    fields.map_values(|f: FieldDefinitionView| synthesized_field(f))
}

/// Whether one of the names is `name`.
fn contains_name(names: &Vec<String>, name: &str) -> (found: bool)
    ensures
        found == names.deep_view().contains(name@),
{
    let mut i: usize = 0;
    while i < names.len()
        invariant
            i <= names.len(),
            forall|k: int| 0 <= k < i ==> #[trigger] names.deep_view()[k] != name@,
        decreases names.len() - i,
    {
        if str_eq(names[i].as_str(), name) {
            assert(names.deep_view()[i as int] == name@);
            return true;
        }
        i += 1;
    }
    false
}

/// A field set holds a field just when its entries hold the field's entry.
proof fn lemma_entries_contain(sofar: Seq<FieldDefinitionView>, field: FieldDefinitionView)
    ensures
        entries_of(sofar).contains(entry_of(field)) == sofar.contains(field),
{
    if sofar.contains(field) {
        let i = choose|i: int| 0 <= i < sofar.len() && sofar[i] == field;
        assert(entries_of(sofar)[i] == entry_of(field));
    }
}

/// Adding a field to a set with distinct names keeps the names distinct.
proof fn lemma_with_field_distinct(
    sofar: Seq<FieldDefinitionView>,
    field: FieldDefinitionView,
    union_name: Seq<char>,
    member: Seq<char>,
)
    requires
        distinct_names(sofar),
    ensures
        with_field(sofar, field, union_name, member) matches Ok(set) ==> distinct_names(set),
{
    if !sofar.contains(field) && !names_of(sofar).contains(field.name) {
        let set = sofar.push(field);
        assert forall|i: int, j: int| 0 <= i < j < set.len() implies (#[trigger] set[i]).name != (
        #[trigger] set[j]).name by {
            if j == sofar.len() {
                assert(names_of(sofar)[i] == sofar[i].name);
            }
        }
    }
}

/// Collects the fields of a union's members into its field set and returns
/// the fields that the union declares for it.
pub fn merge_members(union_name: &str, members: &Vec<String>, catalog: &SchemaCatalog) -> (outcome:
    Result<Vec<FieldDefinition>, CompileError>)
    ensures
        match outcome {
            Ok(fields) => {
                &&& merged(catalog@, members.deep_view(), union_name@) matches Ok(set)
                &&& fields.deep_view() == synthesized(set)
                &&& distinct_names(set)
            },
            Err(e) => merged(catalog@, members.deep_view(), union_name@) == Err::<
                Seq<FieldDefinitionView>,
                CompileErrorView,
            >(e@),
        },
{
    let ghost names = members.deep_view();
    let mut set = set_new();
    let mut seen: Vec<String> = Vec::new();
    let ghost mut sofar: Seq<FieldDefinitionView> = Seq::empty();
    let mut i: usize = 0;
    while i < members.len()
        invariant
            i <= members.len(),
            names == members.deep_view(),
            merged(catalog@, names.take(i as int), union_name@) == Ok::<
                Seq<FieldDefinitionView>,
                CompileErrorView,
            >(sofar),
            entries(set) == entries_of(sofar),
            seen.deep_view() == names_of(sofar),
            distinct_names(sofar),
        decreases members.len() - i,
    {
        let member = members[i].as_str();
        proof {
            assert(names.take(i + 1).drop_last() =~= names.take(i as int));
        }
        let fields = match catalog.lookup(member) {
            None => {
                proof {
                    lemma_merged_error_stays(catalog@, names, union_name@, i + 1);
                }
                return Err(
                    CompileError::MissingUnionMember {
                        in_type: String::from_str(union_name),
                        member: String::from_str(member),
                    },
                );
            },
            Some(fields) => fields,
        };
        let ghost declared = fields.deep_view();
        let ghost start = sofar;
        let mut j: usize = 0;
        while j < fields.len()
            invariant
                j <= fields.len(),
                i < members.len(),
                names == members.deep_view(),
                names[i as int] == member@,
                catalog@.has_object(member@),
                declared == catalog@.fields_of(member@),
                merged(catalog@, names.take(i as int), union_name@) == Ok::<
                    Seq<FieldDefinitionView>,
                    CompileErrorView,
                >(start),
                declared == fields.deep_view(),
                with_fields(start, declared.take(j as int), union_name@, member@) == Ok::<
                    Seq<FieldDefinitionView>,
                    CompileErrorView,
                >(sofar),
                entries(set) == entries_of(sofar),
                seen.deep_view() == names_of(sofar),
                distinct_names(sofar),
            decreases fields.len() - j,
        {
            let field = &fields[j];
            let ghost before = sofar;
            let ghost seen_before = seen.deep_view();
            proof {
                assert(declared.take(j + 1).drop_last() =~= declared.take(j as int));
                lemma_entries_contain(before, field@);
                lemma_with_field_distinct(before, field@, union_name@, member@);
            }
            let fresh = set_insert_if_absent(
                &mut set,
                (field.name.clone(), field.scalar.clone(), field.nullable),
            );
            if fresh {
                if contains_name(&seen, field.name.as_str()) {
                    proof {
                        assert(names.take(i + 1).drop_last() =~= names.take(i as int));
                        lemma_with_fields_error_stays(
                            start,
                            declared,
                            union_name@,
                            member@,
                            j + 1,
                        );
                        lemma_merged_error_stays(catalog@, names, union_name@, i + 1);
                    }
                    return Err(
                        CompileError::InconsistentUnionFieldType {
                            in_type: String::from_str(union_name),
                            field: field.name.clone(),
                            member: String::from_str(member),
                        },
                    );
                }
                seen.push(field.name.clone());
                proof {
                    sofar = before.push(field@);
                    assert(seen.deep_view() =~= seen_before.push(field@.name));
                }
            }
            j += 1;
        }
        proof {
            assert(declared.take(fields.len() as int) =~= declared);
        }
        i += 1;
    }
    proof {
        assert(names.take(members.len() as int) =~= names);
    }
    let ghost all = sofar;
    let mut fields: Vec<FieldDefinition> = Vec::new();
    loop
        invariant
            merged(catalog@, members.deep_view(), union_name@) == Ok::<
                Seq<FieldDefinitionView>,
                CompileErrorView,
            >(all),
            distinct_names(all),
            entries(set) == entries_of(all.skip(fields.len() as int)),
            fields.len() <= all.len(),
            fields.deep_view() == synthesized(all.take(fields.len() as int)),
        decreases all.len() - fields.len(),
    {
        let ghost done = fields.len() as int;
        match set_pop_front(&mut set) {
            None => {
                return Ok(fields);
            },
            Some(entry) => {
                let nullable = !is_id_name(entry.0.as_str());
                fields.push(FieldDefinition { name: entry.0, scalar: entry.1, nullable });
                proof {
                    assert(synthesized(all.take(done + 1)) =~= synthesized(all.take(done)).push(
                        synthesized_field(all[done]),
                    ));
                }
            },
        }
    }
}

/// The fields of one member enter a field set with distinct names without
/// breaking them, and the set then holds each of them.
pub proof fn lemma_with_fields(
    sofar: Seq<FieldDefinitionView>,
    fields: Seq<FieldDefinitionView>,
    union_name: Seq<char>,
    member: Seq<char>,
)
    requires
        distinct_names(sofar),
        with_fields(sofar, fields, union_name, member) is Ok,
    ensures
        distinct_names(with_fields(sofar, fields, union_name, member)->Ok_0),
        forall|k: int|
            0 <= k < sofar.len() ==> with_fields(sofar, fields, union_name, member)->Ok_0.contains(
                #[trigger] sofar[k],
            ),
        forall|k: int|
            0 <= k < fields.len() ==> with_fields(sofar, fields, union_name, member)->Ok_0.contains(
                #[trigger] fields[k],
            ),
    decreases fields.len(),
{
    if fields.len() > 0 {
        let front = fields.drop_last();
        let set = with_fields(sofar, front, union_name, member)->Ok_0;
        let all = with_fields(sofar, fields, union_name, member)->Ok_0;
        lemma_with_fields(sofar, front, union_name, member);
        lemma_with_field_distinct(set, fields.last(), union_name, member);
        assert forall|x: FieldDefinitionView| set.contains(x) implies all.contains(x) by {
            let i = choose|i: int| 0 <= i < set.len() && set[i] == x;
            assert(all[i] == x);
        }
        if !set.contains(fields.last()) {
            assert(all[set.len() as int] == fields.last());
        }
        assert forall|k: int| 0 <= k < fields.len() implies all.contains(#[trigger] fields[k]) by {
            if k < front.len() {
                assert(front[k] == fields[k]);
            }
        }
    }
}

/// The field set of a union has no two fields of one name, and it holds
/// every field of every member as the member declares it: a field that
/// several members have has one scalar and one nullability in all of them.
pub proof fn lemma_merged(catalog: SchemaCatalogView, members: Seq<Seq<char>>, union_name: Seq<char>)
    requires
        merged(catalog, members, union_name) is Ok,
    ensures
        distinct_names(merged(catalog, members, union_name)->Ok_0),
        forall|m: int, k: int|
            #![trigger catalog.fields_of(members[m])[k]]
            0 <= m < members.len() && 0 <= k < catalog.fields_of(members[m]).len() ==> merged(
                catalog,
                members,
                union_name,
            )->Ok_0.contains(catalog.fields_of(members[m])[k]),
        forall|m: int| 0 <= m < members.len() ==> catalog.has_object(#[trigger] members[m]),
    decreases members.len(),
{
    if members.len() > 0 {
        let front = members.drop_last();
        let set = merged(catalog, front, union_name)->Ok_0;
        let all = merged(catalog, members, union_name)->Ok_0;
        let last = catalog.fields_of(members.last());
        lemma_merged(catalog, front, union_name);
        lemma_with_fields(set, last, union_name, members.last());
        assert forall|m: int, k: int|
            #![trigger catalog.fields_of(members[m])[k]]
            0 <= m < members.len() && 0 <= k < catalog.fields_of(
                members[m],
            ).len() implies all.contains(catalog.fields_of(members[m])[k]) by {
            if m < front.len() {
                assert(set.contains(catalog.fields_of(front[m])[k]));
            }
        }
        assert forall|m: int| 0 <= m < members.len() implies catalog.has_object(
            #[trigger] members[m],
        ) by {
            if m < front.len() {
                assert(front[m] == members[m]);
            }
        }
    }
}

/// Once the fields of a member have met an error, further fields keep it.
proof fn lemma_with_fields_error_stays(
    sofar: Seq<FieldDefinitionView>,
    fields: Seq<FieldDefinitionView>,
    union_name: Seq<char>,
    member: Seq<char>,
    upto: int,
)
    requires
        0 <= upto <= fields.len(),
        with_fields(sofar, fields.take(upto), union_name, member) is Err,
    ensures
        with_fields(sofar, fields, union_name, member) == with_fields(
            sofar,
            fields.take(upto),
            union_name,
            member,
        ),
    decreases fields.len() - upto,
{
    if upto < fields.len() {
        assert(fields.take(upto + 1).drop_last() =~= fields.take(upto));
        lemma_with_fields_error_stays(sofar, fields, union_name, member, upto + 1);
    } else {
        assert(fields.take(upto) =~= fields);
    }
}

/// Once the members of a union have met an error, further members keep it.
proof fn lemma_merged_error_stays(
    catalog: SchemaCatalogView,
    members: Seq<Seq<char>>,
    union_name: Seq<char>,
    upto: int,
)
    requires
        0 <= upto <= members.len(),
        merged(catalog, members.take(upto), union_name) is Err,
    ensures
        merged(catalog, members, union_name) == merged(catalog, members.take(upto), union_name),
    decreases members.len() - upto,
{
    if upto < members.len() {
        assert(members.take(upto + 1).drop_last() =~= members.take(upto));
        lemma_merged_error_stays(catalog, members, union_name, upto + 1);
    } else {
        assert(members.take(upto) =~= members);
    }
}

} // verus!
