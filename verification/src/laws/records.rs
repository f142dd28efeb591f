//! Laws of the records that the JavaScript side answers with.

use vstd::prelude::*;
use vstd::string::*;

#[allow(unused_imports)]
use crate::json::{json_of, jsons, parsed_array, parsed_value, Json, JsonScalar};
#[allow(unused_imports)]
use crate::wasm_vfs::{
    entries_of_values, entry_from_fields, entry_view, entry_views, list_dir, record_entries,
    record_entry, record_stat, stat, stat_from_fields, VfsDirEntry, VfsStat,
};

verus! {

/// A value stands for a record exactly when it is an object with the members
/// `size`, `is_dir` and `modified`.
pub proof fn law_what_is_a_record(value: Json)
    ensures
        record_stat(value) is Some <==> {
            &&& value is Object
            &&& value->Object_0.contains_key("size"@)
            &&& value->Object_0.contains_key("is_dir"@)
            &&& value->Object_0.contains_key("modified"@)
        },
{
}

/// A record has the values of its members: a size or a time that is no
/// unsigned number counts as zero, and what is not said to be a directory is
/// none.
pub proof fn law_record_reads_its_members(fields: Map<Seq<char>, Json>, record: VfsStat)
    requires
        record_stat(Json::Object(fields)) == Some(record),
    ensures
        fields["size"@] matches Json::Number(Some(n)) ==> record.0 == n,
        fields["size"@] == Json::Number(None) || !(fields["size"@] is Number) ==> record.0 == 0,
        record.1 <==> fields["is_dir"@] == Json::Flag(true),
        fields["modified"@] matches Json::Number(Some(n)) ==> record.2 == n,
        fields["modified"@] == Json::Number(None) || !(fields["modified"@] is Number) ==> record.2
            == 0,
{
}

/// A value stands for a directory entry exactly when it stands for a record and
/// has a member `name` that is a text. The entry has that name and agrees with
/// the record in all else.
pub proof fn law_entry_agrees_with_its_record(value: Json)
    ensures
        record_entry(value) is Some <==> {
            &&& record_stat(value) is Some
            &&& value->Object_0.contains_key("name"@)
            &&& value->Object_0["name"@] is Text
        },
        record_entry(value) matches Some(e) ==> {
            &&& record_stat(value) == Some((e.size, e.is_dir, e.modified))
            &&& value->Object_0["name"@] == Json::Text(e.name)
        },
{
}

/// The entries of two lists of values, one behind the other, are the entries of
/// the one and those of the other.
pub proof fn law_entries_concatenate(a: Seq<Json>, b: Seq<Json>)
    ensures
        record_entries(a + b) == record_entries(a) + record_entries(b),
    decreases b.len(),
{
    if b.len() == 0 {
        assert(a + b =~= a);
        assert(record_entries(a) + record_entries(b) =~= record_entries(a));
    } else {
        law_entries_concatenate(a, b.drop_last());
        assert((a + b).drop_last() =~= a + b.drop_last());
        assert(record_entries(a + b) =~= record_entries(a) + record_entries(b));
    }
}

/// A single value gives its entry, if it stands for one, and nothing else.
pub proof fn law_entries_of_one_value(value: Json)
    ensures
        record_entry(value) matches Some(e) ==> record_entries(seq![value]) == seq![e],
        record_entry(value) is None ==> record_entries(seq![value]).len() == 0,
{
    assert(seq![value].drop_last() =~= Seq::<Json>::empty());
    assert(record_entries(Seq::<Json>::empty()) =~= Seq::empty());
    reveal_with_fuel(record_entries, 2);
}

/// Whether every value is an object with the members of a directory entry, the
/// name a text.
pub open spec fn all_entries(values: Seq<Json>) -> bool {
    forall|i: int| 0 <= i < values.len() ==> is_entry(#[trigger] values[i])
}

/// Whether the value is an object with the members of a directory entry, the
/// name a text.
pub open spec fn is_entry(value: Json) -> bool {
    &&& value is Object
    &&& value->Object_0.contains_key("size"@)
    &&& value->Object_0.contains_key("is_dir"@)
    &&& value->Object_0.contains_key("modified"@)
    &&& value->Object_0.contains_key("name"@)
    &&& value->Object_0["name"@] is Text
}

proof fn lemma_all_entries(values: Seq<Json>)
    requires
        all_entries(values),
    ensures
        record_entries(values).len() == values.len(),
        forall|i: int|
            0 <= i < values.len() ==> Some(#[trigger] record_entries(values)[i]) == record_entry(
                values[i],
            ),
    decreases values.len(),
{
    if values.len() > 0 {
        assert(is_entry(values.last()));
        assert forall|i: int| 0 <= i < values.len() - 1 implies is_entry(
            #[trigger] values.drop_last()[i],
        ) by {
            assert(is_entry(values[i]));
        }
        lemma_all_entries(values.drop_last());
        assert forall|i: int| 0 <= i < values.len() implies Some(
            #[trigger] record_entries(values)[i],
        ) == record_entry(values[i]) by {
            if i < values.len() - 1 {
                assert(record_entries(values)[i] == record_entries(values.drop_last())[i]);
            }
        }
    }
}

/// Where every value is an entry, the listing has one entry for each of them,
/// in their order. Each has the name of its value, is a directory exactly when
/// its value says so, and has the size and the time of its value.
pub proof fn law_listing_reads_every_value(
    values: Vec<serde_json::Value>,
    listing: Vec<VfsDirEntry>,
)
    requires
        call_ensures(entries_of_values, (&values,), listing),
        all_entries(jsons(values@)),
    ensures
        listing@.len() == values@.len(),
        forall|i: int|
            0 <= i < values@.len() ==> {
                let fields = json_of(values@[i])->Object_0;
                let entry = #[trigger] listing@[i];
                &&& fields["name"@] == Json::Text(entry.0@)
                &&& entry.2 <==> fields["is_dir"@] == Json::Flag(true)
                &&& fields["size"@] matches Json::Number(Some(n)) ==> entry.1 == n
                &&& fields["modified"@] matches Json::Number(Some(n)) ==> entry.3 == n
            },
{
    let all = jsons(values@);
    lemma_all_entries(all);
    assert(entry_views(listing@).len() == listing@.len());
    assert forall|i: int| 0 <= i < values@.len() implies {
        let fields = json_of(values@[i])->Object_0;
        let entry = #[trigger] listing@[i];
        &&& fields["name"@] == Json::Text(entry.0@)
        &&& entry.2 <==> fields["is_dir"@] == Json::Flag(true)
        &&& fields["size"@] matches Json::Number(Some(n)) ==> entry.1 == n
        &&& fields["modified"@] matches Json::Number(Some(n)) ==> entry.3 == n
    } by {
        assert(all[i] == json_of(values@[i]));
        assert(is_entry(all[i]));
        assert(entry_views(listing@)[i] == entry_view(listing@[i]));
        assert(Some(record_entries(all)[i]) == record_entry(all[i]));
        law_entry_agrees_with_its_record(all[i]);
    }
}

/// A text that holds an array of entries is a listing of them; what is no text
/// or holds no array is no listing.
pub proof fn law_listing_of_a_reply(
    reply: Option<String>,
    listing: Option<Vec<VfsDirEntry>>,
)
    requires
        call_ensures(list_dir, (reply,), listing),
    ensures
        listing is Some <==> reply is Some && parsed_array(reply->0@) is Some,
        listing is Some && all_entries(parsed_array(reply->0@)->0) ==> {
            let values = parsed_array(reply->0@)->0;
            &&& listing->0@.len() == values.len()
            &&& forall|i: int|
                0 <= i < values.len() ==> {
                    let fields = values[i]->Object_0;
                    let entry = #[trigger] listing->0@[i];
                    &&& fields["name"@] == Json::Text(entry.0@)
                    &&& entry.2 <==> fields["is_dir"@] == Json::Flag(true)
                    &&& fields["size"@] matches Json::Number(Some(n)) ==> entry.1 == n
                    &&& fields["modified"@] matches Json::Number(Some(n)) ==> entry.3 == n
                }
        },
{
    if listing is Some && all_entries(parsed_array(reply->0@)->0) {
        let values = parsed_array(reply->0@)->0;
        lemma_all_entries(values);
        let entries = listing->0@;
        assert(entry_views(entries).len() == entries.len());
        assert forall|i: int| 0 <= i < values.len() implies {
            let fields = values[i]->Object_0;
            let entry = #[trigger] entries[i];
            &&& fields["name"@] == Json::Text(entry.0@)
            &&& entry.2 <==> fields["is_dir"@] == Json::Flag(true)
            &&& fields["size"@] matches Json::Number(Some(n)) ==> entry.1 == n
            &&& fields["modified"@] matches Json::Number(Some(n)) ==> entry.3 == n
        } by {
            assert(is_entry(values[i]));
            assert(entry_views(entries)[i] == entry_view(entries[i]));
            assert(Some(record_entries(values)[i]) == record_entry(values[i]));
            law_entry_agrees_with_its_record(values[i]);
        }
    }
}

/// The record of a reply reads the members of the object that the text holds.
/// There is none exactly where there is no text, no JSON in it, or a member is
/// missing.
pub proof fn law_record_of_a_reply(reply: Option<String>, record: Option<VfsStat>)
    requires
        call_ensures(stat, (reply,), record),
    ensures
        record is Some <==> {
            &&& reply is Some
            &&& parsed_value(reply->0@) is Some
            &&& parsed_value(reply->0@)->0 is Object
            &&& parsed_value(reply->0@)->0->Object_0.contains_key("size"@)
            &&& parsed_value(reply->0@)->0->Object_0.contains_key("is_dir"@)
            &&& parsed_value(reply->0@)->0->Object_0.contains_key("modified"@)
        },
        record matches Some(found) ==> {
            let fields = parsed_value(reply->0@)->0->Object_0;
            &&& found.1 <==> fields["is_dir"@] == Json::Flag(true)
            &&& fields["size"@] matches Json::Number(Some(n)) ==> found.0 == n
            &&& fields["modified"@] matches Json::Number(Some(n)) ==> found.2 == n
            &&& !(fields["size"@] is Number) ==> found.0 == 0
            &&& !(fields["modified"@] is Number) ==> found.2 == 0
        },
{
}

/// An entry is made of a name that is a text and a record, and of nothing less.
pub proof fn law_entry_of_its_parts(
    name: Option<JsonScalar>,
    record: Option<VfsStat>,
    r: Option<VfsDirEntry>,
)
    requires
        call_ensures(entry_from_fields, (name, record), r),
    ensures
        r is Some <==> name is Some && name->0 is Text && record is Some,
        r matches Some(entry) ==> {
            &&& name->0->Text_0@ == entry.0@
            &&& record == Some((entry.1, entry.2, entry.3))
        },
{
}

/// A record is made of all three members, whatever they are: a number counts as
/// it is, and only what is said to be a directory is one.
pub proof fn law_record_of_its_parts(
    size: Option<JsonScalar>,
    is_dir: Option<JsonScalar>,
    modified: Option<JsonScalar>,
    r: Option<VfsStat>,
)
    requires
        call_ensures(stat_from_fields, (size, is_dir, modified), r),
    ensures
        r is Some <==> size is Some && is_dir is Some && modified is Some,
        r matches Some(record) ==> {
            &&& size->0 matches JsonScalar::Unsigned(n) ==> record.0 == n
            &&& !(size->0 is Unsigned) ==> record.0 == 0
            &&& record.1 <==> is_dir->0 == JsonScalar::Flag(true)
            &&& modified->0 matches JsonScalar::Unsigned(n) ==> record.2 == n
            &&& !(modified->0 is Unsigned) ==> record.2 == 0
        },
{
}

} // verus!
