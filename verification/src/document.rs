//! The usage document: the JSON shape in which a codon usage table is stored.
//!
//! The document is an object with one member for each amino acid, named by the
//! amino acid's one-character code. The member's value is an object that
//! holds, under that same name once more, the object of the amino acid's
//! codons: each codon with its usage frequency, a number.

use crate::codons::{distinct_codons, lemma_record_distinct, record, record_codon};
use crate::json::{lemma_object_view, members_model, names_of, JsonModel, JsonValue};
use vstd::prelude::*;

verus! {

/// What a usage document says of one amino acid, as mathematical data.
pub struct UsageEntry {
    pub amino_acid: char,
    /// The codons of the amino acid, each with the bits of its frequency.
    pub codons: Seq<(Seq<char>, u64)>,
}

/// What a usage document says of one amino acid.
#[derive(Debug, PartialEq, Eq)]
pub struct AminoAcidUsage {
    pub amino_acid: char,
    /// The codons of the amino acid, each with the bits of its frequency.
    pub codons: Vec<(String, u64)>,
}

impl DeepView for AminoAcidUsage {
    type V = UsageEntry;

    open spec fn deep_view(&self) -> UsageEntry {
        UsageEntry { amino_acid: self.amino_acid, codons: self.codons.deep_view() }
    }
}

/// The bits of the frequency that `value` gives, where it is a number that
/// has them.
pub open spec fn frequency_bits(value: JsonModel) -> Option<u64> {
    match value {
        JsonModel::Number(bits) => bits,
        _ => None,
    }
}

/// The codon list that `members` build up when each is recorded in turn, its
/// name as the codon and its number as the frequency.
pub open spec fn recorded(members: Seq<(Seq<char>, JsonModel)>) -> Seq<(Seq<char>, u64)>
    decreases members.len(),
{
    if members.len() == 0 {
        Seq::empty()
    } else {
        record(
            recorded(members.drop_last()),
            members.last().0,
            frequency_bits(members.last().1).unwrap(),
        )
    }
}

/// The codon list that the members of a codon object give; `None` where the
/// value of a member is not a frequency.
pub open spec fn frequencies(members: Seq<(Seq<char>, JsonModel)>) -> Option<
    Seq<(Seq<char>, u64)>,
> {
    if forall|i: int| 0 <= i < members.len() ==> frequency_bits((#[trigger] members[i]).1) is Some {
        Some(recorded(members))
    } else {
        None
    }
}

/// What the member of a usage document that is called `name` and has the
/// value `value` says. It is `Some` where `name` is one character, `value`
/// holds an object under `name`, and every member of that object is a
/// frequency.
pub open spec fn usage_entry(name: Seq<char>, value: JsonModel) -> Option<UsageEntry> {
    if name.len() == 1 {
        match value.member(name) {
            Some(JsonModel::Object(codons)) => match frequencies(codons) {
                Some(list) => Some(UsageEntry { amino_acid: name[0], codons: list }),
                None => None,
            },
            _ => None,
        }
    } else {
        None
    }
}

/// What a JSON document says as a usage document: the entries of its members,
/// in order. It is `None` where the document is no object, or one of its
/// members has no entry.
pub open spec fn usage_entries(document: JsonModel) -> Option<Seq<UsageEntry>> {
    match document {
        JsonModel::Object(members) => {
            if forall|i: int|
                0 <= i < members.len() ==> usage_entry(
                    (#[trigger] members[i]).0,
                    members[i].1,
                ) is Some {
                Some(
                    members.map_values(
                        |member: (Seq<char>, JsonModel)| usage_entry(member.0, member.1).unwrap(),
                    ),
                )
            } else {
                None
            }
        },
        _ => None,
    }
}

/// No two of `entries` are for the same amino acid.
pub open spec fn distinct_amino_acids(entries: Seq<UsageEntry>) -> bool {
    forall|i: int, j: int|
        0 <= i < j < entries.len() ==> (#[trigger] entries[i]).amino_acid != (
        #[trigger] entries[j]).amino_acid
}

/// Every one of `entries` has distinct codons.
pub open spec fn distinct_codons_each(entries: Seq<UsageEntry>) -> bool {
    forall|i: int| 0 <= i < entries.len() ==> distinct_codons((#[trigger] entries[i]).codons)
}

/// The codon list that members build up holds no codon twice.
pub proof fn lemma_recorded_distinct(members: Seq<(Seq<char>, JsonModel)>)
    ensures
        distinct_codons(recorded(members)),
    decreases members.len(),
{
    if members.len() > 0 {
        lemma_recorded_distinct(members.drop_last());
        lemma_record_distinct(
            recorded(members.drop_last()),
            members.last().0,
            frequency_bits(members.last().1).unwrap(),
        );
    }
}

/// The entries of a usage document have distinct codons each. Where no two
/// members of the document share a name, no two entries share an amino acid.
pub proof fn lemma_usage_entries(document: JsonModel)
    requires
        usage_entries(document) is Some,
    ensures
        distinct_codons_each(usage_entries(document).unwrap()),
        document.distinct_names() ==> distinct_amino_acids(usage_entries(document).unwrap()),
{
    let members = document->Object_0;
    let entries = usage_entries(document).unwrap();
    assert forall|i: int| 0 <= i < entries.len() implies distinct_codons(
        (#[trigger] entries[i]).codons,
    ) by {
        let found = members[i].1.member(members[i].0).unwrap();
        lemma_recorded_distinct(found->Object_0);
    }
    if document.distinct_names() {
        assert forall|i: int, j: int| 0 <= i < j < entries.len() implies (
        #[trigger] entries[i]).amino_acid != (#[trigger] entries[j]).amino_acid by {
            let first = members[i].0;
            let second = members[j].0;
            assert(names_of(members)[i] == first && names_of(members)[j] == second);
            if first[0] == second[0] {
                assert(first =~= second);
            }
        }
    }
}

/// Reads the members of a codon object.
fn read_frequencies(members: &Vec<(String, JsonValue)>) -> (read: Option<Vec<(String, u64)>>)
    ensures
        match read {
            Some(list) => frequencies(members_model(members@)) == Some(list.deep_view()),
            None => frequencies(members_model(members@)) is None,
        },
{
    let ghost model = members_model(members@);
    let mut list: Vec<(String, u64)> = Vec::new();
    let mut i: usize = 0;
    while i < members.len()
        invariant
            i <= members.len(),
            model == members_model(members@),
            list.deep_view() == recorded(model.take(i as int)),
            forall|j: int| 0 <= j < i ==> frequency_bits((#[trigger] model[j]).1) is Some,
        decreases members.len() - i,
    {
        proof {
            let upto = model.take(i + 1);
            assert(upto.last() == model[i as int]);
            assert(upto.drop_last() =~= model.take(i as int));
        }
        match &members[i].1 {
            JsonValue::Number(Some(bits)) => {
                record_codon(&mut list, members[i].0.clone(), *bits);
            },
            _ => return None,
        }
        i += 1;
    }
    assert(model.take(i as int) =~= model);
    Some(list)
}

/// Reads one member of a usage document.
fn read_usage_entry(name: &String, value: &JsonValue) -> (read: Option<AminoAcidUsage>)
    ensures
        match read {
            Some(entry) => usage_entry(name@, value@) == Some(entry.deep_view()),
            None => usage_entry(name@, value@) is None,
        },
{
    if name.as_str().unicode_len() != 1 {
        return None;
    }
    let amino_acid = name.as_str().get_char(0);
    match value.member(name) {
        Some(JsonValue::Object(codons)) => {
            proof {
                lemma_object_view(*codons);
            }
            match read_frequencies(codons) {
                Some(list) => Some(AminoAcidUsage { amino_acid, codons: list }),
                None => None,
            }
        },
        _ => None,
    }
}

/// Reads a JSON document as a usage document. Returns its entries, or `None`
/// where the document has not the shape of one.
pub fn read_usage_document(document: &JsonValue) -> (read: Option<Vec<AminoAcidUsage>>)
    ensures
        match read {
            Some(entries) => usage_entries(document@) == Some(entries.deep_view()),
            None => usage_entries(document@) is None,
        },
{
    match document {
        JsonValue::Object(members) => {
            let ghost model = members_model(members@);
            proof {
                lemma_object_view(*members);
            }
            let mut entries: Vec<AminoAcidUsage> = Vec::new();
            let mut i: usize = 0;
            while i < members.len()
                invariant
                    i <= members.len(),
                    model == members_model(members@),
                    document@ == JsonModel::Object(model),
                    entries.len() == i,
                    forall|j: int|
                        0 <= j < i ==> usage_entry((#[trigger] model[j]).0, model[j].1) == Some(
                            entries@[j].deep_view(),
                        ),
                decreases members.len() - i,
            {
                assert(model[i as int] == (members@[i as int].0@, members@[i as int].1@));
                match read_usage_entry(&members[i].0, &members[i].1) {
                    Some(entry) => entries.push(entry),
                    None => return None,
                }
                i += 1;
            }
            Some(entries)
        },
        _ => None,
    }
}

} // verus!
