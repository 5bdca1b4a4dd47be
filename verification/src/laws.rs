//! What holds of loading and of lookups, whatever the table and the entries.
//!
//! The laws speak of [`TableModel`], the mathematical content of a table, and
//! of the entries that a load inserts: the terms in which the operations of
//! the table state what they do.

use crate::codons::{codons_of, distinct_codons, lemma_record_codons};
use crate::document::{
    distinct_amino_acids, distinct_codons_each, frequency_bits, recorded, usage_entry, UsageEntry,
};
use crate::json::{names_of, JsonModel};
use crate::model::TableModel;
use vstd::prelude::*;

verus! {

/// The amino acid that `entries` record for `codon`: that of the last entry
/// that lists the codon.
pub open spec fn recorded_translation(entries: Seq<UsageEntry>, codon: Seq<char>) -> Option<char>
    decreases entries.len(),
{
    if entries.len() == 0 {
        None
    } else if codons_of(entries.last().codons).contains(codon) {
        Some(entries.last().amino_acid)
    } else {
        recorded_translation(entries.drop_last(), codon)
    }
}

/// The codon list that `entries` record for `amino_acid`: that of the last
/// entry for the amino acid.
pub open spec fn recorded_usage(entries: Seq<UsageEntry>, amino_acid: char) -> Option<
    Seq<(Seq<char>, u64)>,
>
    decreases entries.len(),
{
    if entries.len() == 0 {
        None
    } else if entries.last().amino_acid == amino_acid {
        Some(entries.last().codons)
    } else {
        recorded_usage(entries.drop_last(), amino_acid)
    }
}

/// After a load, a codon that the entries record translates to the amino acid
/// recorded for it, and any other codon translates as it did before.
pub proof fn law_translation_after_load(
    table: TableModel,
    entries: Seq<UsageEntry>,
    codon: Seq<char>,
)
    ensures
        table.load(entries).translations_table.get(codon) == match recorded_translation(
            entries,
            codon,
        ) {
            Some(amino_acid) => Some(amino_acid),
            None => table.translations_table.get(codon),
        },
    decreases entries.len(),
{
    if entries.len() > 0 {
        law_translation_after_load(table, entries.drop_last(), codon);
    }
}

/// After a load, an amino acid that the entries record has the codon list
/// recorded for it, and any other amino acid has the list it had before. The
/// species stays.
pub proof fn law_usage_after_load(table: TableModel, entries: Seq<UsageEntry>, amino_acid: char)
    ensures
        table.load(entries).species == table.species,
        table.load(entries).codon_usage_table.get(amino_acid) == match recorded_usage(
            entries,
            amino_acid,
        ) {
            Some(codons) => Some(codons),
            None => table.codon_usage_table.get(amino_acid),
        },
    decreases entries.len(),
{
    if entries.len() > 0 {
        law_usage_after_load(table, entries.drop_last(), amino_acid);
    }
}

/// The amino acid recorded for a codon is that of the last entry that lists
/// it.
proof fn lemma_recorded_translation(entries: Seq<UsageEntry>, at: int, codon: Seq<char>)
    requires
        0 <= at < entries.len(),
        codons_of(entries[at].codons).contains(codon),
        forall|later: int|
            at < later < entries.len() ==> !codons_of((#[trigger] entries[later]).codons).contains(
                codon,
            ),
    ensures
        recorded_translation(entries, codon) == Some(entries[at].amino_acid),
    decreases entries.len(),
{
    if at < entries.len() - 1 {
        lemma_recorded_translation(entries.drop_last(), at, codon);
    }
}

/// A codon that was loaded translates to the amino acid under which the
/// entries list it: to that of entry `at`, where no later entry lists the
/// codon too.
pub proof fn law_loaded_codon_translates(
    table: TableModel,
    entries: Seq<UsageEntry>,
    at: int,
    codon: Seq<char>,
)
    requires
        0 <= at < entries.len(),
        codons_of(entries[at].codons).contains(codon),
        forall|later: int|
            at < later < entries.len() ==> !codons_of((#[trigger] entries[later]).codons).contains(
                codon,
            ),
    ensures
        table.load(entries).translations_table.get(codon) == Some(entries[at].amino_acid),
    decreases entries.len(),
{
    law_translation_after_load(table, entries, codon);
    lemma_recorded_translation(entries, at, codon);
}

/// A codon that the entries do not list translates after the load as it did
/// before. Loaded into an empty table, it has no translation.
pub proof fn law_absent_codon_stays_absent(
    table: TableModel,
    entries: Seq<UsageEntry>,
    codon: Seq<char>,
)
    requires
        forall|i: int|
            0 <= i < entries.len() ==> !codons_of((#[trigger] entries[i]).codons).contains(codon),
    ensures
        table.load(entries).translations_table.get(codon) == table.translations_table.get(codon),
        table.translations_table.dom().is_empty() ==> !table.load(
            entries,
        ).translations_table.contains_key(codon),
    decreases entries.len(),
{
    if entries.len() > 0 {
        law_absent_codon_stays_absent(table, entries.drop_last(), codon);
    }
}

/// The codons of the list that members build up are the names of the members.
proof fn lemma_recorded_codons(members: Seq<(Seq<char>, JsonModel)>, codon: Seq<char>)
    ensures
        codons_of(recorded(members)).contains(codon) <==> names_of(members).contains(codon),
    decreases members.len(),
{
    if members.len() > 0 {
        let rest = members.drop_last();
        let last = members.last();
        lemma_recorded_codons(rest, codon);
        lemma_recorded_codons(rest, last.0);
        lemma_record_codons(recorded(rest), last.0, frequency_bits(last.1).unwrap());
        let before = codons_of(recorded(rest));
        let after = codons_of(recorded(members));
        assert(names_of(members) =~= names_of(rest).push(last.0));
        assert(names_of(members)[members.len() - 1] == last.0);
        if names_of(rest).contains(codon) {
            let i = choose|i: int| 0 <= i < rest.len() && names_of(rest)[i] == codon;
            assert(names_of(members)[i] == codon);
        }
        if !before.contains(last.0) {
            assert(after[before.len() as int] == last.0);
            if before.contains(codon) {
                let i = choose|i: int| 0 <= i < before.len() && before[i] == codon;
                assert(after[i] == codon);
            }
        }
    }
}

/// The entry of an amino acid lists the codons that the usage document names
/// in the codon object of the amino acid, and no others. Its amino acid is
/// the one character of the member's name.
pub proof fn law_entry_lists_the_codons_named(
    name: Seq<char>,
    value: JsonModel,
    codon: Seq<char>,
)
    requires
        usage_entry(name, value) is Some,
    ensures
        usage_entry(name, value).unwrap().amino_acid == name[0],
        value.member(name) matches Some(JsonModel::Object(codons)) && (codons_of(
            usage_entry(name, value).unwrap().codons,
        ).contains(codon) <==> names_of(codons).contains(codon)),
{
    lemma_recorded_codons(value.member(name).unwrap()->Object_0, codon);
}

/// The synonyms of a codon that has a translation are the codons listed for
/// the amino acid it translates to, each of them once.
pub proof fn law_synonyms_of_translated_codon(table: TableModel, codon: Seq<char>)
    requires
        table.well_formed(),
        table.translations_table.contains_key(codon),
    ensures
        table.codon_usage_table.contains_key(table.translations_table[codon]),
        table.synonyms(codon) == codons_of(
            table.codon_usage_table[table.translations_table[codon]],
        ),
        table.synonyms(codon).no_duplicates(),
        table.consistent() ==> table.synonyms(codon).contains(codon),
{
}

/// A second load inserts over the first: to load one list of entries and
/// then another is to load the two lists as one.
pub proof fn law_loads_add_up(table: TableModel, first: Seq<UsageEntry>, second: Seq<UsageEntry>)
    ensures
        table.load(first).load(second) == table.load(first + second),
    decreases second.len(),
{
    if second.len() == 0 {
        assert(first + second =~= first);
    } else {
        law_loads_add_up(table, first, second.drop_last());
        assert((first + second).drop_last() =~= first + second.drop_last());
    }
}

/// Inserting an entry with distinct codons keeps a table well formed.
proof fn lemma_with_entry_well_formed(table: TableModel, entry: UsageEntry)
    requires
        table.well_formed(),
        distinct_codons(entry.codons),
    ensures
        table.with_entry(entry).well_formed(),
{
    let listed = codons_of(entry.codons);
    vstd::seq_lib::seq_to_set_is_finite(listed);
    assert(table.with_entry(entry).translations_table.dom()
        =~= table.translations_table.dom().union(listed.to_set()));
}

/// A load of entries with distinct codons each keeps a table well formed.
pub proof fn law_load_keeps_well_formed(table: TableModel, entries: Seq<UsageEntry>)
    requires
        table.well_formed(),
        distinct_codons_each(entries),
    ensures
        table.load(entries).well_formed(),
    decreases entries.len(),
{
    if entries.len() > 0 {
        let rest = entries.drop_last();
        law_load_keeps_well_formed(table, rest);
        lemma_with_entry_well_formed(table.load(rest), entries.last());
    }
}

/// An amino acid that a table holds after a load was held before it or is
/// the amino acid of an entry.
proof fn lemma_loaded_amino_acid(table: TableModel, entries: Seq<UsageEntry>, amino_acid: char)
    requires
        table.load(entries).codon_usage_table.contains_key(amino_acid),
    ensures
        table.codon_usage_table.contains_key(amino_acid) || exists|i: int|
            0 <= i < entries.len() && (#[trigger] entries[i]).amino_acid == amino_acid,
    decreases entries.len(),
{
    if entries.len() > 0 && entries.last().amino_acid != amino_acid {
        lemma_loaded_amino_acid(table, entries.drop_last(), amino_acid);
    }
}

/// The two mappings of a table agree after a load if they agreed before it,
/// the entries are for amino acids that the table did not hold, and no two of
/// them are for the same amino acid. So they agree in every table that was
/// loaded once, from a document that names no amino acid twice.
pub proof fn law_load_keeps_consistent(table: TableModel, entries: Seq<UsageEntry>)
    requires
        table.consistent(),
        table.new_to(entries),
        distinct_amino_acids(entries),
    ensures
        table.load(entries).consistent(),
    decreases entries.len(),
{
    if entries.len() > 0 {
        let rest = entries.drop_last();
        let entry = entries.last();
        let before = table.load(rest);
        law_load_keeps_consistent(table, rest);
        assert(!before.codon_usage_table.contains_key(entry.amino_acid)) by {
            if before.codon_usage_table.contains_key(entry.amino_acid) {
                lemma_loaded_amino_acid(table, rest, entry.amino_acid);
                assert(entries[entries.len() - 1] == entry);
                if !table.codon_usage_table.contains_key(entry.amino_acid) {
                    let i = choose|i: int|
                        0 <= i < rest.len() && (#[trigger] rest[i]).amino_acid
                            == entry.amino_acid;
                    assert(entries[i] == rest[i]);
                }
            }
        }
    }
}

/// Two amino acids with no codon in common, loaded into an empty table, give
/// as many translations as they have codons together. Each codon translates
/// to its own amino acid, and each amino acid keeps its own codons.
pub proof fn law_disjoint_amino_acids_add_up(
    species: Seq<char>,
    first: UsageEntry,
    second: UsageEntry,
)
    requires
        first.amino_acid != second.amino_acid,
        distinct_codons(first.codons),
        distinct_codons(second.codons),
        codons_of(first.codons).disjoint(codons_of(second.codons)),
    ensures
        ({
            let table = TableModel::empty(species).load(seq![first, second]);
            &&& table.translations_table.dom().finite()
            &&& table.translations_table.len() == first.codons.len() + second.codons.len()
            &&& table.codon_usage_table.dom() == set![first.amino_acid, second.amino_acid]
            &&& table.codon_usage_table[first.amino_acid] == first.codons
            &&& table.codon_usage_table[second.amino_acid] == second.codons
            &&& forall|codon: Seq<char>|
                #![trigger table.translations_table[codon]]
                codons_of(first.codons).contains(codon) ==> table.translations_table.get(codon)
                    == Some(first.amino_acid)
            &&& forall|codon: Seq<char>|
                #![trigger table.translations_table[codon]]
                codons_of(second.codons).contains(codon) ==> table.translations_table.get(codon)
                    == Some(second.amino_acid)
        }),
{
    let empty = TableModel::empty(species);
    let one = empty.with_entry(first);
    let table = one.with_entry(second);
    let first_codons = codons_of(first.codons);
    let second_codons = codons_of(second.codons);
    assert(seq![first, second].drop_last() =~= seq![first]);
    assert(seq![first].drop_last() =~= Seq::<UsageEntry>::empty());
    assert(empty.load(Seq::<UsageEntry>::empty()) == empty);
    assert(empty.load(seq![first]) == one);
    assert(table.translations_table.dom() =~= first_codons.to_set() + second_codons.to_set());
    vstd::seq_lib::seq_to_set_is_finite(first_codons);
    vstd::seq_lib::seq_to_set_is_finite(second_codons);
    first_codons.unique_seq_to_set();
    second_codons.unique_seq_to_set();
    vstd::set_lib::lemma_set_disjoint_lens(first_codons.to_set(), second_codons.to_set());
}

} // verus!
