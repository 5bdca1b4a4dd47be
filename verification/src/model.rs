//! The mathematical content of a codon usage table: what a table holds, what
//! a load makes of it, and what its lookups answer.

use crate::codons::{codons_of, distinct_codons};
use crate::document::UsageEntry;
use vstd::prelude::*;

verus! {

/// `translations` after each of `codons` is made to translate to
/// `amino_acid`. Every other codon translates as before.
pub open spec fn translate_all(
    translations: Map<Seq<char>, char>,
    codons: Seq<Seq<char>>,
    amino_acid: char,
) -> Map<Seq<char>, char> {
    Map::new(
        |codon: Seq<char>| translations.contains_key(codon) || codons.contains(codon),
        |codon: Seq<char>|
            if codons.contains(codon) {
                amino_acid
            } else {
                translations[codon]
            },
    )
}

/// To make one more codon translate to the amino acid is to insert its
/// translation.
pub proof fn lemma_translate_one_more(
    translations: Map<Seq<char>, char>,
    codons: Seq<Seq<char>>,
    codon: Seq<char>,
    amino_acid: char,
)
    ensures
        translate_all(translations, codons.push(codon), amino_acid) == translate_all(
            translations,
            codons,
            amino_acid,
        ).insert(codon, amino_acid),
{
    let more = codons.push(codon);
    assert forall|other: Seq<char>| more.contains(other) <==> (codons.contains(other) || other
        == codon) by {
        if codons.contains(other) {
            let k = choose|k: int| 0 <= k < codons.len() && codons[k] == other;
            assert(more[k] == other);
        }
        if other == codon {
            assert(more[codons.len() as int] == other);
        }
    }
}

/// What a codon usage table holds, as mathematical data.
#[verifier::ext_equal]
pub struct TableModel {
    /// The species that the table describes.
    pub species: Seq<char>,
    /// For each amino acid its codons, each with the bits of its frequency.
    pub codon_usage_table: Map<char, Seq<(Seq<char>, u64)>>,
    /// For each codon the amino acid that it encodes.
    pub translations_table: Map<Seq<char>, char>,
}

impl TableModel {
    /// The table of `species` that holds nothing yet.
    pub open spec fn empty(species: Seq<char>) -> TableModel {
        TableModel {
            species,
            codon_usage_table: Map::empty(),
            translations_table: Map::empty(),
        }
    }

    /// The table after `entry` is inserted: the amino acid of the entry now
    /// has the codons of the entry, and each of these codons now translates
    /// to that amino acid. Nothing else changes.
    pub open spec fn with_entry(self, entry: UsageEntry) -> TableModel {
        TableModel {
            species: self.species,
            codon_usage_table: self.codon_usage_table.insert(entry.amino_acid, entry.codons),
            translations_table: translate_all(
                self.translations_table,
                codons_of(entry.codons),
                entry.amino_acid,
            ),
        }
    }

    /// The table after `entries` are inserted one after the other.
    pub open spec fn load(self, entries: Seq<UsageEntry>) -> TableModel
        decreases entries.len(),
    {
        if entries.len() == 0 {
            self
        } else {
            self.load(entries.drop_last()).with_entry(entries.last())
        }
    }

    /// What holds of every table that was made empty and then loaded, however
    /// often: the table holds finitely many amino acids and codons; no amino
    /// acid has a codon twice; the amino acid that a codon translates to has
    /// a codon list; and every codon of a list has a translation.
    pub open spec fn well_formed(self) -> bool {
        &&& self.codon_usage_table.dom().finite()
        &&& self.translations_table.dom().finite()
        &&& forall|amino_acid: char|
            self.codon_usage_table.contains_key(amino_acid) ==> distinct_codons(
                #[trigger] self.codon_usage_table[amino_acid],
            )
        &&& forall|codon: Seq<char>|
            self.translations_table.contains_key(codon) ==> self.codon_usage_table.contains_key(
                #[trigger] self.translations_table[codon],
            )
        &&& forall|amino_acid: char, codon: Seq<char>|
            self.codon_usage_table.contains_key(amino_acid) && #[trigger] codons_of(
                self.codon_usage_table[amino_acid],
            ).contains(codon) ==> self.translations_table.contains_key(codon)
    }

    /// The two mappings agree: a codon stands in the codon list of the amino
    /// acid that it translates to.
    pub open spec fn consistent(self) -> bool {
        forall|codon: Seq<char>|
            self.translations_table.contains_key(codon) ==> {
                &&& self.codon_usage_table.contains_key(#[trigger] self.translations_table[codon])
                &&& codons_of(self.codon_usage_table[self.translations_table[codon]]).contains(
                    codon,
                )
            }
    }

    /// None of `entries` is for an amino acid that the table holds.
    pub open spec fn new_to(self, entries: Seq<UsageEntry>) -> bool {
        forall|i: int|
            0 <= i < entries.len() ==> !self.codon_usage_table.contains_key(
                (#[trigger] entries[i]).amino_acid,
            )
    }

    /// The synonyms of `codon`: the codons listed for the amino acid that it
    /// translates to, in the order of the list; none where it has no
    /// translation. The codon itself is not left out.
    pub open spec fn synonyms(self, codon: Seq<char>) -> Seq<Seq<char>> {
        if self.translations_table.contains_key(codon) && self.codon_usage_table.contains_key(
            self.translations_table[codon],
        ) {
            codons_of(self.codon_usage_table[self.translations_table[codon]])
        } else {
            Seq::empty()
        }
    }
}

} // verus!
