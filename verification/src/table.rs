//! The codon usage table of one species, and its three operations: load,
//! translate, and list the synonyms of a codon.

use crate::codons::codons_of;
use crate::document::{
    lemma_usage_entries, read_usage_document, usage_entries, AminoAcidUsage, UsageEntry,
};
use crate::error::LoadError;
use crate::json::{json_parse, parse_document, JsonValue};
use crate::laws::{law_load_keeps_consistent, law_load_keeps_well_formed};
use crate::model::{lemma_translate_one_more, translate_all, TableModel};
use std::collections::HashMap;
use vstd::hash_map::StringHashMap;
use vstd::prelude::*;

verus! {

broadcast use vstd::std_specs::hash::group_hash_axioms;

/// What loading the text of a usage document inserts: the entries of the
/// document that the text parses to. It is `None` where the text is not JSON
/// or its document is no usage document.
pub open spec fn parsed_entries(text: Seq<char>) -> Option<Seq<UsageEntry>> {
    match json_parse(text) {
        Some(document) => usage_entries(document),
        None => None,
    }
}

/// Two characters have the same code point only where they are the same.
proof fn lemma_same_code_point(a: char, b: char)
    ensures
        (a as u32 == b as u32) <==> a == b,
{
}

/// The codon usage table of one species.
pub struct CodonTable {
    /// The species that the table was made for.
    species: String,
    /// The codons of each amino acid with their frequencies, keyed by the
    /// code point of the amino acid's character.
    codon_usage_table: HashMap<u32, Vec<(String, u64)>>,
    /// The one-character amino acid that each codon translates to.
    translations_table: StringHashMap<char>,
}

impl View for CodonTable {
    type V = TableModel;

    closed spec fn view(&self) -> TableModel {
        TableModel {
            species: self.species@,
            codon_usage_table: Map::new(
                |amino_acid: char| self.codon_usage_table@.contains_key(amino_acid as u32),
                |amino_acid: char| self.codon_usage_table@[amino_acid as u32].deep_view(),
            ),
            translations_table: self.translations_table@,
        }
    }
}

impl CodonTable {
    /// An empty table for `species`.
    pub fn new(species: String) -> (table: CodonTable)
        ensures
            table@ == TableModel::empty(species@),
            table@.well_formed(),
            table@.consistent(),
    {
        CodonTable {
            species,
            codon_usage_table: HashMap::new(),
            translations_table: StringHashMap::new(),
        }
    }

    /// Inserts one entry of a usage document.
    fn insert_entry(&mut self, entry: AminoAcidUsage)
        ensures
            final(self)@ == old(self)@.with_entry(entry.deep_view()),
    {
        let ghost before = self@;
        let ghost codons = codons_of(entry.deep_view().codons);
        let mut i: usize = 0;
        while i < entry.codons.len()
            invariant
                i <= entry.codons.len(),
                codons == codons_of(entry.deep_view().codons),
                self.species == old(self).species,
                self.codon_usage_table == old(self).codon_usage_table,
                self.translations_table@ == translate_all(
                    before.translations_table,
                    codons.take(i as int),
                    entry.amino_acid,
                ),
            decreases entry.codons.len() - i,
        {
            let codon = entry.codons[i].0.clone();
            proof {
                assert(codons.take(i + 1) =~= codons.take(i as int).push(codon@));
                lemma_translate_one_more(
                    before.translations_table,
                    codons.take(i as int),
                    codon@,
                    entry.amino_acid,
                );
            }
            self.translations_table.insert(codon, entry.amino_acid);
            i += 1;
        }
        assert(codons.take(i as int) =~= codons);
        self.codon_usage_table.insert(entry.amino_acid as u32, entry.codons);
        proof {
            let after = before.with_entry(entry.deep_view());
            assert forall|amino_acid: char|
                self@.codon_usage_table.contains_key(amino_acid)
                    <==> after.codon_usage_table.contains_key(amino_acid) by {
                lemma_same_code_point(amino_acid, entry.amino_acid);
            }
            assert forall|amino_acid: char|
                self@.codon_usage_table.contains_key(
                    amino_acid,
                ) implies self@.codon_usage_table[amino_acid]
                == after.codon_usage_table[amino_acid] by {
                lemma_same_code_point(amino_acid, entry.amino_acid);
            }
        }
    }

    /// Inserts the entries of a usage document, one after the other.
    fn insert_entries(&mut self, entries: Vec<AminoAcidUsage>)
        ensures
            final(self)@ == old(self)@.load(entries.deep_view()),
    {
        let ghost before = self@;
        let ghost all = entries.deep_view();
        let ghost raw = entries@;
        for entry in iter: entries.into_iter()
            invariant
                iter.seq() == raw,
                all.len() == raw.len(),
                forall|j: int| 0 <= j < raw.len() ==> all[j] == (#[trigger] raw[j]).deep_view(),
                self@ == before.load(all.take(iter.index() as int)),
        {
            assert(all.take(iter.index() + 1).drop_last() =~= all.take(iter.index() as int));
            self.insert_entry(entry);
        }
        assert(all.take(all.len() as int) =~= all);
    }

    /// Loads a usage document into the table. Every entry of the document is
    /// inserted, in order, over what the table holds: a later entry replaces
    /// what an earlier one, or an earlier load, has put under the same key.
    /// Where the document is no usage document, the table stays as it is.
    ///
    /// A well-formed table stays well formed. Its two mappings still agree
    /// after the load if they agreed before, the document names no amino acid
    /// twice, and the table held none of the amino acids of the document.
    pub fn load_document(&mut self, document: &JsonValue) -> (loaded: Result<(), LoadError>)
        ensures
            match usage_entries(document@) {
                Some(entries) => loaded is Ok && final(self)@ == old(self)@.load(entries),
                None => loaded == Err::<(), LoadError>(LoadError::Format) && final(self)@ == old(
                    self,
                )@,
            },
            old(self)@.well_formed() ==> final(self)@.well_formed(),
            loaded is Ok && document@.distinct_names() && old(self)@.consistent() && old(
                self,
            )@.new_to(usage_entries(document@).unwrap()) ==> final(self)@.consistent(),
    {
        match read_usage_document(document) {
            Some(entries) => {
                proof {
                    let inserted = entries.deep_view();
                    lemma_usage_entries(document@);
                    if self@.well_formed() {
                        law_load_keeps_well_formed(self@, inserted);
                    }
                    if document@.distinct_names() && self@.consistent() && self@.new_to(inserted) {
                        law_load_keeps_consistent(self@, inserted);
                    }
                }
                self.insert_entries(entries);
                Ok(())
            },
            None => Err(LoadError::Format),
        }
    }

    /// Loads the usage file into the table. `codon_usage_file` is what reading
    /// the file gave: its text, or `None` where the file is missing or cannot
    /// be read, which is an I/O error. The text is parsed as JSON and its
    /// document loaded as [`CodonTable::load_document`] does; text that is no
    /// JSON is a format error, as is a document that is no usage document. On
    /// every error the table stays as it is.
    ///
    /// A well-formed table stays well formed. Its two mappings still agree
    /// after the load if they agreed before and the table held none of the
    /// amino acids of the document: so they do in a table that is loaded once.
    pub fn load_usage_table(&mut self, codon_usage_file: Option<&str>) -> (loaded: Result<
        (),
        LoadError,
    >)
        ensures
            match codon_usage_file {
                Some(text) => match parsed_entries(text@) {
                    Some(entries) => loaded is Ok && final(self)@ == old(self)@.load(entries),
                    None => loaded == Err::<(), LoadError>(LoadError::Format) && final(self)@
                        == old(self)@,
                },
                None => loaded == Err::<(), LoadError>(LoadError::Io) && final(self)@ == old(
                    self,
                )@,
            },
            old(self)@.well_formed() ==> final(self)@.well_formed(),
            loaded is Ok && old(self)@.consistent() && old(self)@.new_to(
                parsed_entries(codon_usage_file.unwrap()@).unwrap(),
            ) ==> final(self)@.consistent(),
    {
        let text = match codon_usage_file {
            Some(text) => text,
            None => return Err(LoadError::Io),
        };
        match parse_document(text) {
            Some(document) => self.load_document(&document),
            None => Err(LoadError::Format),
        }
    }

    /// The species that the table was made for.
    pub fn species(&self) -> (species: &String)
        ensures
            species@ == self@.species,
    {
        &self.species
    }

    /// The number of codons that have a translation.
    pub fn codon_count(&self) -> (count: usize)
        ensures
            count == self@.translations_table.len(),
    {
        self.translations_table.len()
    }

    /// The codons listed for `amino_acid`, each with the bits of its
    /// frequency; `None` where the table does not hold the amino acid.
    pub fn codon_usage(&self, amino_acid: char) -> (usage: Option<&Vec<(String, u64)>>)
        ensures
            match usage {
                Some(codons) => self@.codon_usage_table.get(amino_acid) == Some(
                    codons.deep_view(),
                ),
                None => !self@.codon_usage_table.contains_key(amino_acid),
            },
    {
        let key = amino_acid as u32;
        self.codon_usage_table.get(&key)
    }

    /// The amino acid that `codon` translates to, or `None` where the table
    /// has no translation for it.
    pub fn get_translation(&self, codon: String) -> (amino_acid: Option<&char>)
        ensures
            match amino_acid {
                Some(found) => self@.translations_table.contains_key(codon@)
                    && *found == self@.translations_table[codon@],
                None => !self@.translations_table.contains_key(codon@),
            },
    {
        self.translations_table.get(codon.as_str())
    }

    /// The synonyms of `codon`: the codons listed for the amino acid that it
    /// translates to, in the order in which the table holds them. The codon
    /// itself is not left out. A codon without translation has no synonyms.
    pub fn get_synonyms(&self, codon: String) -> (synonyms: Vec<&String>)
        ensures
            synonyms.deep_view() == self@.synonyms(codon@),
            !self@.translations_table.contains_key(codon@) ==> synonyms@.len() == 0,
    {
        let mut synonyms: Vec<&String> = Vec::new();
        let amino_acid = match self.get_translation(codon) {
            Some(amino_acid) => *amino_acid,
            None => return synonyms,
        };
        if let Some(codons) = self.codon_usage(amino_acid) {
            let mut i: usize = 0;
            while i < codons.len()
                invariant
                    i <= codons.len(),
                    synonyms@.len() == i,
                    synonyms.deep_view() == codons_of(codons.deep_view()).take(i as int),
                decreases codons.len() - i,
            {
                synonyms.push(&codons[i].0);
                i += 1;
            }
        }
        synonyms
    }
}

} // verus!
