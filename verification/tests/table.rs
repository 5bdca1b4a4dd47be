use codon_table::json::parse_document;
use codon_table::{CodonTable, JsonValue, LoadError};

fn codon(s: &str) -> String {
    s.to_string()
}

fn bits(x: f64) -> u64 {
    x.to_bits()
}

fn sorted(mut names: Vec<String>) -> Vec<String> {
    names.sort();
    names
}

fn synonyms_of(table: &CodonTable, name: &str) -> Vec<String> {
    table.get_synonyms(codon(name)).into_iter().cloned().collect()
}

fn entry(name: &str, codons: Vec<(&str, f64)>) -> (String, JsonValue) {
    let members = codons
        .into_iter()
        .map(|(c, x)| (codon(c), JsonValue::Number(Some(bits(x)))))
        .collect();
    (codon(name), JsonValue::Object(vec![(codon(name), JsonValue::Object(members))]))
}

#[test]
fn a_new_table_is_empty() {
    let table = CodonTable::new(codon("Escherichia coli"));
    assert_eq!(table.species(), "Escherichia coli");
    assert_eq!(table.codon_count(), 0);
    assert_eq!(table.get_translation(codon("GCT")), None);
    assert!(table.get_synonyms(codon("GCT")).is_empty());
    assert_eq!(table.codon_usage('A'), None);
}

#[test]
fn round_trip_of_one_amino_acid() {
    let mut table = CodonTable::new(codon("Escherichia coli"));
    let loaded = table.load_usage_table(Some("{\"A\": {\"A\": {\"GCT\": 0.26, \"GCC\": 0.40}}}"));
    assert_eq!(loaded, Ok(()));
    assert_eq!(table.get_translation(codon("GCT")), Some(&'A'));
    assert_eq!(table.get_translation(codon("GCC")), Some(&'A'));
    assert_eq!(sorted(synonyms_of(&table, "GCT")), vec![codon("GCC"), codon("GCT")]);
    assert_eq!(table.species(), "Escherichia coli");
}

#[test]
fn frequencies_are_kept_as_the_bits_of_their_doubles() {
    let mut table = CodonTable::new(codon("Escherichia coli"));
    let loaded = table.load_usage_table(Some("{\"A\": {\"A\": {\"GCT\": 0.26, \"GCC\": 0.40}}}"));
    assert_eq!(loaded, Ok(()));
    let usage = table.codon_usage('A').expect("alanine was loaded");
    assert_eq!(usage.len(), 2);
    for (name, frequency) in usage {
        let value = f64::from_bits(*frequency);
        if name == "GCT" {
            assert_eq!(value, 0.26);
            assert_eq!(value as f32, 0.26f32);
        } else {
            assert_eq!(name, "GCC");
            assert_eq!(value, 0.40);
        }
    }
}

#[test]
fn a_codon_that_was_not_loaded_is_absent() {
    let mut table = CodonTable::new(codon("Escherichia coli"));
    assert_eq!(table.load_usage_table(Some("{\"A\": {\"A\": {\"GCT\": 0.26}}}")), Ok(()));
    assert_eq!(table.get_translation(codon("TTT")), None);
    assert_eq!(table.get_translation(codon("")), None);
    assert_eq!(table.get_translation(codon("gct")), None);
    assert_eq!(table.get_translation(codon("A")), None);
}

#[test]
fn a_codon_without_translation_has_no_synonyms() {
    let mut table = CodonTable::new(codon("Escherichia coli"));
    assert_eq!(table.load_usage_table(Some("{\"A\": {\"A\": {\"GCT\": 0.26}}}")), Ok(()));
    assert!(table.get_synonyms(codon("TTT")).is_empty());
    assert_eq!(table.get_synonyms(codon("TTT")).len(), 0);
}

#[test]
fn a_mismatched_inner_key_is_a_format_error() {
    let mut table = CodonTable::new(codon("Escherichia coli"));
    let loaded = table.load_usage_table(Some("{\"A\": {\"B\": {\"GCT\": 0.26}}}"));
    assert_eq!(loaded, Err(LoadError::Format));
    assert_eq!(table.codon_count(), 0);
    assert_eq!(table.get_translation(codon("GCT")), None);
}

#[test]
fn a_file_that_cannot_be_read_is_an_io_error() {
    let mut table = CodonTable::new(codon("Escherichia coli"));
    assert_eq!(table.load_usage_table(None), Err(LoadError::Io));
    assert_eq!(table.codon_count(), 0);
    assert_eq!(table.load_usage_table(Some("{\"M\": {\"M\": {\"ATG\": 1.0}}}")), Ok(()));
    assert_eq!(table.load_usage_table(None), Err(LoadError::Io));
    assert_eq!(table.codon_count(), 1);
    assert_eq!(table.get_translation(codon("ATG")), Some(&'M'));
}

#[test]
fn text_that_is_not_json_is_a_format_error() {
    let mut table = CodonTable::new(codon("Escherichia coli"));
    assert_eq!(table.load_usage_table(Some("{\"A\": {\"A\": {\"GCT\": 0.26}}")), Err(LoadError::Format));
    assert_eq!(table.load_usage_table(Some("")), Err(LoadError::Format));
    assert_eq!(table.load_usage_table(Some("not json")), Err(LoadError::Format));
    assert_eq!(table.codon_count(), 0);
}

#[test]
fn json_of_another_shape_is_a_format_error() {
    let mut table = CodonTable::new(codon("Escherichia coli"));
    assert_eq!(table.load_usage_table(Some("[1, 2]")), Err(LoadError::Format));
    assert_eq!(table.load_usage_table(Some("3")), Err(LoadError::Format));
    assert_eq!(table.load_usage_table(Some("{\"A\": 0.26}")), Err(LoadError::Format));
    assert_eq!(table.load_usage_table(Some("{\"A\": {\"A\": 0.26}}")), Err(LoadError::Format));
    assert_eq!(table.load_usage_table(Some("{\"A\": {\"A\": [0.26]}}")), Err(LoadError::Format));
    assert_eq!(table.load_usage_table(Some("{\"A\": {\"A\": {\"GCT\": \"0.26\"}}}")), Err(LoadError::Format));
    assert_eq!(table.load_usage_table(Some("{\"A\": {\"A\": {\"GCT\": null}}}")), Err(LoadError::Format));
    assert_eq!(table.load_usage_table(Some("{\"Ala\": {\"Ala\": {\"GCT\": 0.26}}}")), Err(LoadError::Format));
    assert_eq!(table.load_usage_table(Some("{\"\": {\"\": {\"GCT\": 0.26}}}")), Err(LoadError::Format));
    assert_eq!(table.codon_count(), 0);
}

#[test]
fn a_failed_load_leaves_the_table_as_it_was() {
    let mut table = CodonTable::new(codon("Escherichia coli"));
    assert_eq!(table.load_usage_table(Some("{\"M\": {\"M\": {\"ATG\": 1.0}}}")), Ok(()));
    let bad = "{\"A\": {\"A\": {\"GCT\": 0.26}}, \"F\": {\"X\": {\"TTT\": 0.58}}}";
    assert_eq!(table.load_usage_table(Some(bad)), Err(LoadError::Format));
    assert_eq!(table.codon_count(), 1);
    assert_eq!(table.get_translation(codon("ATG")), Some(&'M'));
    assert_eq!(table.get_translation(codon("GCT")), None);
    assert_eq!(table.codon_usage('A'), None);
}

#[test]
fn two_amino_acids_with_disjoint_codons_add_up() {
    let mut table = CodonTable::new(codon("Escherichia coli"));
    let doc = "{\"F\": {\"F\": {\"TTT\": 0.58, \"TTC\": 0.42}}, \"A\": {\"A\": {\"GCT\": 0.26, \"GCC\": 0.40, \"GCA\": 0.23}}}";
    assert_eq!(table.load_usage_table(Some(doc)), Ok(()));
    assert_eq!(table.codon_count(), 5);
    for name in ["TTT", "TTC"] {
        assert_eq!(table.get_translation(codon(name)), Some(&'F'));
        assert_eq!(sorted(synonyms_of(&table, name)), vec![codon("TTC"), codon("TTT")]);
    }
    for name in ["GCT", "GCC", "GCA"] {
        assert_eq!(table.get_translation(codon(name)), Some(&'A'));
        assert_eq!(
            sorted(synonyms_of(&table, name)),
            vec![codon("GCA"), codon("GCC"), codon("GCT")]
        );
    }
    assert_eq!(table.codon_usage('F').map(|usage| usage.len()), Some(2));
    assert_eq!(table.codon_usage('A').map(|usage| usage.len()), Some(3));
}

#[test]
fn a_document_is_loaded_in_the_order_of_its_members() {
    let mut table = CodonTable::new(codon("Homo sapiens"));
    let document = JsonValue::Object(vec![
        entry("F", vec![("TTT", 0.46), ("TTC", 0.54)]),
        entry("M", vec![("ATG", 1.0)]),
    ]);
    assert_eq!(table.load_document(&document), Ok(()));
    assert_eq!(table.codon_count(), 3);
    assert_eq!(synonyms_of(&table, "TTC"), vec![codon("TTT"), codon("TTC")]);
    assert_eq!(synonyms_of(&table, "ATG"), vec![codon("ATG")]);
    assert_eq!(
        table.codon_usage('F'),
        Some(&vec![(codon("TTT"), bits(0.46)), (codon("TTC"), bits(0.54))])
    );
}

#[test]
fn a_codon_under_two_amino_acids_translates_to_the_later_one() {
    let mut table = CodonTable::new(codon("Homo sapiens"));
    let document = JsonValue::Object(vec![
        entry("L", vec![("CTG", 0.4), ("TTG", 0.13)]),
        entry("S", vec![("CTG", 0.03), ("TCT", 0.19)]),
    ]);
    assert_eq!(table.load_document(&document), Ok(()));
    assert_eq!(table.codon_count(), 3);
    assert_eq!(table.get_translation(codon("CTG")), Some(&'S'));
    assert_eq!(table.get_translation(codon("TTG")), Some(&'L'));
    assert_eq!(synonyms_of(&table, "CTG"), vec![codon("CTG"), codon("TCT")]);
    assert_eq!(synonyms_of(&table, "TTG"), vec![codon("CTG"), codon("TTG")]);
}

#[test]
fn a_second_load_inserts_over_the_first() {
    let mut table = CodonTable::new(codon("Homo sapiens"));
    assert_eq!(table.load_usage_table(Some("{\"A\": {\"A\": {\"GCT\": 0.26}}, \"M\": {\"M\": {\"ATG\": 1}}}")), Ok(()));
    assert_eq!(table.load_usage_table(Some("{\"A\": {\"A\": {\"GCC\": 0.40}}}")), Ok(()));
    assert_eq!(table.codon_count(), 3);
    assert_eq!(table.get_translation(codon("GCT")), Some(&'A'));
    assert_eq!(table.get_translation(codon("GCC")), Some(&'A'));
    assert_eq!(table.get_translation(codon("ATG")), Some(&'M'));
    assert_eq!(synonyms_of(&table, "GCT"), vec![codon("GCC")]);
    assert_eq!(synonyms_of(&table, "GCC"), vec![codon("GCC")]);
    assert_eq!(table.codon_usage('A'), Some(&vec![(codon("GCC"), bits(0.40))]));
    assert_eq!(table.codon_usage('M'), Some(&vec![(codon("ATG"), bits(1.0))]));
}

#[test]
fn loading_the_same_document_twice_changes_nothing() {
    let mut table = CodonTable::new(codon("Homo sapiens"));
    let doc = "{\"F\": {\"F\": {\"TTT\": 0.46, \"TTC\": 0.54}}}";
    assert_eq!(table.load_usage_table(Some(doc)), Ok(()));
    assert_eq!(table.load_usage_table(Some(doc)), Ok(()));
    assert_eq!(table.codon_count(), 2);
    assert_eq!(sorted(synonyms_of(&table, "TTT")), vec![codon("TTC"), codon("TTT")]);
}

#[test]
fn an_empty_document_loads_nothing() {
    let mut table = CodonTable::new(codon("Homo sapiens"));
    assert_eq!(table.load_usage_table(Some("{}")), Ok(()));
    assert_eq!(table.codon_count(), 0);
    assert_eq!(table.load_document(&JsonValue::Object(vec![])), Ok(()));
    assert_eq!(table.codon_count(), 0);
}

#[test]
fn an_amino_acid_without_codons_is_held_without_translations() {
    let mut table = CodonTable::new(codon("Homo sapiens"));
    assert_eq!(table.load_usage_table(Some("{\"A\": {\"A\": {}}}")), Ok(()));
    assert_eq!(table.codon_count(), 0);
    assert_eq!(table.codon_usage('A'), Some(&vec![]));
}

#[test]
fn a_document_that_is_no_usage_document_is_a_format_error() {
    let mut table = CodonTable::new(codon("Homo sapiens"));
    assert_eq!(table.load_document(&JsonValue::Null), Err(LoadError::Format));
    let document = JsonValue::Object(vec![(
        codon("A"),
        JsonValue::Object(vec![(
            codon("B"),
            JsonValue::Object(vec![(codon("GCT"), JsonValue::Number(Some(bits(0.26))))]),
        )]),
    )]);
    assert_eq!(table.load_document(&document), Err(LoadError::Format));
    assert_eq!(table.codon_count(), 0);
}

#[test]
fn loading_a_parsed_document_is_loading_its_text() {
    let doc = "{\"F\": {\"F\": {\"TTT\": 0.46, \"TTC\": 0.54}}, \"M\": {\"M\": {\"ATG\": 1}}}";
    let mut from_text = CodonTable::new(codon("Homo sapiens"));
    assert_eq!(from_text.load_usage_table(Some(doc)), Ok(()));
    let mut from_document = CodonTable::new(codon("Homo sapiens"));
    let document = parse_document(doc).expect("valid JSON");
    assert_eq!(from_document.load_document(&document), Ok(()));
    assert_eq!(from_text.codon_count(), from_document.codon_count());
    for name in ["TTT", "TTC", "ATG", "GGG"] {
        assert_eq!(
            from_text.get_translation(codon(name)),
            from_document.get_translation(codon(name))
        );
        assert_eq!(synonyms_of(&from_text, name), synonyms_of(&from_document, name));
    }
}

#[test]
fn the_errors_are_told_apart() {
    assert_ne!(LoadError::Io, LoadError::Format);
}
