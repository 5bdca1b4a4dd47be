//! Codon frequency lists: the codons of one amino acid, each with its usage
//! frequency, in the order in which they were first recorded.
//!
//! A frequency is carried as the bit pattern of its double-precision value.

use vstd::prelude::*;

verus! {

/// The codons that `list` records, in order.
pub open spec fn codons_of(list: Seq<(Seq<char>, u64)>) -> Seq<Seq<char>> {
    list.map_values(|entry: (Seq<char>, u64)| entry.0)
}

/// No codon is recorded twice in `list`.
pub open spec fn distinct_codons(list: Seq<(Seq<char>, u64)>) -> bool {
    codons_of(list).no_duplicates()
}

/// `list` after `frequency` is recorded for `codon`: where the list holds the
/// codon, every entry of the codon gets the frequency and keeps its place;
/// otherwise the codon is appended with the frequency.
pub open spec fn record(list: Seq<(Seq<char>, u64)>, codon: Seq<char>, frequency: u64) -> Seq<
    (Seq<char>, u64),
> {
    if codons_of(list).contains(codon) {
        list.map_values(
            |entry: (Seq<char>, u64)|
                if entry.0 == codon {
                    (codon, frequency)
                } else {
                    entry
                },
        )
    } else {
        list.push((codon, frequency))
    }
}

/// Recording a codon adds it to the codons of the list if it is new, and
/// leaves them as they are if it is not.
pub proof fn lemma_record_codons(list: Seq<(Seq<char>, u64)>, codon: Seq<char>, frequency: u64)
    ensures
        codons_of(record(list, codon, frequency)) == if codons_of(list).contains(codon) {
            codons_of(list)
        } else {
            codons_of(list).push(codon)
        },
{
}

/// Recording a codon keeps the codons of a list distinct.
pub proof fn lemma_record_distinct(list: Seq<(Seq<char>, u64)>, codon: Seq<char>, frequency: u64)
    requires
        distinct_codons(list),
    ensures
        distinct_codons(record(list, codon, frequency)),
{
    lemma_record_codons(list, codon, frequency);
}

/// Records `frequency` for `codon` in `list`.
pub fn record_codon(list: &mut Vec<(String, u64)>, codon: String, frequency: u64)
    ensures
        final(list).deep_view() == record(old(list).deep_view(), codon@, frequency),
{
    let ghost before = list.deep_view();
    let mut found = false;
    let mut i: usize = 0;
    while i < list.len()
        invariant
            i <= list.len(),
            list.len() == before.len(),
            found == codons_of(before.take(i as int)).contains(codon@),
            forall|j: int| 0 <= j < list.len() ==> (#[trigger] list@[j]).0@ == before[j].0,
            forall|j: int|
                0 <= j < i ==> (#[trigger] list@[j]).1 == if before[j].0 == codon@ {
                    frequency
                } else {
                    before[j].1
                },
            forall|j: int| i <= j < list.len() ==> (#[trigger] list@[j]).1 == before[j].1,
        decreases list.len() - i,
    {
        let ghost seen = codons_of(before.take(i as int));
        let ghost next = codons_of(before.take(i + 1));
        assert(next =~= seen.push(before[i as int].0));
        if list[i].0 == codon {
            list[i].1 = frequency;
            found = true;
            assert(next[i as int] == codon@);
        } else {
            proof {
                if seen.contains(codon@) {
                    let k = choose|k: int| 0 <= k < seen.len() && seen[k] == codon@;
                    assert(next[k] == codon@);
                }
            }
        }
        i += 1;
    }
    assert(before.take(i as int) =~= before);
    if !found {
        assert forall|j: int| 0 <= j < before.len() implies list.deep_view()[j] == before[j] by {
            assert(codons_of(before)[j] == before[j].0);
        }
        list.push((codon, frequency));
    }
}

} // verus!
