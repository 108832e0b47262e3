//! The phone numbers in the TXT records of a DNS answer: records of the form
//! `tel=<number>[;<number>...]`.

use crate::text::{
    is_first_occurrence, lemma_first_occurrence, lemma_split_inverts_join, occurs_at, spec_join,
    spec_split, spec_split_once, split, split_once,
};
use vstd::prelude::*;

verus! {

/// Name of the TXT attribute that carries phone numbers.
pub const TXT_ATTRIBUTE_NAME: &'static str = "tel";

/// What stands between two numbers in the value of that attribute.
pub const TEL_NUMBER_DELIMITER: &'static str = ";";

/// The numbers that one TXT record gives: those of its value, if its attribute
/// is the one for phone numbers. The attribute ends at the first `=`.
pub open spec fn spec_record_numbers(record: Seq<char>) -> Option<Seq<Seq<char>>> {
    match spec_split_once(record, "="@) {
        Some((name, value)) => {
            if name == TXT_ATTRIBUTE_NAME@ {
                Some(spec_split(value, TEL_NUMBER_DELIMITER@))
            } else {
                None
            }
        },
        None => None,
    }
}

/// The numbers that a TXT answer gives: those of the last record that gives
/// any, and none where no record does.
pub open spec fn spec_parse_txt(records: Seq<Seq<char>>) -> Seq<Seq<char>>
    decreases records.len(),
{
    if records.len() == 0 {
        Seq::empty()
    } else {
        match spec_record_numbers(records.last()) {
            Some(numbers) => numbers,
            None => spec_parse_txt(records.drop_last()),
        }
    }
}

/// Reads the phone numbers out of the TXT records of an answer.
pub fn parse_txt(records: &Vec<String>) -> (numbers: Vec<String>)
    ensures
        numbers.deep_view() == spec_parse_txt(records.deep_view()),
{
    let attribute = TXT_ATTRIBUTE_NAME.to_owned();
    let mut resolved: Vec<String> = Vec::new();
    let mut i: usize = 0;
    while i < records.len()
        invariant
            i <= records.len(),
            attribute@ == TXT_ATTRIBUTE_NAME@,
            resolved.deep_view() == spec_parse_txt(records.deep_view().take(i as int)),
        decreases records.len() - i,
    {
        proof {
            let read = records.deep_view().take(i + 1);
            assert(read.drop_last() =~= records.deep_view().take(i as int));
        }
        // RFC 1464
        match split_once(records[i].as_str(), "=") {
            Some((attribute_name, attribute_value)) => {
                if attribute_name == attribute {
                    resolved = split(attribute_value.as_str(), TEL_NUMBER_DELIMITER);
                }
            },
            None => {},
        }
        i += 1;
    }
    assert(records.deep_view().take(i as int) =~= records.deep_view());
    resolved
}

/// Wire format: the record `tel=` with numbers after it, `;` between each two,
/// gives those numbers, where there is at least one and none has a `;` in it.
/// So `tel=` alone gives one number, the empty one.
pub proof fn lemma_tel_record_gives_its_numbers(numbers: Seq<Seq<char>>)
    requires
        numbers.len() > 0,
        forall|i: int| 0 <= i < numbers.len() ==> !(#[trigger] numbers[i]).contains(';'),
    ensures
        spec_record_numbers(
            TXT_ATTRIBUTE_NAME@ + "="@ + spec_join(numbers, TEL_NUMBER_DELIMITER@),
        ) == Some(numbers),
{
    reveal_strlit("tel");
    reveal_strlit("=");
    reveal_strlit(";");
    let value = spec_join(numbers, TEL_NUMBER_DELIMITER@);
    let record = TXT_ATTRIBUTE_NAME@ + "="@ + value;
    assert(TEL_NUMBER_DELIMITER@ =~= seq![';']);
    assert(record.subrange(3, 4) =~= "="@);
    assert forall|j: int| 0 <= j < 3 implies !occurs_at(record, "="@, j) by {
        assert(record.subrange(j, j + 1)[0] == record[j]);
    }
    assert(is_first_occurrence(record, "="@, 3));
    lemma_first_occurrence(record, "="@);
    assert(record.take(3) =~= TXT_ATTRIBUTE_NAME@);
    assert(record.skip(4) =~= value);
    lemma_split_inverts_join(numbers, ';');
}

/// Last record wins: the numbers of an answer are those of the record at `i`,
/// where that record gives numbers and none after it does.
pub proof fn lemma_last_tel_record_wins(records: Seq<Seq<char>>, i: int)
    requires
        0 <= i < records.len(),
        spec_record_numbers(records[i]) is Some,
        forall|j: int| i < j < records.len() ==> spec_record_numbers(#[trigger] records[j]) is None,
    ensures
        spec_parse_txt(records) == spec_record_numbers(records[i])->0,
    decreases records.len(),
{
    if i < records.len() - 1 {
        lemma_last_tel_record_wins(records.drop_last(), i);
    }
}

/// Records of other attributes count for nothing: an answer in which no record
/// gives numbers gives none.
pub proof fn lemma_other_records_ignored(records: Seq<Seq<char>>)
    requires
        forall|j: int| 0 <= j < records.len() ==> spec_record_numbers(#[trigger] records[j]) is None,
    ensures
        spec_parse_txt(records) == Seq::<Seq<char>>::empty(),
    decreases records.len(),
{
    if records.len() > 0 {
        lemma_other_records_ignored(records.drop_last());
    }
}

} // verus!
