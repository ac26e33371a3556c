//! The dictionary: fuzz cases, each with its substitution values.

use crate::text::texts;
use vstd::prelude::*;

verus! {

/// What a dictionary entry holds.
pub struct FuzzyDataView {
    pub id: Seq<char>,
    pub description: Seq<char>,
    pub values: Seq<Seq<char>>,
}

/// The contents of a list of dictionary entries.
pub open spec fn entries(s: Seq<FuzzyData>) -> Seq<FuzzyDataView> {
    Seq::new(s.len(), |i: int| s[i]@)
}

/// One fuzz case: an identifier, a description for people, and the values
/// that are substituted one by one.
#[derive(Clone, Debug)]
pub struct FuzzyData {
    id: String,
    description: String,
    values: Vec<String>,
}

impl View for FuzzyData {
    type V = FuzzyDataView;

    closed spec fn view(&self) -> FuzzyDataView {
        FuzzyDataView { id: self.id@, description: self.description@, values: texts(self.values@) }
    }
}

impl FuzzyData {
    pub fn new(id: String, description: String, values: Vec<String>) -> (data: Self)
        ensures
            data@ == (FuzzyDataView { id: id@, description: description@, values: texts(values@) }),
    {
        Self { id, description, values }
    }

    pub fn id(&self) -> (id: &String)
        ensures
            id@ == self@.id,
    {
        &self.id
    }

    pub fn description(&self) -> (description: &String)
        ensures
            description@ == self@.description,
    {
        &self.description
    }

    pub fn values(&self) -> (values: &Vec<String>)
        ensures
            texts(values@) == self@.values,
    {
        &self.values
    }
}

/// What a single case holds.
pub struct FuzzCaseView {
    pub id: Seq<char>,
    pub description: Seq<char>,
    pub value: Seq<char>,
}

/// One substitution value, with the entry that it belongs to.
#[derive(Clone, Debug)]
pub struct FuzzCase {
    id: String,
    description: String,
    value: String,
}

impl View for FuzzCase {
    type V = FuzzCaseView;

    closed spec fn view(&self) -> FuzzCaseView {
        FuzzCaseView { id: self.id@, description: self.description@, value: self.value@ }
    }
}

impl FuzzCase {
    pub fn new(id: String, description: String, value: String) -> (case: Self)
        ensures
            case@ == (FuzzCaseView { id: id@, description: description@, value: value@ }),
    {
        Self { id, description, value }
    }

    pub fn id(&self) -> (id: &String)
        ensures
            id@ == self@.id,
    {
        &self.id
    }

    pub fn description(&self) -> (description: &String)
        ensures
            description@ == self@.description,
    {
        &self.description
    }

    pub fn value(&self) -> (value: &String)
        ensures
            value@ == self@.value,
    {
        &self.value
    }
}

/// The contents of a list of cases.
pub open spec fn case_views(s: Seq<FuzzCase>) -> Seq<FuzzCaseView> {
    Seq::new(s.len(), |i: int| s[i]@)
}

/// The cases of one entry: one for each of its values, in their order.
pub open spec fn entry_cases(entry: FuzzyDataView) -> Seq<FuzzCaseView> {
    Seq::new(
        entry.values.len(),
        |j: int|
            FuzzCaseView { id: entry.id, description: entry.description, value: entry.values[j] },
    )
}

/// The cases of a dictionary: those of its entries, entry after entry.
pub open spec fn cases(dictionary: Seq<FuzzyDataView>) -> Seq<FuzzCaseView>
    decreases dictionary.len(),
{
    if dictionary.len() == 0 {
        Seq::empty()
    } else {
        cases(dictionary.drop_last()) + entry_cases(dictionary.last())
    }
}

/// Every entry of the dictionary holds at least one value.
pub open spec fn well_formed(dictionary: Seq<FuzzyDataView>) -> bool {
    forall|i: int| 0 <= i < dictionary.len() ==> (#[trigger] dictionary[i]).values.len() > 0
}

/// How many values the entries of a dictionary hold together.
pub open spec fn total_values(dictionary: Seq<FuzzyDataView>) -> nat
    decreases dictionary.len(),
{
    if dictionary.len() == 0 {
        0
    } else {
        total_values(dictionary.drop_last()) + dictionary.last().values.len()
    }
}

/// A dictionary has as many cases as its entries hold values.
pub proof fn lemma_cases_len(dictionary: Seq<FuzzyDataView>)
    ensures
        cases(dictionary).len() == total_values(dictionary),
    decreases dictionary.len(),
{
    if dictionary.len() > 0 {
        lemma_cases_len(dictionary.drop_last());
    }
}

/// A dictionary whose entries all hold a value has at least one case for
/// each entry.
pub proof fn lemma_well_formed_has_cases(dictionary: Seq<FuzzyDataView>)
    requires
        well_formed(dictionary),
    ensures
        cases(dictionary).len() >= dictionary.len(),
    decreases dictionary.len(),
{
    lemma_cases_len(dictionary);
    if dictionary.len() > 0 {
        let before = dictionary.drop_last();
        assert forall|i: int| 0 <= i < before.len() implies (#[trigger] before[i]).values.len()
            > 0 by {
            assert(before[i] == dictionary[i]);
        }
        lemma_well_formed_has_cases(before);
        lemma_cases_len(before);
        assert(dictionary[dictionary.len() - 1].values.len() > 0);
    }
}

/// The cases stand in entry order and, within an entry, in value order: the
/// case of value `j` of entry `i` comes behind all cases of the entries
/// before `i` and behind `j` cases of its own entry.
pub proof fn lemma_case_position(dictionary: Seq<FuzzyDataView>, i: int, j: int)
    requires
        0 <= i < dictionary.len(),
        0 <= j < dictionary[i].values.len(),
    ensures
        total_values(dictionary.take(i)) + j < cases(dictionary).len(),
        cases(dictionary)[total_values(dictionary.take(i)) + j] == (FuzzCaseView {
            id: dictionary[i].id,
            description: dictionary[i].description,
            value: dictionary[i].values[j],
        }),
    decreases dictionary.len(),
{
    let before = dictionary.drop_last();
    lemma_cases_len(before);
    if i == dictionary.len() - 1 {
        assert(dictionary.take(i) =~= before);
    } else {
        lemma_case_position(before, i, j);
        assert(before.take(i) =~= dictionary.take(i));
    }
}

/// The fuzz cases of a run, in the order in which they are tried.
#[derive(Clone, Debug)]
pub struct FuzzyDictionary {
    data: Vec<FuzzyData>,
}

impl View for FuzzyDictionary {
    type V = Seq<FuzzyDataView>;

    closed spec fn view(&self) -> Seq<FuzzyDataView> {
        entries(self.data@)
    }
}

impl FuzzyDictionary {
    pub fn new(data: Vec<FuzzyData>) -> (dictionary: Self)
        ensures
            dictionary@ == entries(data@),
    {
        Self { data }
    }

    pub fn data(&self) -> (data: &Vec<FuzzyData>)
        ensures
            entries(data@) == self@,
    {
        &self.data
    }

    /// Whether every entry holds at least one value.
    pub fn is_well_formed(&self) -> (ok: bool)
        ensures
            ok == well_formed(self@),
    {
        let mut i: usize = 0;
        while i < self.data.len()
            invariant
                i <= self.data.len(),
                forall|j: int| 0 <= j < i ==> (#[trigger] self@[j]).values.len() > 0,
            decreases self.data.len() - i,
        {
            if self.data[i].values.len() == 0 {
                assert(self@[i as int].values.len() == 0);
                return false;
            }
            assert(self@[i as int].values.len() > 0);
            i += 1;
        }
        true
    }

    /// Puts the entries of `other` behind those of this dictionary.
    pub fn extend(&mut self, other: FuzzyDictionary)
        ensures
            final(self)@ == old(self)@ + other@,
    {
        let ghost added = other@;
        let mut other = other;
        self.data.append(&mut other.data);
        assert(entries(self.data@) =~= old(self)@ + added);
    }

    /// Every value of the dictionary with its entry, in entry order and,
    /// within an entry, in value order.
    pub fn cases(&self) -> (all: Vec<FuzzCase>)
        ensures
            case_views(all@) == cases(self@),
            all@.len() == total_values(self@),
    {
        let mut all: Vec<FuzzCase> = Vec::new();
        let mut i: usize = 0;
        while i < self.data.len()
            invariant
                i <= self.data.len(),
                case_views(all@) == cases(self@.take(i as int)),
            decreases self.data.len() - i,
        {
            let entry = &self.data[i];
            let ghost done = case_views(all@);
            let mut j: usize = 0;
            while j < entry.values.len()
                invariant
                    j <= entry.values.len(),
                    i < self.data.len(),
                    entry == self.data@[i as int],
                    case_views(all@) == done + entry_cases(entry@).take(j as int),
                decreases entry.values.len() - j,
            {
                all.push(
                    FuzzCase {
                        id: entry.id.clone(),
                        description: entry.description.clone(),
                        value: entry.values[j].clone(),
                    },
                );
                proof {
                    let of_entry = entry_cases(entry@);
                    assert(entry@.values[j as int] == entry.values@[j as int]@);
                    assert(all@.last()@ == of_entry[j as int]);
                    assert(of_entry.take(j + 1) =~= of_entry.take(j as int).push(
                        of_entry[j as int],
                    ));
                    assert(case_views(all@) =~= (done + of_entry.take(j as int)).push(
                        all@.last()@,
                    ));
                }
                j += 1;
            }
            proof {
                assert(entry_cases(entry@).take(j as int) =~= entry_cases(entry@));
                assert(self@.take(i + 1).drop_last() =~= self@.take(i as int));
                assert(self@.take(i + 1).last() == entry@);
            }
            i += 1;
        }
        proof {
            assert(self@.take(i as int) =~= self@);
            lemma_cases_len(self@);
        }
        all
    }
}

} // verus!
