//! The tree of differences between a live entity and its desired counterpart.
//!
//! An empty list of differences means that nothing observable differs; it is the
//! only signal by which an entity is left alone rather than updated.

use vstd::prelude::*;
use crate::text::{copy_optional_text, same_optional_text, same_text};

verus! {

/// One node of a difference tree.
#[derive(Debug, PartialEq)]
pub enum Diff {
    /// A value changed from the first to the second; an absent side stands for
    /// a value that was added or removed.
    Change(Option<String>, Option<String>),
    /// A named field whose own differences are nested below it.
    Update(String, Vec<Diff>),
}

/// Mathematical counterpart of [`Diff`].
pub enum DiffModel {
    Change(Option<Seq<char>>, Option<Seq<char>>),
    Update(Seq<char>, Seq<DiffModel>),
}

impl Diff {
    /// The tree that this node stands for.
    pub open spec fn model(&self) -> DiffModel
        decreases self,
    {
        match self {
            Diff::Change(from, to) => DiffModel::Change(from.deep_view(), to.deep_view()),
            Diff::Update(field, nested) => DiffModel::Update(
                field@,
                Seq::new(
                    nested@.len(),
                    |i: int|
                        if 0 <= i < nested@.len() {
                            nested@[i].model()
                        } else {
                            DiffModel::Change(None, None)
                        },
                ),
            ),
        }
    }
}

impl View for Diff {
    type V = DiffModel;

    open spec fn view(&self) -> DiffModel {
        self.model()
    }
}

impl DeepView for Diff {
    type V = DiffModel;

    open spec fn deep_view(&self) -> DiffModel {
        self@
    }
}

impl Diff {
    /// A copy of this node and of all that is nested below it.
    pub fn duplicate(&self) -> (copy: Self)
        ensures
            copy@ == self@,
        decreases self,
    {
        match self {
            Diff::Change(from, to) => {
                Diff::Change(copy_optional_text(from), copy_optional_text(to))
            },
            Diff::Update(field, nested) => {
                let mut copies: Vec<Diff> = Vec::new();
                let mut i: usize = 0;
                while i < nested.len()
                    invariant
                        decreases_to!(self => nested),
                        i <= nested@.len(),
                        copies@.len() == i,
                        forall|j: int| 0 <= j < i ==> copies@[j]@ == nested@[j]@,
                    decreases nested@.len() - i,
                {
                    proof {
                        vstd::std_specs::vec::axiom_vec_index_decreases(*nested, i as int);
                    }
                    copies.push(nested[i].duplicate());
                    i += 1;
                }
                let copy = Diff::Update(field.clone(), copies);
                assert(copy@->Update_1 =~= self@->Update_1);
                copy
            },
        }
    }
}

impl Clone for Diff {
    fn clone(&self) -> (copy: Self)
        ensures
            copy@ == self@,
    {
        self.duplicate()
    }
}

/// A copy of a list of differences.
pub fn copy_diffs(diffs: &Vec<Diff>) -> (copy: Vec<Diff>)
    ensures
        copy.deep_view() == diffs.deep_view(),
{
    let mut copy: Vec<Diff> = Vec::new();
    let mut i: usize = 0;
    while i < diffs.len()
        invariant
            i <= diffs@.len(),
            copy@.len() == i,
            forall|j: int| 0 <= j < i ==> copy@[j]@ == diffs@[j]@,
        decreases diffs@.len() - i,
    {
        copy.push(diffs[i].clone());
        i += 1;
    }
    assert(copy.deep_view() =~= diffs.deep_view());
    copy
}

/// How a flag is written in a difference.
pub open spec fn flag_text(flag: bool) -> Seq<char> {
    if flag {
        "true"@
    } else {
        "false"@
    }
}

/// The differences between two texts: none when they are equal, else one change.
pub open spec fn text_diff(from: Seq<char>, to: Seq<char>) -> Seq<DiffModel> {
    if from == to {
        Seq::empty()
    } else {
        seq![DiffModel::Change(Some(from), Some(to))]
    }
}

/// The differences between two optional texts.
pub open spec fn optional_text_diff(
    from: Option<Seq<char>>,
    to: Option<Seq<char>>,
) -> Seq<DiffModel> {
    if from == to {
        Seq::empty()
    } else {
        seq![DiffModel::Change(from, to)]
    }
}

/// The differences between two flags.
pub open spec fn flag_diff(from: bool, to: bool) -> Seq<DiffModel> {
    if from == to {
        Seq::empty()
    } else {
        seq![DiffModel::Change(Some(flag_text(from)), Some(flag_text(to)))]
    }
}

/// The differences of a composite entity that stem from one of its fields: an update
/// node named after the field, and nothing at all when the field itself does not differ.
pub open spec fn field_diff(field: Seq<char>, nested: Seq<DiffModel>) -> Seq<DiffModel> {
    if nested.len() == 0 {
        Seq::empty()
    } else {
        seq![DiffModel::Update(field, nested)]
    }
}

/// Computes [`text_diff`].
pub fn text_diffs(from: &str, to: &str) -> (diffs: Vec<Diff>)
    ensures
        diffs.deep_view() == text_diff(from@, to@),
{
    let mut diffs: Vec<Diff> = Vec::new();
    if !same_text(from, to) {
        diffs.push(Diff::Change(Some(from.to_owned()), Some(to.to_owned())));
    }
    assert(diffs.deep_view() =~= text_diff(from@, to@));
    diffs
}

/// Computes [`optional_text_diff`].
pub fn optional_text_diffs(from: &Option<String>, to: &Option<String>) -> (diffs: Vec<Diff>)
    ensures
        diffs.deep_view() == optional_text_diff(from.deep_view(), to.deep_view()),
{
    let mut diffs: Vec<Diff> = Vec::new();
    if !same_optional_text(from, to) {
        diffs.push(Diff::Change(copy_optional_text(from), copy_optional_text(to)));
    }
    assert(diffs.deep_view() =~= optional_text_diff(from.deep_view(), to.deep_view()));
    diffs
}

fn flag_string(flag: bool) -> (text: String)
    ensures
        text@ == flag_text(flag),
{
    if flag {
        "true".to_owned()
    } else {
        "false".to_owned()
    }
}

/// Computes [`flag_diff`].
pub fn flag_diffs(from: bool, to: bool) -> (diffs: Vec<Diff>)
    ensures
        diffs.deep_view() == flag_diff(from, to),
{
    let mut diffs: Vec<Diff> = Vec::new();
    if from != to {
        diffs.push(Diff::Change(Some(flag_string(from)), Some(flag_string(to))));
    }
    assert(diffs.deep_view() =~= flag_diff(from, to));
    diffs
}

/// Appends to `all` what [`field_diff`] gives for a field and its own differences.
pub fn push_field(all: &mut Vec<Diff>, field: &str, nested: Vec<Diff>)
    ensures
        final(all).deep_view() == old(all).deep_view() + field_diff(field@, nested.deep_view()),
{
    if nested.len() > 0 {
        let ghost before = all.deep_view();
        let ghost inner = nested.deep_view();
        let node = Diff::Update(field.to_owned(), nested);
        assert(node@ == DiffModel::Update(field@, inner)) by {
            assert forall|i: int| 0 <= i < inner.len() implies node@->Update_1[i] == inner[i] by {
                assert(inner[i] == nested@[i]@);
            }
            assert(node@->Update_1 =~= inner);
        }
        all.push(node);
        assert(all.deep_view() =~= before + field_diff(field@, inner));
    } else {
        assert(all.deep_view() =~= all.deep_view() + field_diff(field@, nested.deep_view()));
    }
}

} // verus!
