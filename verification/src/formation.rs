//! Formation binding: when to ask the user, how a roster is recognised again, and how
//! the binding panel hands its answer to the run.
use vstd::prelude::*;

use crate::runner::BindingMode;
use crate::sorting;

verus! {

/// Whether start-up binding must ask the user: it may ask, some job operators are still
/// unbound, and some card on the deploy bar is still unrecognised (operators that are
/// not on the bar cannot be bound now anyway).
pub fn startup_binding_prompt_needed(
    mode: BindingMode,
    missing_name_count: usize,
    visible_unrecognized_card_count: usize,
) -> (b: bool)
    ensures
        b == (mode == BindingMode::InteractiveAllowed && missing_name_count > 0
            && visible_unrecognized_card_count > 0),
{
    mode == BindingMode::InteractiveAllowed && missing_name_count > 0
        && visible_unrecognized_card_count > 0
}

/// What hashing a `Vec<String>` holding `names` writes into a `DefaultHasher`, write by
/// write (std's `Hash` for `Vec` and `str`: the length, then each string).
pub uninterp spec fn names_writes(names: Seq<Seq<char>>) -> Seq<Seq<u8>>;

/// Feeds `names` to `hasher` with std's `Hash::hash` for `Vec<String>`. The writes it
/// makes depend on the names' texts alone and are named by [`names_writes`].
#[verifier::external_body]
fn hash_into(names: &Vec<String>, hasher: &mut std::collections::hash_map::DefaultHasher)
    ensures
        final(hasher)@ == old(hasher)@ + names_writes(sorting::views(names@)),
{
    std::hash::Hash::hash(names, hasher);
}

/// What a fresh `DefaultHasher` (whose keys are fixed, not seeded per process) yields
/// after hashing a `Vec<String>` holding `names`.
pub open spec fn names_hash(names: Seq<Seq<char>>) -> u64 {
    <std::collections::hash_map::DefaultHasher as vstd::std_specs::hash::DefaultHasherAdditionalSpecFns>::spec_finish(
        Seq::<Seq<u8>>::empty() + names_writes(names),
    )
}

fn hash_names(names: &Vec<String>) -> (h: u64)
    ensures
        h == names_hash(sorting::views(names@)),
{
    let mut hasher = std::collections::hash_map::DefaultHasher::new();
    hash_into(names, &mut hasher);
    std::hash::Hasher::finish(&hasher)
}

/// A job roster's fingerprint: the hash of its names in code-point order.
pub open spec fn roster_fingerprint_spec(names: Seq<Seq<char>>) -> u64 {
    names_hash(names.sort_by(sorting::text_le()))
}

/// See [`roster_fingerprint_spec`].
pub fn roster_fingerprint(names: &[String]) -> (h: u64)
    ensures
        h == roster_fingerprint_spec(sorting::views(names@)),
{
    let mut copy: Vec<String> = Vec::new();
    let mut i: usize = 0;
    while i < names.len()
        invariant
            i <= names@.len(),
            sorting::views(copy@) == sorting::views(names@.subrange(0, i as int)),
        decreases names@.len() - i,
    {
        let ghost before = sorting::views(copy@);
        copy.push(names[i].clone());
        assert(sorting::views(copy@) =~= before.push(names@[i as int]@));
        assert(sorting::views(names@.subrange(0, i + 1)) =~= sorting::views(
            names@.subrange(0, i as int),
        ).push(names@[i as int]@));
        i = i + 1;
    }
    assert(names@.subrange(0, i as int) =~= names@);
    let sorted = sorting::sort_texts(&copy);
    proof {
        let v = sorting::views(names@);
        sorting::lemma_text_le_total();
        v.lemma_sort_by_ensures(sorting::text_le());
        sorting::lemma_sorted_unique(
            sorting::views(sorted@),
            v.sort_by(sorting::text_le()),
            sorting::text_le(),
        );
    }
    hash_names(&sorted)
}

/// A roster's fingerprint does not depend on the order of its names.
pub proof fn lemma_roster_fingerprint_ignores_order(a: Seq<Seq<char>>, b: Seq<Seq<char>>)
    requires
        a.to_multiset() == b.to_multiset(),
    ensures
        roster_fingerprint_spec(a) == roster_fingerprint_spec(b),
{
    sorting::lemma_text_le_total();
    a.lemma_sort_by_ensures(sorting::text_le());
    b.lemma_sort_by_ensures(sorting::text_le());
    sorting::lemma_sorted_unique(
        a.sort_by(sorting::text_le()),
        b.sort_by(sorting::text_le()),
        sorting::text_le(),
    );
}

/// The cards the user bound on the panel: card index and operator name.
pub type BindingChoices = Vec<(usize, String)>;

/// The binding panel's answer.
#[derive(Clone, Debug, PartialEq)]
pub enum BindingResponse {
    Confirm(BindingChoices),
    Cancel,
}

/// The hand-over between the binding panel and the run: the UI puts the user's answer
/// in, the worker takes it out. (The application shares it behind a lock.)
#[derive(Debug)]
pub struct BindingBridge {
    pub response: Option<BindingResponse>,
}

impl BindingBridge {
    /// An empty hand-over.
    pub fn new() -> (b: Self)
        ensures
            b.response is None,
    {
        BindingBridge { response: None }
    }

    /// Drops an answer that was not taken.
    pub fn reset(&mut self)
        ensures
            final(self).response is None,
    {
        self.response = None;
    }

    /// Puts the user's answer in, replacing one not yet taken.
    pub fn submit(&mut self, response: BindingResponse)
        ensures
            final(self).response == Some(response),
    {
        self.response = Some(response);
    }

    /// Takes the answer out: each answer is delivered once.
    pub fn take(&mut self) -> (r: Option<BindingResponse>)
        ensures
            r == old(self).response,
            final(self).response is None,
    {
        let r = self.response.take();
        r
    }
}

} // verus!
