//! Stored formation bindings.
//!
//! Bindings are kept by "formation fingerprint": the perceptual hashes of the deploy
//! bar's avatars. Reading and writing the files is the application's part; this module
//! holds the store and its rules.
use vstd::prelude::*;
use vstd::relations::sorted_by;

use crate::continuation::ContinuationPlan;
use crate::names::NameMap;
use crate::sorting;
use crate::text;

verus! {

/// The configuration file, next to the executable.
pub const CONFIG_FILE: &'static str = "config.json";
/// The bindings file, next to the executable.
pub const BINDINGS_FILE: &'static str = "bindings.json";

#[verifier::external_type_specification]
#[verifier::external_body]
pub struct ExDecodeError(base64::DecodeError);

/// The standard base64 text (RFC 4648 alphabet, padded) of `bytes`.
pub uninterp spec fn base64_text(bytes: Seq<u8>) -> Seq<char>;

/// The bytes that the standard base64 engine decodes `text` into, or `None` when it
/// refuses the text.
pub uninterp spec fn base64_bytes(text: Seq<char>) -> Option<Seq<u8>>;

/// Encodes with `base64::engine::general_purpose::STANDARD`; the text depends on the
/// bytes alone, and the same engine decodes it back into them.
#[verifier::external_body]
fn encode_base64(bytes: &[u8]) -> (s: String)
    ensures
        s@ == base64_text(bytes@),
        base64_bytes(s@) == Some(bytes@),
{
    base64::Engine::encode(&base64::engine::general_purpose::STANDARD, bytes)
}

/// Decodes with `base64::engine::general_purpose::STANDARD`; the outcome depends on the
/// text alone.
#[verifier::external_body]
fn decode_base64(text: &str) -> (r: Result<Vec<u8>, base64::DecodeError>)
    ensures
        match r {
            Ok(b) => base64_bytes(text@) == Some(b@),
            Err(_) => base64_bytes(text@) is None,
        },
{
    base64::Engine::decode(&base64::engine::general_purpose::STANDARD, text)
}

/// One operator's binding on the deploy bar.
#[derive(Clone, Debug, PartialEq)]
pub struct Binding {
    /// The operator's name, as the job writes it.
    pub name: String,
    /// The card's position when it was bound (a hint only).
    pub index: usize,
    /// The class, for pre-matching on the binding panel.
    pub role: String,
    /// Size of the avatar crop.
    pub width: u32,
    pub height: u32,
    /// The avatar crop (BGRA), base64. Tracking the card across frames relies on it.
    pub avatar_base64: String,
}

/// The bindings of one formation.
#[derive(Clone, Debug, Default, PartialEq)]
pub struct BindingProfile {
    /// The stage, for display only.
    pub stage_name: String,
    pub bindings: Vec<Binding>,
}

/// An operator's latest avatar, kept across formations; a continuation restores
/// operators that are not on the deploy bar from it.
#[derive(Clone, Debug, PartialEq)]
pub struct StoredAvatar {
    pub width: u32,
    pub height: u32,
    pub bgra_base64: String,
}

/// A stored avatar whose bytes cannot be decoded.
#[derive(Clone, Copy, Debug, PartialEq, Eq, Structural)]
pub struct InvalidAvatar;

impl StoredAvatar {
    /// Stores an avatar crop.
    pub fn from_bgra(width: u32, height: u32, bgra: &[u8]) -> (a: Self)
        ensures
            a.width == width,
            a.height == height,
            a.bgra_base64@ == base64_text(bgra@),
            base64_bytes(a.bgra_base64@) == Some(bgra@),
    {
        StoredAvatar { width, height, bgra_base64: encode_base64(bgra) }
    }

    /// The stored crop's bytes.
    pub fn decode(&self) -> (r: Result<Vec<u8>, InvalidAvatar>)
        ensures
            match r {
                Ok(b) => base64_bytes(self.bgra_base64@) == Some(b@),
                Err(_) => base64_bytes(self.bgra_base64@) is None,
            },
    {
        match decode_base64(self.bgra_base64.as_str()) {
            Ok(b) => Ok(b),
            Err(_) => Err(InvalidAvatar),
        }
    }
}

/// Every saved binding profile, by formation fingerprint, and the latest avatar of each
/// operator, by name.
#[derive(Debug)]
pub struct BindingStore {
    pub profiles: NameMap<BindingProfile>,
    pub avatars: NameMap<StoredAvatar>,
}

impl BindingStore {
    pub open spec fn wf(&self) -> bool {
        self.profiles.wf() && self.avatars.wf()
    }

    /// An empty store.
    pub fn new() -> (s: Self)
        ensures
            s.wf(),
            s.profiles@ == Map::<Seq<char>, BindingProfile>::empty(),
            s.avatars@ == Map::<Seq<char>, StoredAvatar>::empty(),
    {
        BindingStore { profiles: NameMap::new(), avatars: NameMap::new() }
    }

    /// The profile saved for a formation.
    pub fn get(&self, fingerprint: &str) -> (r: Option<&BindingProfile>)
        requires
            self.wf(),
        ensures
            match r {
                Some(p) => self.profiles@.dom().contains(fingerprint@) && *p
                    == self.profiles@[fingerprint@],
                None => !self.profiles@.dom().contains(fingerprint@),
            },
    {
        self.profiles.get(fingerprint)
    }

    /// Saves the profile of a formation, replacing an earlier one.
    pub fn put(&mut self, fingerprint: String, profile: BindingProfile)
        requires
            old(self).wf(),
        ensures
            final(self).wf(),
            final(self).profiles@ == old(self).profiles@.insert(fingerprint@, profile),
            final(self).avatars@ == old(self).avatars@,
    {
        self.profiles.insert(fingerprint, profile);
    }

    /// Keeps an operator's latest avatar.
    pub fn remember_avatar(&mut self, name: String, width: u32, height: u32, bgra: &[u8])
        requires
            old(self).wf(),
        ensures
            final(self).wf(),
            final(self).profiles@ == old(self).profiles@,
            final(self).avatars@.dom() == old(self).avatars@.dom().insert(name@),
            forall|k: Seq<char>|
                #[trigger] final(self).avatars@.dom().contains(k) && k != name@
                    ==> final(self).avatars@[k] == old(self).avatars@[k],
            ({
                let a = final(self).avatars@[name@];
                &&& a.width == width && a.height == height
                &&& a.bgra_base64@ == base64_text(bgra@)
                &&& base64_bytes(a.bgra_base64@) == Some(bgra@)
            }),
    {
        let avatar = StoredAvatar::from_bgra(width, height, bgra);
        self.avatars.insert(name, avatar);
    }

    /// An operator's stored avatar.
    pub fn avatar(&self, name: &str) -> (r: Option<&StoredAvatar>)
        requires
            self.wf(),
        ensures
            match r {
                Some(a) => self.avatars@.dom().contains(name@) && *a == self.avatars@[name@],
                None => !self.avatars@.dom().contains(name@),
            },
    {
        self.avatars.get(name)
    }
}

/// What a read gives back of a write: the profile saved last for a fingerprint is the
/// one found, and saving it changes no other fingerprint's profile.
pub proof fn lemma_profile_read_after_write(
    profiles: Map<Seq<char>, BindingProfile>,
    fingerprint: Seq<char>,
    profile: BindingProfile,
    other: Seq<char>,
)
    ensures
        profiles.insert(fingerprint, profile).dom().contains(fingerprint),
        profiles.insert(fingerprint, profile)[fingerprint] == profile,
        other != fingerprint ==> (profiles.insert(fingerprint, profile).dom().contains(other)
            == profiles.dom().contains(other)),
        other != fingerprint && profiles.dom().contains(other) ==> profiles.insert(
            fingerprint,
            profile,
        )[other] == profiles[other],
{
}

// ---------------------------------------------------------------------------
// Formation fingerprints.
// ---------------------------------------------------------------------------

/// Hashes as 16-digit hexadecimal numbers joined by `-`.
pub open spec fn joined_hex(hashes: Seq<u64>) -> Seq<char>
    decreases hashes.len(),
{
    if hashes.len() == 0 {
        Seq::empty()
    } else if hashes.len() == 1 {
        text::hex_fixed(hashes[0] as nat, 16)
    } else {
        joined_hex(hashes.drop_last()) + "-"@ + text::hex_fixed(hashes.last() as nat, 16)
    }
}

/// A deploy bar's fingerprint: its avatars' hashes in ascending order (cards reorder as
/// they cool down, the set stays), as 16-digit hex joined by `-`.
pub open spec fn fingerprint_text(hashes: Seq<u64>) -> Seq<char> {
    joined_hex(hashes.sort_by(sorting::u64_le()))
}

/// A sorted sequence of hashes is the sorted form of any sequence with its elements.
proof fn lemma_is_the_sorted_form(sorted: Seq<u64>, hashes: Seq<u64>)
    requires
        sorted_by(sorted, sorting::u64_le()),
        sorted.to_multiset() == hashes.to_multiset(),
    ensures
        sorted == hashes.sort_by(sorting::u64_le()),
{
    sorting::lemma_u64_le_total();
    hashes.lemma_sort_by_ensures(sorting::u64_le());
    sorting::lemma_sorted_unique(sorted, hashes.sort_by(sorting::u64_le()), sorting::u64_le());
}

/// See [`fingerprint_text`].
pub fn fingerprint(avatar_hashes: &[u64]) -> (s: String)
    ensures
        s@ == fingerprint_text(avatar_hashes@),
{
    let mut hashes: Vec<u64> = Vec::new();
    let mut i: usize = 0;
    while i < avatar_hashes.len()
        invariant
            i <= avatar_hashes@.len(),
            hashes@ == avatar_hashes@.subrange(0, i as int),
        decreases avatar_hashes@.len() - i,
    {
        hashes.push(avatar_hashes[i]);
        assert(hashes@ =~= avatar_hashes@.subrange(0, i + 1));
        i = i + 1;
    }
    assert(hashes@ =~= avatar_hashes@);
    let sorted = sorting::sort_u64(&hashes);
    proof {
        lemma_is_the_sorted_form(sorted@, avatar_hashes@);
    }
    let mut out = String::new();
    let mut k: usize = 0;
    assert(sorted@.subrange(0, 0) =~= Seq::<u64>::empty());
    assert(out@ =~= joined_hex(sorted@.subrange(0, 0)));
    while k < sorted.len()
        invariant
            k <= sorted@.len(),
            out@ == joined_hex(sorted@.subrange(0, k as int)),
        decreases sorted@.len() - k,
    {
        assert(sorted@.subrange(0, k + 1).drop_last() =~= sorted@.subrange(0, k as int));
        if k > 0 {
            out.append("-");
        }
        text::push_hex_fixed(&mut out, sorted[k], 16);
        k = k + 1;
    }
    assert(sorted@.subrange(0, k as int) =~= sorted@);
    out
}

/// A fingerprint does not depend on the order of the cards: two bars with the same
/// avatar hashes, in any order, have the same fingerprint.
pub proof fn lemma_fingerprint_ignores_card_order(a: Seq<u64>, b: Seq<u64>)
    requires
        a.to_multiset() == b.to_multiset(),
    ensures
        fingerprint_text(a) == fingerprint_text(b),
{
    sorting::lemma_u64_le_total();
    a.lemma_sort_by_ensures(sorting::u64_le());
    b.lemma_sort_by_ensures(sorting::u64_le());
    sorting::lemma_sorted_unique(
        a.sort_by(sorting::u64_le()),
        b.sort_by(sorting::u64_le()),
        sorting::u64_le(),
    );
}

// ---------------------------------------------------------------------------
// Avatars a continuation needs.
// ---------------------------------------------------------------------------

/// Whether a stored avatar is usable: it decodes into exactly `width * height` BGRA
/// pixels, neither side zero.
pub open spec fn avatar_usable(a: StoredAvatar) -> bool {
    match base64_bytes(a.bgra_base64@) {
        Some(bytes) => a.width > 0 && a.height > 0 && bytes.len() == a.width * a.height * 4,
        None => false,
    }
}

/// The problem with an archived operator's avatar, if it has one.
pub open spec fn archive_issue(name: Seq<char>, avatars: Map<Seq<char>, StoredAvatar>) -> Option<
    Seq<char>,
> {
    if !avatars.dom().contains(name) {
        Some("缺少干员「"@ + name + "」的头像档案"@)
    } else if !avatar_usable(avatars[name]) {
        Some("干员「"@ + name + "」的头像档案损坏"@)
    } else {
        None
    }
}

/// The problems of the archived operators' avatars, in order.
pub open spec fn archive_issues(names: Seq<Seq<char>>, avatars: Map<Seq<char>, StoredAvatar>) -> Seq<
    Seq<char>,
>
    decreases names.len(),
{
    if names.len() == 0 {
        Seq::empty()
    } else {
        let before = archive_issues(names.drop_last(), avatars);
        match archive_issue(names.last(), avatars) {
            Some(m) => before.push(m),
            None => before,
        }
    }
}

/// The byte size of a `width`×`height` BGRA image.
fn pixel_bytes(width: u32, height: u32) -> (n: u128)
    ensures
        n == width * height * 4,
{
    let w = width as u128;
    let h = height as u128;
    assert(w * h <= 0xffff_ffff * 0xffff_ffffu128) by (nonlinear_arith)
        requires
            w <= 0xffff_ffff,
            h <= 0xffff_ffff,
    ;
    w * h * 4
}

/// The problems that keep a continuation from restoring its archived operators: a
/// missing or unusable stored avatar, one message per operator.
pub fn continuation_archive_issues(plan: &ContinuationPlan, store: &BindingStore) -> (r: Vec<
    String,
>)
    requires
        store.wf(),
    ensures
        sorting::views(r@) == archive_issues(
            sorting::views(plan.archived_binding_names@),
            store.avatars@,
        ),
{
    let names = &plan.archived_binding_names;
    let mut out: Vec<String> = Vec::new();
    let mut i: usize = 0;
    assert(sorting::views(names@.subrange(0, 0)) =~= Seq::<Seq<char>>::empty());
    assert(sorting::views(out@) =~= Seq::<Seq<char>>::empty());
    while i < names.len()
        invariant
            store.wf(),
            i <= names@.len(),
            sorting::views(out@) == archive_issues(
                sorting::views(names@.subrange(0, i as int)),
                store.avatars@,
            ),
        decreases names@.len() - i,
    {
        let name = names[i].as_str();
        let ghost before = sorting::views(out@);
        assert(sorting::views(names@.subrange(0, i + 1)).drop_last() =~= sorting::views(
            names@.subrange(0, i as int),
        ));
        assert(sorting::views(names@.subrange(0, i + 1)).last() == names@[i as int]@);
        match store.avatar(name) {
            None => {
                let mut m = String::from_str("缺少干员「");
                m.append(name);
                m.append("」的头像档案");
                out.push(m);
                assert(sorting::views(out@) =~= before.push(m@));
            },
            Some(avatar) => {
                let usable = match avatar.decode() {
                    Ok(bytes) => avatar.width > 0 && avatar.height > 0 && (bytes.len() as u128)
                        == pixel_bytes(avatar.width, avatar.height),
                    Err(_) => false,
                };
                if !usable {
                    let mut m = String::from_str("干员「");
                    m.append(name);
                    m.append("」的头像档案损坏");
                    out.push(m);
                    assert(sorting::views(out@) =~= before.push(m@));
                }
            },
        }
        i = i + 1;
    }
    assert(names@.subrange(0, i as int) =~= names@);
    out
}


/// `bindings` without any binding of `b`'s name or of `b`'s card.
pub open spec fn without_slot(bindings: Seq<Binding>, b: Binding) -> Seq<Binding> {
    bindings.filter(|x: Binding| x.name@ != b.name@ && x.index != b.index)
}

/// Records `b` in `profile`: an earlier binding of the same name or of the same card
/// gives way, and `b` comes last.
pub fn record_binding(profile: &mut BindingProfile, b: Binding)
    ensures
        final(profile).bindings@ == without_slot(old(profile).bindings@, b).push(b),
        final(profile).stage_name == old(profile).stage_name,
{
    let ghost before = profile.bindings@;
    let mut rest: Vec<Binding> = Vec::new();
    std::mem::swap(&mut rest, &mut profile.bindings);
    let mut kept: Vec<Binding> = Vec::new();
    let ghost mut k: int = 0;
    proof {
        reveal(Seq::filter);
        assert(before.subrange(0, 0) =~= Seq::<Binding>::empty());
        assert(rest@ =~= before.subrange(0, before.len() as int));
    }
    while rest.len() > 0
        invariant
            0 <= k <= before.len(),
            rest@ == before.subrange(k, before.len() as int),
            kept@ == without_slot(before.subrange(0, k), b),
            profile.stage_name == old(profile).stage_name,
            before == old(profile).bindings@,
        decreases rest@.len(),
    {
        let x = rest.remove(0);
        proof {
            reveal(Seq::filter);
            assert(before.subrange(0, k + 1).drop_last() =~= before.subrange(0, k));
            assert(before.subrange(0, k + 1).last() == x);
        }
        if !text::str_eq(x.name.as_str(), b.name.as_str()) && x.index != b.index {
            kept.push(x);
        }
        proof {
            assert(rest@ =~= before.subrange(k + 1, before.len() as int));
            k = k + 1;
        }
    }
    proof {
        assert(before.subrange(0, k) =~= before);
    }
    kept.push(b);
    profile.bindings = kept;
}

/// What is wrong with one choice of the start-up binding panel.
#[derive(Clone, Copy, Debug, PartialEq, Eq, Structural)]
pub enum ChoiceProblem {
    /// The name is not among the names the start-up binding asks for.
    NotWanted,
    /// An earlier choice already took the name.
    Duplicate,
    /// No visible card has the index.
    NoSuchCard,
}

/// What is wrong with choice `k`, given the choices before it: the name is checked
/// before the card.
pub open spec fn choice_problem(
    choices: Seq<(usize, String)>,
    wanted: Seq<Seq<char>>,
    cards: Seq<usize>,
    k: int,
) -> Option<ChoiceProblem> {
    let (index, name) = choices[k];
    if !wanted.contains(name@) {
        Some(ChoiceProblem::NotWanted)
    } else if exists|j: int| 0 <= j < k && (#[trigger] choices[j]).1@ == name@ {
        Some(ChoiceProblem::Duplicate)
    } else if !cards.contains(index) {
        Some(ChoiceProblem::NoSuchCard)
    } else {
        None
    }
}

/// Every choice names a wanted target, no name is chosen twice, and every card index
/// is a visible card.
pub open spec fn choices_valid(choices: Seq<(usize, String)>, wanted: Seq<Seq<char>>, cards: Seq<usize>) -> bool {
    &&& forall|i: int| 0 <= i < choices.len() ==> wanted.contains((#[trigger] choices[i]).1@)
    &&& forall|i: int, j: int| 0 <= i < j < choices.len() ==> (#[trigger] choices[i]).1@ != (#[trigger] choices[j]).1@
    &&& forall|i: int| 0 <= i < choices.len() ==> cards.contains((#[trigger] choices[i]).0)
}

/// Whether a choice before `i` takes `name`.
fn name_taken_before(choices: &Vec<(usize, String)>, i: usize, name: &str) -> (b: bool)
    requires
        i <= choices@.len(),
    ensures
        b == exists|t: int| 0 <= t < i && (#[trigger] choices@[t]).1@ == name@,
{
    let mut j: usize = 0;
    while j < i
        invariant
            j <= i <= choices@.len(),
            forall|t: int| 0 <= t < j ==> (#[trigger] choices@[t]).1@ != name@,
        decreases i - j,
    {
        if text::str_eq(choices[j].1.as_str(), name) {
            return true;
        }
        j = j + 1;
    }
    false
}

proof fn lemma_duplicate_choice(
    choices: Seq<(usize, String)>,
    wanted: Seq<Seq<char>>,
    cards: Seq<usize>,
    i: int,
    j: int,
)
    requires
        0 <= j < i < choices.len(),
        wanted.contains(choices[i].1@),
        choices[j].1@ == choices[i].1@,
    ensures
        choice_problem(choices, wanted, cards, i) == Some(ChoiceProblem::Duplicate),
        !choices_valid(choices, wanted, cards),
{
    assert(exists|t: int| 0 <= t < i && (#[trigger] choices[t]).1@ == choices[i].1@);
}

/// A refused start-up binding: the first offending choice.
#[derive(Debug)]
pub enum StartupChoiceError {
    NotWanted { name: String },
    Duplicate { name: String },
    NoSuchCard { index: usize },
}

/// `e` reports `problem` of `choice`.
pub open spec fn reports(e: StartupChoiceError, choice: (usize, String), problem: ChoiceProblem) -> bool {
    match problem {
        ChoiceProblem::NotWanted => e matches StartupChoiceError::NotWanted { name } && name@ == choice.1@,
        ChoiceProblem::Duplicate => e matches StartupChoiceError::Duplicate { name } && name@ == choice.1@,
        ChoiceProblem::NoSuchCard => e matches StartupChoiceError::NoSuchCard { index } && index == choice.0,
    }
}

/// The user-facing explanation of a refused start-up binding.
pub open spec fn startup_choice_message(e: StartupChoiceError) -> Seq<char> {
    match e {
        StartupChoiceError::NotWanted { name } => "绑定名称「"@ + name@ + "」不在当前开局编队中"@,
        StartupChoiceError::Duplicate { name } => "开局绑定中目标「"@ + name@ + "」被分配给多张卡片"@,
        StartupChoiceError::NoSuchCard { index } => "卡片序号 "@ + text::decimal(index as int) + " 不存在"@,
    }
}

impl StartupChoiceError {
    /// See [`startup_choice_message`].
    pub fn message(&self) -> (s: String)
        ensures
            s@ == startup_choice_message(*self),
    {
        match self {
            StartupChoiceError::NotWanted { name } => {
                let mut s = String::from_str("绑定名称「");
                s.append(name.as_str());
                s.append("」不在当前开局编队中");
                s
            },
            StartupChoiceError::Duplicate { name } => {
                let mut s = String::from_str("开局绑定中目标「");
                s.append(name.as_str());
                s.append("」被分配给多张卡片");
                s
            },
            StartupChoiceError::NoSuchCard { index } => {
                let mut s = String::from_str("卡片序号 ");
                text::push_decimal_u64(&mut s, *index as u64);
                s.append(" 不存在");
                s
            },
        }
    }
}

/// Checks the choices the user confirmed on the start-up binding panel (card index and
/// target name each) against the names the start-up binding asks for and the visible
/// cards. Succeeds exactly when the choices are valid; otherwise reports the first
/// offending choice.
pub fn check_startup_choices(
    choices: &Vec<(usize, String)>,
    wanted: &Vec<String>,
    card_indices: &Vec<usize>,
) -> (r: Result<(), StartupChoiceError>)
    ensures
        r is Ok <==> choices_valid(choices@, sorting::views(wanted@), card_indices@),
        r matches Err(e) ==> exists|k: int|
            0 <= k < choices@.len() && choices_valid(
                choices@.take(k),
                sorting::views(wanted@),
                card_indices@,
            ) && choice_problem(choices@, sorting::views(wanted@), card_indices@, k) is Some && reports(
                e,
                #[trigger] choices@[k],
                choice_problem(choices@, sorting::views(wanted@), card_indices@, k).unwrap(),
            ),
{
    let ghost w = sorting::views(wanted@);
    let mut i: usize = 0;
    while i < choices.len()
        invariant
            i <= choices@.len(),
            w == sorting::views(wanted@),
            choices_valid(choices@.take(i as int), w, card_indices@),
        decreases choices@.len() - i,
    {
        let ghost pre = choices@.take(i as int);
        let (index, name) = (choices[i].0, &choices[i].1);
        if !crate::job_items::contains_text(wanted, name.as_str()) {
            assert(choice_problem(choices@, w, card_indices@, i as int) == Some(ChoiceProblem::NotWanted));
            assert(!choices_valid(choices@, w, card_indices@)) by {
                assert(!w.contains(choices@[i as int].1@));
            }
            return Err(StartupChoiceError::NotWanted { name: name.clone() });
        }
        if name_taken_before(choices, i, name.as_str()) {
            proof {
                let j = choose|t: int| 0 <= t < i && (#[trigger] choices@[t]).1@ == name@;
                lemma_duplicate_choice(choices@, w, card_indices@, i as int, j);
            }
            return Err(StartupChoiceError::Duplicate { name: name.clone() });
        }
        let mut found = false;
        let mut c: usize = 0;
        while c < card_indices.len()
            invariant
                c <= card_indices@.len(),
                found == exists|t: int| 0 <= t < c && card_indices@[t] == index,
            decreases card_indices@.len() - c,
        {
            if card_indices[c] == index {
                found = true;
            }
            c = c + 1;
        }
        if !found {
            assert(choice_problem(choices@, w, card_indices@, i as int) == Some(ChoiceProblem::NoSuchCard));
            assert(!choices_valid(choices@, w, card_indices@)) by {
                assert(!card_indices@.contains(choices@[i as int].0));
            }
            return Err(StartupChoiceError::NoSuchCard { index });
        }
        proof {
            let next = choices@.take(i + 1);
            assert(next =~= pre.push(choices@[i as int]));
            assert forall|a: int, b: int| 0 <= a < b < next.len() implies (#[trigger] next[a]).1@
                != (#[trigger] next[b]).1@ by {
                if b < i {
                    assert(next[a] == pre[a] && next[b] == pre[b]);
                } else {
                    assert(next[b] == choices@[i as int]);
                    assert(next[a] == choices@[a]);
                }
            }
            assert forall|a: int| 0 <= a < next.len() implies w.contains((#[trigger] next[a]).1@) by {
                if a < i {
                    assert(next[a] == pre[a]);
                }
            }
            assert forall|a: int| 0 <= a < next.len() implies card_indices@.contains((#[trigger] next[a]).0) by {
                if a < i {
                    assert(next[a] == pre[a]);
                }
            }
        }
        i = i + 1;
    }
    assert(choices@.take(i as int) =~= choices@);
    Ok(())
}


/// The saved bindings that apply to a start-up binding, as (card index, name) in the
/// profile's order, from `i` on: a binding applies when its name is wanted and not
/// bound yet (neither before nor by an earlier binding that applied) and its card is
/// among the visible ones.
pub open spec fn restorable_from(
    bindings: Seq<Binding>,
    wanted: Seq<Seq<char>>,
    bound: Seq<Seq<char>>,
    cards: Seq<usize>,
    i: int,
) -> Seq<(usize, Seq<char>)>
    decreases bindings.len() - i,
{
    if i < 0 || i >= bindings.len() {
        Seq::empty()
    } else {
        let b = bindings[i];
        if wanted.contains(b.name@) && !bound.contains(b.name@) && cards.contains(b.index) {
            seq![(b.index, b.name@)] + restorable_from(bindings, wanted, bound.push(b.name@), cards, i + 1)
        } else {
            restorable_from(bindings, wanted, bound, cards, i + 1)
        }
    }
}

/// A pair list as plain values.
pub open spec fn choice_views(v: Seq<(usize, String)>) -> Seq<(usize, Seq<char>)> {
    v.map_values(|c: (usize, String)| (c.0, c.1@))
}

/// The saved bindings of a formation that can be restored without asking: see
/// [`restorable_from`]. `already_bound` are the names bound before.
pub fn restorable_bindings(
    bindings: &Vec<Binding>,
    wanted: &Vec<String>,
    already_bound: &Vec<String>,
    card_indices: &Vec<usize>,
) -> (r: Vec<(usize, String)>)
    ensures
        choice_views(r@) == restorable_from(
            bindings@,
            sorting::views(wanted@),
            sorting::views(already_bound@),
            card_indices@,
            0,
        ),
{
    let ghost w = sorting::views(wanted@);
    let ghost b0 = sorting::views(already_bound@);
    let mut bound: Vec<String> = Vec::new();
    let mut k: usize = 0;
    while k < already_bound.len()
        invariant
            k <= already_bound@.len(),
            sorting::views(bound@) == sorting::views(already_bound@).take(k as int),
        decreases already_bound@.len() - k,
    {
        let ghost before = sorting::views(bound@);
        bound.push(already_bound[k].clone());
        assert(sorting::views(bound@) =~= before.push(already_bound@[k as int]@));
        assert(sorting::views(already_bound@).take(k + 1) =~= sorting::views(already_bound@).take(
            k as int,
        ).push(already_bound@[k as int]@));
        k = k + 1;
    }
    assert(sorting::views(already_bound@).take(k as int) =~= b0);
    let mut out: Vec<(usize, String)> = Vec::new();
    let mut i: usize = 0;
    while i < bindings.len()
        invariant
            i <= bindings@.len(),
            w == sorting::views(wanted@),
            choice_views(out@) + restorable_from(bindings@, w, sorting::views(bound@), card_indices@, i as int)
                == restorable_from(bindings@, w, b0, card_indices@, 0),
        decreases bindings@.len() - i,
    {
        let b = &bindings[i];
        let ghost cur = sorting::views(bound@);
        let applies = crate::job_items::contains_text(wanted, b.name.as_str())
            && !crate::job_items::contains_text(&bound, b.name.as_str()) && contains_index(
            card_indices,
            b.index,
        );
        if applies {
            let ghost before = choice_views(out@);
            out.push((b.index, b.name.clone()));
            bound.push(b.name.clone());
            assert(choice_views(out@) =~= before.push((b.index, b.name@)));
            assert(sorting::views(bound@) =~= cur.push(b.name@));
            assert(restorable_from(bindings@, w, cur, card_indices@, i as int) == seq![(b.index, b.name@)]
                + restorable_from(bindings@, w, cur.push(b.name@), card_indices@, i + 1));
            assert(before.push((b.index, b.name@)) + restorable_from(bindings@, w, cur.push(b.name@), card_indices@, i + 1)
                =~= before + (seq![(b.index, b.name@)] + restorable_from(bindings@, w, cur.push(b.name@), card_indices@, i + 1)));
        }
        i = i + 1;
    }
    assert(choice_views(out@) + Seq::<(usize, Seq<char>)>::empty() =~= choice_views(out@));
    out
}

/// Whether `index` is among `cards`.
fn contains_index(cards: &Vec<usize>, index: usize) -> (b: bool)
    ensures
        b == cards@.contains(index),
{
    let mut i: usize = 0;
    while i < cards.len()
        invariant
            i <= cards@.len(),
            forall|j: int| 0 <= j < i ==> cards@[j] != index,
        decreases cards@.len() - i,
    {
        if cards[i] == index {
            assert(cards@[i as int] == index);
            return true;
        }
        i = i + 1;
    }
    false
}

} // verus!
