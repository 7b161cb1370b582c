//! The obscurer: a hint is the secret with some of its characters masked.

use rand::rngs::StdRng;
use vstd::prelude::*;
use vstd::set_lib::{
    lemma_int_range, lemma_len_subset, lemma_set_disjoint_lens, lemma_subset_equality,
    set_int_range,
};
use crate::error::TrainingError;
use crate::trusted::draw_between;

verus! {

/// The character that stands in for a hidden one.
pub const MASK: char = '*';

/// The set of positions that a list of positions names.
pub open spec fn positions_of(picked: Seq<usize>) -> Set<int> {
    picked.map_values(|p: usize| p as int).to_set()
}

/// `secret` with the characters at the positions in `hidden` masked.
pub open spec fn mask_at(secret: Seq<char>, hidden: Set<int>) -> Seq<char> {
    Seq::new(
        secret.len(),
        |i: int|
            if hidden.contains(i) {
                MASK
            } else {
                secret[i]
            },
    )
}

/// `hidden` is a choice of `level` positions of `secret`, and `shown` is
/// `secret` with exactly those masked.
pub open spec fn hides(secret: Seq<char>, hidden: Set<int>, level: nat, shown: Seq<char>) -> bool {
    &&& hidden.finite()
    &&& hidden.len() == level
    &&& forall|i: int| hidden.contains(i) ==> 0 <= i < secret.len()
    &&& shown == mask_at(secret, hidden)
}

/// `shown` is `secret` with some `level` distinct positions masked.
pub open spec fn is_obscured(secret: Seq<char>, level: nat, shown: Seq<char>) -> bool {
    exists|hidden: Set<int>| #[trigger] hides(secret, hidden, level, shown)
}

/// Whether the mask character occurs nowhere in `text`.
pub open spec fn free_of_mask(text: Seq<char>) -> bool {
    forall|i: int| 0 <= i < text.len() ==> text[i] != MASK
}

/// The positions at which `text` shows the mask.
pub open spec fn masked_positions(text: Seq<char>) -> Set<int> {
    Set::new(|i: int| 0 <= i < text.len() && text[i] == MASK)
}

/// The positions at which `shown` shows the character that `secret` has there.
pub open spec fn kept_positions(secret: Seq<char>, shown: Seq<char>) -> Set<int> {
    Set::new(|i: int| 0 <= i < secret.len() && i < shown.len() && shown[i] == secret[i])
}

/// Masks the characters of `secret` at the given positions. A position past
/// the end of the secret, or one given twice, changes nothing.
pub fn mask_positions(secret: &str, positions: &Vec<usize>) -> (shown: String)
    ensures
        shown@ == mask_at(secret@, positions_of(positions@)),
{
    let len: usize = secret.unicode_len();
    let mut flags: Vec<bool> = Vec::new();
    let mut filled: usize = 0;
    while filled < len
        invariant
            filled <= len,
            flags@.len() == filled,
            forall|j: int| 0 <= j < filled ==> !flags@[j],
        decreases len - filled,
    {
        flags.push(false);
        filled += 1;
    }
    let mut k: usize = 0;
    while k < positions.len()
        invariant
            k <= positions.len(),
            flags@.len() == len,
            forall|j: int|
                0 <= j < len ==> (flags@[j] <==> exists|m: int|
                    0 <= m < k && #[trigger] positions@[m] == j),
        decreases positions.len() - k,
    {
        let position: usize = positions[k];
        if position < len {
            flags.set(position, true);
        }
        k += 1;
    }
    let ghost hidden = positions_of(positions@);
    assert forall|j: int| 0 <= j < len implies (#[trigger] flags@[j] <==> hidden.contains(j)) by {
        let ints = positions@.map_values(|p: usize| p as int);
        if flags@[j] {
            let m = choose|m: int| 0 <= m < k && #[trigger] positions@[m] == j;
            assert(ints[m] == j);
        }
    }
    let mut shown = String::new();
    let mut at: usize = 0;
    for c in it: secret.chars()
        invariant
            it.seq() == secret@,
            at == it.index(),
            flags@.len() == len == secret@.len(),
            forall|j: int| 0 <= j < flags@.len() ==> (#[trigger] flags@[j] <==> hidden.contains(j)),
            shown@ == mask_at(secret@, hidden).take(at as int),
    {
        if flags[at] {
            shown.push(MASK);
        } else {
            shown.push(c);
        }
        at += 1;
    }
    shown
}

/// A list of positions below `len` without repeats names as many positions
/// as it is long, all of them inside a secret of `len` characters.
pub proof fn lemma_distinct_positions(picked: Seq<usize>, len: nat)
    requires
        picked.no_duplicates(),
        forall|k: int| 0 <= k < picked.len() ==> picked[k] < len,
    ensures
        positions_of(picked).finite(),
        positions_of(picked).len() == picked.len(),
        forall|i: int| positions_of(picked).contains(i) ==> 0 <= i < len,
{
    let ints = picked.map_values(|p: usize| p as int);
    assert(ints.no_duplicates());
    ints.unique_seq_to_set();
}

/// A hint is as long as its secret and hides no more characters than the
/// secret has. Each position shows the mask or the secret's own character, and
/// the mask stands at `level` positions at least.
pub proof fn lemma_hint_shape(secret: Seq<char>, level: nat, shown: Seq<char>)
    requires
        is_obscured(secret, level, shown),
    ensures
        shown.len() == secret.len(),
        level <= secret.len(),
        forall|i: int| 0 <= i < secret.len() ==> shown[i] == MASK || shown[i] == secret[i],
        masked_positions(shown).finite(),
        level <= masked_positions(shown).len(),
{
    let hidden = choose|hidden: Set<int>| #[trigger] hides(secret, hidden, level, shown);
    let all = set_int_range(0, secret.len() as int);
    lemma_int_range(0, secret.len() as int);
    lemma_len_subset(masked_positions(shown), all);
    lemma_len_subset(hidden, masked_positions(shown));
}

/// Where the secret itself is free of the mask character, a hint of level
/// `level` shows the mask at exactly `level` positions and the secret's own
/// character at the `secret.len() - level` others.
pub proof fn lemma_hint_counts(secret: Seq<char>, level: nat, shown: Seq<char>)
    requires
        is_obscured(secret, level, shown),
        free_of_mask(secret),
    ensures
        masked_positions(shown).finite(),
        masked_positions(shown).len() == level,
        kept_positions(secret, shown).finite(),
        kept_positions(secret, shown).len() == secret.len() - level,
{
    let hidden = choose|hidden: Set<int>| #[trigger] hides(secret, hidden, level, shown);
    let all = set_int_range(0, secret.len() as int);
    let kept = kept_positions(secret, shown);
    lemma_int_range(0, secret.len() as int);
    assert(masked_positions(shown) =~= hidden);
    lemma_len_subset(kept, all);
    assert(hidden + kept =~= all);
    lemma_set_disjoint_lens(hidden, kept);
}

/// A hint of level zero is the secret itself.
pub proof fn lemma_level_zero_shows_secret(secret: Seq<char>, shown: Seq<char>)
    requires
        is_obscured(secret, 0, shown),
    ensures
        shown == secret,
{
}

/// A hint whose level is the secret's length shows the mask everywhere.
pub proof fn lemma_full_level_masks_all(secret: Seq<char>, shown: Seq<char>)
    requires
        is_obscured(secret, secret.len(), shown),
    ensures
        shown == Seq::new(secret.len(), |i: int| MASK),
{
    let hidden = choose|hidden: Set<int>| #[trigger] hides(secret, hidden, secret.len(), shown);
    let all = set_int_range(0, secret.len() as int);
    lemma_int_range(0, secret.len() as int);
    lemma_subset_equality(hidden, all);
}

/// Draws `count` distinct positions below `len`.
///
/// The positions come from a partial shuffle of `0..len`: each one is drawn
/// from those not yet taken, so that no draw is ever repeated or thrown away.
pub fn choose_positions(rng: &mut StdRng, len: usize, count: usize) -> (picked: Vec<usize>)
    requires
        count <= len,
    ensures
        picked@.len() == count,
        picked@.no_duplicates(),
        forall|k: int| 0 <= k < picked@.len() ==> picked@[k] < len,
{
    let mut pool: Vec<usize> = Vec::new();
    let mut next: usize = 0;
    while next < len
        invariant
            next <= len,
            pool@.len() == next,
            forall|k: int| 0 <= k < next ==> pool@[k] == k,
        decreases len - next,
    {
        pool.push(next);
        next += 1;
    }
    let mut picked: Vec<usize> = Vec::new();
    let mut taken: usize = 0;
    while taken < count
        invariant
            taken <= count <= len,
            pool@.len() == len,
            pool@.no_duplicates(),
            forall|k: int| 0 <= k < len ==> pool@[k] < len,
            picked@ == pool@.take(taken as int),
        decreases count - taken,
    {
        let drawn: usize = draw_between(rng, taken, len);
        let front: usize = pool[taken];
        let chosen: usize = pool[drawn];
        pool.set(taken, chosen);
        pool.set(drawn, front);
        picked.push(chosen);
        taken += 1;
    }
    picked
}

/// Hides `level` characters of a secret of `len` characters, chosen at random
/// by `rng`, behind the mask.
pub(crate) fn hide_some(secret: &str, len: usize, level: usize, rng: &mut StdRng) -> (shown: String)
    requires
        len == secret@.len(),
        level <= len,
    ensures
        is_obscured(secret@, level as nat, shown@),
{
    let picked: Vec<usize> = choose_positions(rng, len, level);
    let shown: String = mask_positions(secret, &picked);
    proof {
        lemma_distinct_positions(picked@, len as nat);
        assert(hides(secret@, positions_of(picked@), level as nat, shown@));
    }
    shown
}

/// Hides `level` characters of `secret`, chosen at random by `rng`, behind the
/// mask.
///
/// A level above the secret's length is refused: as `EmptySecret` where the
/// secret has no characters, as `InvalidLevel` otherwise. Level zero shows the
/// secret as it is, and the full length hides every character. Unless the
/// secret holds the mask character itself, the hint shows the mask exactly
/// `level` times.
pub fn obscure(secret: &str, level: usize, rng: &mut StdRng) -> (hint: Result<String, TrainingError>)
    ensures
        hint is Ok <==> level <= secret@.len(),
        hint matches Ok(shown) ==> is_obscured(secret@, level as nat, shown@),
        hint matches Ok(shown) ==> shown@.len() == secret@.len(),
        hint matches Ok(shown) ==> forall|i: int|
            0 <= i < secret@.len() ==> shown@[i] == MASK || shown@[i] == secret@[i],
        hint matches Ok(shown) ==> free_of_mask(secret@) ==> masked_positions(shown@).len() == level
            && kept_positions(secret@, shown@).len() == secret@.len() - level,
        hint matches Ok(shown) ==> level == 0 ==> shown@ == secret@,
        hint matches Ok(shown) ==> level == secret@.len() ==> shown@ == Seq::new(
            secret@.len(),
            |i: int| MASK,
        ),
        hint matches Err(refusal) ==> refusal == if secret@.len() == 0 {
            TrainingError::EmptySecret
        } else {
            TrainingError::InvalidLevel
        },
{
    let len: usize = secret.unicode_len();
    if level > len {
        if len == 0 {
            return Err(TrainingError::EmptySecret);
        }
        return Err(TrainingError::InvalidLevel);
    }
    let shown: String = hide_some(secret, len, level, rng);
    proof {
        if free_of_mask(secret@) {
            lemma_hint_counts(secret@, level as nat, shown@);
        }
        if level == len {
            lemma_full_level_masks_all(secret@, shown@);
        }
    }
    Ok(shown)
}

} // verus!
