//! Scales and chords built on a root, and the inversions of a chord.

use vstd::arithmetic::div_mod::{lemma_add_mod_noop, lemma_mod_pos_bound, lemma_small_mod};
use vstd::prelude::*;
use crate::formula::{ChordType, ScaleType};
use crate::pitch::{spec_transpose, transpose, Interval, Note};

verus! {

/// The notes that a formula gives on `root`: each interval of the formula,
/// in the formula's order, transposes the root.
pub open spec fn transpose_all(root: Note, formula: Seq<Interval>) -> Seq<Note> {
    Seq::new(formula.len(), |k: int| spec_transpose(root, formula[k]))
}

/// The notes of the scale of type `scale_type` on `root`.
pub open spec fn spec_build_scale(root: Note, scale_type: ScaleType) -> Seq<Note> {
    transpose_all(root, scale_type.formula())
}

/// The notes of the chord of type `chord_type` on `root`, in root position.
pub open spec fn spec_build_chord(root: Note, chord_type: ChordType) -> Seq<Note> {
    transpose_all(root, chord_type.formula())
}

/// The sequence `s` turned left by `k` places: it starts at `s[k]`, runs to the
/// end of `s` and goes on with `s[0]` up to `s[k - 1]`.
pub open spec fn rotate_left<T>(s: Seq<T>, k: int) -> Seq<T>
    recommends
        0 <= k <= s.len(),
{
    s.subrange(k, s.len() as int) + s.subrange(0, k)
}

/// The sequence `s` after `times` turns to the left of one place each.
pub open spec fn rotate_once_repeated<T>(s: Seq<T>, times: nat) -> Seq<T>
    decreases times,
{
    if times == 0 {
        s
    } else {
        rotate_left(rotate_once_repeated(s, (times - 1) as nat), 1)
    }
}

/// Transposes the root by each interval of a formula, in order.
fn transpose_each(root: Note, formula: &[Interval]) -> (notes: Vec<Note>)
    ensures
        notes@ == transpose_all(root, formula@),
{
    let mut notes: Vec<Note> = Vec::new();
    let mut k: usize = 0;
    while k < formula.len()
        invariant
            k <= formula.len(),
            notes@ == transpose_all(root, formula@.take(k as int)),
        decreases formula.len() - k,
    {
        notes.push(transpose(root, formula[k]));
        k += 1;
        assert(notes@ =~= transpose_all(root, formula@.take(k as int)));
    }
    assert(formula@.take(k as int) =~= formula@);
    notes
}

/// Builds the notes of a scale from its root and its type: one note for each
/// interval of the scale's formula, in the formula's order.
pub fn build_scale(root: Note, scale_type: ScaleType) -> (notes: Vec<Note>)
    ensures
        notes@ == spec_build_scale(root, scale_type),
        notes@.len() == scale_type.formula().len(),
{
    transpose_each(root, scale_type.intervals())
}

/// Builds the notes of a chord from its root and its type, in root position:
/// one note for each interval of the chord's formula, in the formula's order.
pub fn build_chord(root: Note, chord_type: ChordType) -> (notes: Vec<Note>)
    ensures
        notes@ == spec_build_chord(root, chord_type),
        notes@.len() == chord_type.formula().len(),
{
    transpose_each(root, chord_type.intervals())
}

/// Copies the notes, starting at place `k` and going round to the note
/// before it.
fn rotated(notes: &[Note], k: usize) -> (turned: Vec<Note>)
    requires
        k <= notes.len(),
    ensures
        turned@ == rotate_left(notes@, k as int),
{
    let mut turned: Vec<Note> = Vec::new();
    let mut j: usize = k;
    while j < notes.len()
        invariant
            k <= j <= notes.len(),
            turned@ == notes@.subrange(k as int, j as int),
        decreases notes.len() - j,
    {
        turned.push(notes[j]);
        j += 1;
        assert(turned@ =~= notes@.subrange(k as int, j as int));
    }
    let mut j: usize = 0;
    while j < k
        invariant
            j <= k <= notes.len(),
            turned@ == notes@.subrange(k as int, notes.len() as int) + notes@.subrange(
                0,
                j as int,
            ),
        decreases k - j,
    {
        turned.push(notes[j]);
        j += 1;
        assert(turned@ =~= notes@.subrange(k as int, notes.len() as int) + notes@.subrange(
            0,
            j as int,
        ));
    }
    turned
}

/// Calculates all inversions of a chord: as many as the chord has notes, the
/// inversion at position `i` being the chord turned left by `i` places. The
/// first is the chord itself, and no notes give no inversions.
pub fn get_inversions(chord_notes: &[Note]) -> (inversions: Vec<Vec<Note>>)
    ensures
        inversions@.len() == chord_notes@.len(),
        forall|i: int|
            0 <= i < inversions@.len() ==> (#[trigger] inversions@[i])@ == rotate_left(
                chord_notes@,
                i,
            ),
{
    let mut inversions: Vec<Vec<Note>> = Vec::new();
    let mut i: usize = 0;
    while i < chord_notes.len()
        invariant
            i <= chord_notes.len(),
            inversions@.len() == i,
            forall|m: int|
                0 <= m < i ==> (#[trigger] inversions@[m])@ == rotate_left(chord_notes@, m),
        decreases chord_notes.len() - i,
    {
        inversions.push(rotated(chord_notes, i));
        i += 1;
    }
    inversions
}

/// A turn keeps the notes and their number, and moves the note at place
/// `(k + i) mod n` to place `i`; so the bass of the inversion at `k` is the
/// chord's note at `k`.
pub proof fn lemma_rotate_left_index<T>(s: Seq<T>, k: int, i: int)
    requires
        0 <= k < s.len(),
        0 <= i < s.len(),
    ensures
        rotate_left(s, k).len() == s.len(),
        rotate_left(s, k)[i] == s[(k + i) % (s.len() as int)],
        rotate_left(s, k)[0] == s[k],
        rotate_left(s, k).to_multiset() == s.to_multiset(),
{
    let n = s.len() as int;
    if k + i < n {
        assert((k + i) % n == k + i) by (nonlinear_arith)
            requires
                0 <= k + i < n,
        ;
    } else {
        assert((k + i) % n == k + i - n) by (nonlinear_arith)
            requires
                n <= k + i < 2 * n,
        ;
    }
    let front = s.subrange(0, k);
    let back = s.subrange(k, n);
    assert(s =~= front + back);
    vstd::seq_lib::lemma_multiset_commutative(front, back);
    vstd::seq_lib::lemma_multiset_commutative(back, front);
}

/// Turning by no place, or by as many places as there are notes, gives the
/// sequence back.
pub proof fn lemma_rotate_left_full_turn<T>(s: Seq<T>)
    ensures
        rotate_left(s, 0) == s,
        rotate_left(s, s.len() as int) == s,
{
    assert(rotate_left(s, 0) =~= s);
    assert(rotate_left(s, s.len() as int) =~= s);
}

/// Two turns one after the other are one turn by the sum of their places,
/// taken round the length.
pub proof fn lemma_rotate_left_twice<T>(s: Seq<T>, i: int, j: int)
    requires
        0 <= i < s.len(),
        0 <= j < s.len(),
    ensures
        rotate_left(rotate_left(s, i), j) == rotate_left(s, (i + j) % (s.len() as int)),
{
    let n = s.len() as int;
    let m = (i + j) % n;
    if i + j < n {
        assert(m == i + j) by (nonlinear_arith)
            requires
                m == (i + j) % n,
                0 <= i + j < n,
        ;
    } else {
        assert(m == i + j - n) by (nonlinear_arith)
            requires
                m == (i + j) % n,
                n <= i + j < 2 * n,
        ;
    }
    assert(rotate_left(rotate_left(s, i), j) =~= rotate_left(s, m));
}

/// Turning by one place again and again is turning by the number of turns,
/// taken round the length: after as many turns as there are notes the
/// sequence is the one that was started with.
pub proof fn lemma_rotation_returns<T>(s: Seq<T>, times: nat)
    requires
        s.len() > 0,
    ensures
        rotate_once_repeated(s, times) == rotate_left(s, (times % s.len()) as int),
        rotate_once_repeated(s, s.len()) == s,
{
    let n = s.len() as int;
    lemma_rotate_left_full_turn(s);
    lemma_turns_round(s, times);
    lemma_turns_round(s, s.len());
    assert((n % n) == 0) by (nonlinear_arith)
        requires
            n > 0,
    ;
}

/// Any number of single turns is one turn by that number, taken round the
/// length.
proof fn lemma_turns_round<T>(s: Seq<T>, times: nat)
    requires
        s.len() > 0,
    ensures
        rotate_once_repeated(s, times) == rotate_left(s, (times % s.len()) as int),
    decreases times,
{
    let n = s.len() as int;
    if times == 0 {
        assert(0int % n == 0) by (nonlinear_arith)
            requires
                n > 0,
        ;
        lemma_rotate_left_full_turn(s);
    } else {
        let before = (times - 1) as nat;
        lemma_turns_round(s, before);
        let r = (before % s.len()) as int;
        lemma_mod_pos_bound(before as int, n);
        lemma_mod_pos_bound(times as int, n);
        if n == 1 {
            assert(rotate_left(rotate_left(s, r), 1) =~= rotate_left(s, 0));
        } else {
            lemma_small_mod(1, n as nat);
            lemma_add_mod_noop(before as int, 1, n);
            lemma_rotate_left_twice(s, r, 1);
        }
    }
}

} // verus!
