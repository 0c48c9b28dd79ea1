//! What holds of the whole binding table: no binding uses a chord that
//! zellij's lock mode takes first, and every Space sequence that leads
//! further goes through a named submenu.

use vstd::prelude::*;

use crate::bindings::{binding_table, sc, spec_submenu_word, Chord, Key};
use crate::table::{binding_spec, BINDING_COUNT};

verus! {

/// A chord zellij keeps for its lock mode: Ctrl with g, p, t, n, h, s, o,
/// q or b.
pub open spec fn is_zellij_lock(chord: Chord) -> bool {
    chord.ctrl && match chord.key {
        Key::Char(ch) => ch == 'g' || ch == 'p' || ch == 't' || ch == 'n' || ch == 'h' || ch == 's'
            || ch == 'o' || ch == 'q' || ch == 'b',
        _ => false,
    }
}

/// Whether a Space sequence of more than two keys starts with a named
/// submenu.
pub open spec fn space_prefix_named(keys: Seq<Chord>) -> bool {
    keys.len() > 2 && keys[0] == sc(' ') ==> spec_submenu_word(keys.take(2)) is Some
}

spec fn named_second(b: Chord) -> bool {
    b == sc('f') || b == sc('F') || b == sc('p') || b == sc('t') || b == sc('T') || b == sc('v')
        || b == sc('d') || b == sc('j')
}

spec fn space_ok(keys: Seq<Chord>) -> bool {
    keys.len() > 2 && keys[0] == sc(' ') ==> named_second(keys[1])
}

proof fn lemma_space_ok(keys: Seq<Chord>)
    requires
        space_ok(keys),
    ensures
        space_prefix_named(keys),
{
    if keys.len() > 2 && keys[0] == sc(' ') {
        assert(keys.take(2) =~= seq![sc(' '), keys[1]]);
    }
}

spec fn chords_free(cs: Seq<Chord>) -> bool
    decreases cs.len(),
{
    cs.len() == 0 || (!is_zellij_lock(cs.last()) && chords_free(cs.drop_last()))
}

spec fn seqs_ok(ks: Seq<Seq<Chord>>) -> bool
    decreases ks.len(),
{
    ks.len() == 0 || (chords_free(ks.last()) && space_ok(ks.last()) && seqs_ok(ks.drop_last()))
}

proof fn lemma_chords_free(cs: Seq<Chord>)
    requires
        chords_free(cs),
    ensures
        forall|m: int| 0 <= m < cs.len() ==> !is_zellij_lock(#[trigger] cs[m]),
    decreases cs.len(),
{
    if cs.len() > 0 {
        lemma_chords_free(cs.drop_last());
        assert forall|m: int| 0 <= m < cs.len() implies !is_zellij_lock(#[trigger] cs[m]) by {
            if m < cs.len() - 1 {
                assert(cs[m] == cs.drop_last()[m]);
            }
        }
    }
}

proof fn lemma_seqs_ok(ks: Seq<Seq<Chord>>)
    requires
        seqs_ok(ks),
    ensures
        forall|j: int| 0 <= j < ks.len() ==> chords_free(#[trigger] ks[j]) && space_ok(ks[j]),
    decreases ks.len(),
{
    if ks.len() > 0 {
        lemma_seqs_ok(ks.drop_last());
        assert forall|j: int| 0 <= j < ks.len() implies chords_free(#[trigger] ks[j]) && space_ok(ks[j]) by {
            if j < ks.len() - 1 {
                assert(ks[j] == ks.drop_last()[j]);
            }
        }
    }
}

#[verifier::spinoff_prover]
proof fn lemma_rows_0_ok()
    ensures
        forall|i: int| 0 <= i < 13 ==> seqs_ok(#[trigger] binding_spec(i).keys),
{
    assert forall|i: int| 0 <= i < 13 implies seqs_ok(#[trigger] binding_spec(i).keys) by {
        reveal_with_fuel(seqs_ok, 4);
        reveal_with_fuel(chords_free, 4);
    }
}

#[verifier::spinoff_prover]
proof fn lemma_rows_1_ok()
    ensures
        forall|i: int| 13 <= i < 26 ==> seqs_ok(#[trigger] binding_spec(i).keys),
{
    assert forall|i: int| 13 <= i < 26 implies seqs_ok(#[trigger] binding_spec(i).keys) by {
        reveal_with_fuel(seqs_ok, 4);
        reveal_with_fuel(chords_free, 4);
    }
}

#[verifier::spinoff_prover]
proof fn lemma_rows_2_ok()
    ensures
        forall|i: int| 26 <= i < 39 ==> seqs_ok(#[trigger] binding_spec(i).keys),
{
    assert forall|i: int| 26 <= i < 39 implies seqs_ok(#[trigger] binding_spec(i).keys) by {
        reveal_with_fuel(seqs_ok, 4);
        reveal_with_fuel(chords_free, 4);
    }
}

#[verifier::spinoff_prover]
proof fn lemma_rows_3_ok()
    ensures
        forall|i: int| 39 <= i < 52 ==> seqs_ok(#[trigger] binding_spec(i).keys),
{
    assert forall|i: int| 39 <= i < 52 implies seqs_ok(#[trigger] binding_spec(i).keys) by {
        reveal_with_fuel(seqs_ok, 4);
        reveal_with_fuel(chords_free, 4);
    }
}

#[verifier::spinoff_prover]
proof fn lemma_rows_4_ok()
    ensures
        forall|i: int| 52 <= i < 65 ==> seqs_ok(#[trigger] binding_spec(i).keys),
{
    assert forall|i: int| 52 <= i < 65 implies seqs_ok(#[trigger] binding_spec(i).keys) by {
        reveal_with_fuel(seqs_ok, 4);
        reveal_with_fuel(chords_free, 4);
    }
}

#[verifier::spinoff_prover]
proof fn lemma_rows_5_ok()
    ensures
        forall|i: int| 65 <= i < 78 ==> seqs_ok(#[trigger] binding_spec(i).keys),
{
    assert forall|i: int| 65 <= i < 78 implies seqs_ok(#[trigger] binding_spec(i).keys) by {
        reveal_with_fuel(seqs_ok, 4);
        reveal_with_fuel(chords_free, 4);
    }
}

#[verifier::spinoff_prover]
proof fn lemma_rows_6_ok()
    ensures
        forall|i: int| 78 <= i < 91 ==> seqs_ok(#[trigger] binding_spec(i).keys),
{
    assert forall|i: int| 78 <= i < 91 implies seqs_ok(#[trigger] binding_spec(i).keys) by {
        reveal_with_fuel(seqs_ok, 4);
        reveal_with_fuel(chords_free, 4);
    }
}

#[verifier::spinoff_prover]
proof fn lemma_rows_7_ok()
    ensures
        forall|i: int| 91 <= i < 104 ==> seqs_ok(#[trigger] binding_spec(i).keys),
{
    assert forall|i: int| 91 <= i < 104 implies seqs_ok(#[trigger] binding_spec(i).keys) by {
        reveal_with_fuel(seqs_ok, 4);
        reveal_with_fuel(chords_free, 4);
    }
}

#[verifier::spinoff_prover]
proof fn lemma_rows_8_ok()
    ensures
        forall|i: int| 104 <= i < 117 ==> seqs_ok(#[trigger] binding_spec(i).keys),
{
    assert forall|i: int| 104 <= i < 117 implies seqs_ok(#[trigger] binding_spec(i).keys) by {
        reveal_with_fuel(seqs_ok, 4);
        reveal_with_fuel(chords_free, 4);
    }
}

#[verifier::spinoff_prover]
proof fn lemma_rows_9_ok()
    ensures
        forall|i: int| 117 <= i < 130 ==> seqs_ok(#[trigger] binding_spec(i).keys),
{
    assert forall|i: int| 117 <= i < 130 implies seqs_ok(#[trigger] binding_spec(i).keys) by {
        reveal_with_fuel(seqs_ok, 4);
        reveal_with_fuel(chords_free, 4);
    }
}

#[verifier::spinoff_prover]
proof fn lemma_rows_10_ok()
    ensures
        forall|i: int| 130 <= i < 143 ==> seqs_ok(#[trigger] binding_spec(i).keys),
{
    assert forall|i: int| 130 <= i < 143 implies seqs_ok(#[trigger] binding_spec(i).keys) by {
        reveal_with_fuel(seqs_ok, 4);
        reveal_with_fuel(chords_free, 4);
    }
}

#[verifier::spinoff_prover]
proof fn lemma_rows_11_ok()
    ensures
        forall|i: int| 143 <= i < 156 ==> seqs_ok(#[trigger] binding_spec(i).keys),
{
    assert forall|i: int| 143 <= i < 156 implies seqs_ok(#[trigger] binding_spec(i).keys) by {
        reveal_with_fuel(seqs_ok, 4);
        reveal_with_fuel(chords_free, 4);
    }
}

#[verifier::spinoff_prover]
proof fn lemma_rows_12_ok()
    ensures
        forall|i: int| 156 <= i < 169 ==> seqs_ok(#[trigger] binding_spec(i).keys),
{
    assert forall|i: int| 156 <= i < 169 implies seqs_ok(#[trigger] binding_spec(i).keys) by {
        reveal_with_fuel(seqs_ok, 4);
        reveal_with_fuel(chords_free, 4);
    }
}

proof fn lemma_every_row_is_ok()
    ensures
        forall|i: int| 0 <= i < BINDING_COUNT ==> seqs_ok(#[trigger] binding_spec(i).keys),
{
    lemma_rows_0_ok();
    lemma_rows_1_ok();
    lemma_rows_2_ok();
    lemma_rows_3_ok();
    lemma_rows_4_ok();
    lemma_rows_5_ok();
    lemma_rows_6_ok();
    lemma_rows_7_ok();
    lemma_rows_8_ok();
    lemma_rows_9_ok();
    lemma_rows_10_ok();
    lemma_rows_11_ok();
    lemma_rows_12_ok();
}

/// No binding uses a zellij lock chord, in any of its sequences, at any
/// place in it: a zellij user can reach every binding.
pub proof fn lemma_no_binding_uses_a_zellij_lock_chord()
    ensures
        forall|i: int, j: int, m: int|
            0 <= i < binding_table().len() && 0 <= j < binding_table()[i].keys.len()
                && 0 <= m < binding_table()[i].keys[j].len()
                ==> !is_zellij_lock(#[trigger] binding_table()[i].keys[j][m]),
{
    lemma_every_row_is_ok();
    assert forall|i: int, j: int, m: int|
        0 <= i < binding_table().len() && 0 <= j < binding_table()[i].keys.len()
            && 0 <= m < binding_table()[i].keys[j].len()
        implies !is_zellij_lock(#[trigger] binding_table()[i].keys[j][m]) by {
        let ks = binding_spec(i).keys;
        assert(seqs_ok(ks));
        lemma_seqs_ok(ks);
        assert(chords_free(ks[j]));
        lemma_chords_free(ks[j]);
    }
}

/// Every sequence that starts with Space and leads past a second key goes
/// through a named submenu, so no menu entry or breadcrumb falls back to a
/// generic word.
pub proof fn lemma_every_space_submenu_is_named()
    ensures
        forall|i: int, j: int|
            0 <= i < binding_table().len() && 0 <= j < binding_table()[i].keys.len()
                ==> space_prefix_named(#[trigger] binding_table()[i].keys[j]),
{
    lemma_every_row_is_ok();
    assert forall|i: int, j: int|
        0 <= i < binding_table().len() && 0 <= j < binding_table()[i].keys.len()
        implies space_prefix_named(#[trigger] binding_table()[i].keys[j]) by {
        let ks = binding_spec(i).keys;
        assert(seqs_ok(ks));
        lemma_seqs_ok(ks);
        lemma_space_ok(ks[j]);
    }
}

} // verus!
