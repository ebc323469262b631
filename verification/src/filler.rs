//! The repeating-shuffle line filler.
//!
//! A fill draws `line_length * line_count` items for a grid of fixed lines.
//! The draws come from a cursor into a working list of indices that starts
//! in the input's own order; exactly when the cursor exhausts the list, the
//! list is reshuffled and the cursor reset, and the draw continues without
//! regard to line boundaries.  A span of draws between two consecutive
//! reshuffles is an epoch: every completed epoch holds each index exactly
//! once, so no item repeats within an epoch, though a line may straddle an
//! epoch boundary and an item may recur right across one.

use vstd::prelude::*;
use crate::perm::index_order;
use crate::perm::is_index_permutation;
use crate::perm::lemma_index_permutation_properties;
use crate::shuffle::fresh_rng;
use crate::shuffle::shuffle_in_place;
use crate::vocab::VocabItem;

verus! {

/// `fill` was asked to draw from an empty item list.
#[derive(Debug, PartialEq, Eq, Structural)]
pub struct EmptyInputError;

/// One grid-filling request: the items to draw from and the shape of the
/// grid.  Constructed per document section and consumed by one `fill`.
pub struct LayoutRequest {
    /// The items to draw from; `fill` never reorders them.
    pub items: Vec<VocabItem>,
    /// Draws per line; the caller clamps it to `items.len()`.
    pub line_length: usize,
    /// Fixed number of lines to emit.
    pub line_count: usize,
}

impl LayoutRequest {
    /// The shape the caller owes: when there are items at all, a line holds
    /// at least one draw and no more than there are items.  The filler
    /// trusts this field rather than re-deriving the clamp.
    pub open spec fn wf(self) -> bool {
        self.items@.len() > 0 ==> 1 <= self.line_length <= self.items@.len()
    }
}

/// The draws of epoch `k`: positions `k * n` up to `(k + 1) * n` of the
/// output, where `n` is the number of items.
pub open spec fn epoch_slice(out: Seq<usize>, n: nat, k: int) -> Seq<usize> {
    out.subrange(k * (n as int), (k + 1) * (n as int))
}

/// What `fill` promises of its output, over `n` items: every draw is an
/// index below `n`; the draws before the first reshuffle repeat the input
/// order; every completed epoch is a permutation of the indices; and no
/// index repeats inside one epoch.
pub open spec fn well_filled(out: Seq<usize>, n: nat) -> bool {
    &&& forall|i: int| 0 <= i < out.len() ==> (#[trigger] out[i]) < n
    &&& forall|i: int| 0 <= i < out.len() && i < n ==> (#[trigger] out[i]) as int == i
    &&& forall|k: int|
        0 <= k && (k + 1) * (n as int) <= out.len() ==> is_index_permutation(
            #[trigger] epoch_slice(out, n, k),
            n,
        )
    &&& forall|i: int, j: int|
        0 <= i < j < out.len() && i / (n as int) == j / (n as int) ==> out[i] != out[j]
}

/// Draws `line_length * line_count` items for the grid, reshuffling the
/// working list exactly when it is exhausted, and returns the draws as
/// indices into `request.items`, in draw order; the caller breaks them into
/// lines of `line_length` each.  An empty item list is rejected before any
/// draw.
pub fn fill(request: &LayoutRequest) -> (r: Result<Vec<usize>, EmptyInputError>)
    requires
        request.wf(),
        request.line_length * request.line_count <= usize::MAX,
    ensures
        r is Err <==> request.items@.len() == 0,
        r matches Ok(out) ==> out@.len() == request.line_length * request.line_count
            && well_filled(out@, request.items@.len()),
{
    let n = request.items.len();
    if n == 0 {
        return Err(EmptyInputError);
    }
    let total: usize = request.line_length * request.line_count;
    let ghost ni: int = n as int;

    let mut working: Vec<usize> = Vec::new();
    let mut idx: usize = 0;
    while idx < n
        invariant
            idx <= n,
            working@ == index_order(idx as nat),
        decreases n - idx,
    {
        working.push(idx);
        idx = idx + 1;
        proof {
            assert(working@ =~= index_order(idx as nat));
        }
    }

    let mut rng = fresh_rng();
    let mut out: Vec<usize> = Vec::new();
    let mut position: usize = 0;
    let mut drawn: usize = 0;
    let ghost mut epochs: int = 0;

    while drawn < total
        invariant
            1 <= n == request.items@.len(),
            ni == n as int,
            drawn <= total <= usize::MAX,
            working@.len() == n,
            is_index_permutation(working@, n as nat),
            epochs == 0 ==> working@ == index_order(n as nat),
            position <= n,
            0 <= epochs,
            drawn as int == epochs * ni + position as int,
            out@.len() == drawn,
            forall|i: int| 0 <= i < out@.len() ==> (#[trigger] out@[i]) < n,
            forall|i: int| 0 <= i < out@.len() && i < n ==> (#[trigger] out@[i]) as int == i,
            forall|k: int|
                0 <= k < epochs ==> is_index_permutation(
                    #[trigger] epoch_slice(out@, n as nat, k),
                    n as nat,
                ),
            out@.subrange(epochs * ni, drawn as int) == working@.subrange(0, position as int),
        decreases total - drawn,
    {
        if position == n {
            proof {
                assert((epochs + 1) * ni == epochs * ni + ni) by (nonlinear_arith);
                assert(epochs * ni >= 0) by (nonlinear_arith)
                    requires
                        epochs >= 0,
                        ni >= 1,
                ;
                assert(epoch_slice(out@, n as nat, epochs) =~= working@) by {
                    assert(out@.subrange(epochs * ni, drawn as int) == working@.subrange(0, ni));
                    assert(working@.subrange(0, ni) =~= working@);
                };
                assert(is_index_permutation(epoch_slice(out@, n as nat, epochs), n as nat));
            }
            let ghost w0 = working@;
            shuffle_in_place(&mut rng, &mut working);
            position = 0;
            proof {
                broadcast use vstd::seq_lib::group_to_multiset_ensures;

                assert(working@.to_multiset() == w0.to_multiset());
                assert(working@.to_multiset().len() == working@.len());
                assert(w0.to_multiset().len() == w0.len());
                assert(working@.len() == n);
                assert((epochs + 1) * ni == epochs * ni + ni) by (nonlinear_arith);
                epochs = epochs + 1;
                assert(epochs * ni == drawn as int);
                assert(out@.subrange(epochs * ni, drawn as int) =~= working@.subrange(0, 0));
            }
        }
        let ghost out0 = out@;
        let ghost pos0 = position as int;
        proof {
            lemma_index_permutation_properties(working@, n as nat);
        }
        let item = working[position];
        out.push(item);
        position = position + 1;
        drawn = drawn + 1;
        proof {
            assert forall|i: int| 0 <= i < out@.len() implies (#[trigger] out@[i]) < n by {
                if i < out0.len() {
                    assert(out@[i] == out0[i]);
                } else {
                    assert(out@[i] == working@[pos0]);
                }
            }
            assert forall|i: int| 0 <= i < out@.len() && i < n implies (#[trigger] out@[i]) as int
                == i by {
                if i == out0.len() {
                    if epochs >= 1 {
                        assert(epochs * ni >= ni) by (nonlinear_arith)
                            requires
                                epochs >= 1,
                                ni >= 1,
                        ;
                    }
                    assert(epochs == 0);
                    assert(out@[i] == working@[pos0]);
                    assert(working@[pos0] == index_order(n as nat)[pos0]);
                } else {
                    assert(out@[i] == out0[i]);
                }
            }
            assert forall|k: int| 0 <= k < epochs implies is_index_permutation(
                #[trigger] epoch_slice(out@, n as nat, k),
                n as nat,
            ) by {
                vstd::arithmetic::mul::lemma_mul_inequality(k + 1, epochs, ni);
                vstd::arithmetic::mul::lemma_mul_inequality(k, k + 1, ni);
                assert(k * ni >= 0) by (nonlinear_arith)
                    requires
                        k >= 0,
                        ni >= 1,
                ;
                assert(epoch_slice(out@, n as nat, k) =~= epoch_slice(out0, n as nat, k));
                assert(is_index_permutation(epoch_slice(out0, n as nat, k), n as nat));
            }
            assert(out@.subrange(epochs * ni, drawn as int) =~= working@.subrange(
                0,
                position as int,
            )) by {
                assert(out0.subrange(epochs * ni, out0.len() as int) == working@.subrange(0, pos0));
            };
        }
    }

    proof {
        let no = out@;
        lemma_index_permutation_properties(working@, n as nat);
        assert forall|k: int| 0 <= k && (k + 1) * ni <= no.len() implies is_index_permutation(
            #[trigger] epoch_slice(no, n as nat, k),
            n as nat,
        ) by {
            if k >= epochs {
                assert(k + 1 <= epochs + 1) by (nonlinear_arith)
                    requires
                        (k + 1) * ni <= epochs * ni + position as int,
                        position as int <= ni,
                        ni >= 1,
                ;
                assert(k == epochs);
                assert((epochs + 1) * ni == epochs * ni + ni) by (nonlinear_arith);
                assert(position == n);
                assert(epoch_slice(no, n as nat, epochs) =~= working@) by {
                    assert(no.subrange(epochs * ni, drawn as int) == working@.subrange(0, ni));
                    assert(working@.subrange(0, ni) =~= working@);
                };
            }
        }
        assert forall|i: int, j: int|
            0 <= i < j < no.len() && i / ni == j / ni implies no[i] != no[j] by {
            let k = i / ni;
            vstd::arithmetic::div_mod::lemma_fundamental_div_mod(i, ni);
            vstd::arithmetic::div_mod::lemma_fundamental_div_mod(j, ni);
            vstd::arithmetic::div_mod::lemma_mod_bound(i, ni);
            vstd::arithmetic::div_mod::lemma_mod_bound(j, ni);
            assert(k * ni <= i < (k + 1) * ni) by (nonlinear_arith)
                requires
                    i == ni * k + i % ni,
                    0 <= i % ni < ni,
            ;
            assert(k * ni <= j < (k + 1) * ni) by (nonlinear_arith)
                requires
                    j == ni * k + j % ni,
                    0 <= j % ni < ni,
            ;
            assert(0 <= k) by (nonlinear_arith)
                requires
                    0 <= i,
                    k * ni <= i < (k + 1) * ni,
                    ni >= 1,
            ;
            if (k + 1) * ni <= no.len() {
                lemma_index_permutation_properties(epoch_slice(no, n as nat, k), n as nat);
                assert(epoch_slice(no, n as nat, k)[i - k * ni] == no[i]);
                assert(epoch_slice(no, n as nat, k)[j - k * ni] == no[j]);
            } else {
                assert(k <= epochs) by (nonlinear_arith)
                    requires
                        k * ni <= i,
                        i < epochs * ni + position as int,
                        position as int <= ni,
                        ni >= 1,
                ;
                assert(k >= epochs) by (nonlinear_arith)
                    requires
                        (k + 1) * ni > epochs * ni + position as int,
                        0 <= position as int,
                        ni >= 1,
                        0 <= epochs,
                ;
                assert(no[i] == working@.subrange(0, position as int)[i - epochs * ni]);
                assert(no[j] == working@.subrange(0, position as int)[j - epochs * ni]);
                assert(working@[i - epochs * ni] != working@[j - epochs * ni]);
            }
        }
    }
    Ok(out)
}

/// Coverage law: over one completed epoch — the `n` consecutive draws
/// between two consecutive reshuffles — every item index below `n` appears
/// exactly once.
pub proof fn lemma_epoch_coverage(out: Seq<usize>, n: nat, k: int)
    requires
        1 <= n <= usize::MAX,
        well_filled(out, n),
        0 <= k,
        (k + 1) * (n as int) <= out.len(),
    ensures
        epoch_slice(out, n, k).len() == n,
        forall|v: usize| (v as nat) < n ==> epoch_slice(out, n, k).to_multiset().count(v) == 1,
{
    lemma_index_permutation_properties(epoch_slice(out, n, k), n);
}

} // verus!
