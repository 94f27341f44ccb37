//! The selection coordinator: reducing a candidate list and a set of
//! picked indices to an order-preserving, duplicate-free subset, and the
//! closed menu of pull-request types.

use vstd::prelude::*;

use crate::text::contains_string;

verus! {

/// The closed set of pull-request categories offered by the menu.
#[derive(PartialEq, Eq, Structural, Clone, Copy, Debug)]
pub enum PullRequestType {
    Bug,
    Feature,
    Hotfix,
}

impl PullRequestType {
    pub open spec fn spec_label(&self) -> Seq<char> {
        match self {
            PullRequestType::Bug => "bug"@,
            PullRequestType::Feature => "feature"@,
            PullRequestType::Hotfix => "hotfix"@,
        }
    }

    /// The display name of this category.
    pub fn label(&self) -> (r: &'static str)
        ensures
            r@ == self.spec_label(),
    {
        match self {
            PullRequestType::Bug => "bug",
            PullRequestType::Feature => "feature",
            PullRequestType::Hotfix => "hotfix",
        }
    }

    /// The explicit enumeration of every category, in menu order.
    pub fn all() -> (r: Vec<PullRequestType>)
        ensures
            r@ =~= seq![
                PullRequestType::Bug,
                PullRequestType::Feature,
                PullRequestType::Hotfix,
            ],
    {
        let mut r: Vec<PullRequestType> = Vec::new();
        r.push(PullRequestType::Bug);
        r.push(PullRequestType::Feature);
        r.push(PullRequestType::Hotfix);
        r
    }
}

/// The display name of the pull-request category at a menu position.
pub open spec fn pr_type_label_at(choice: int) -> Seq<char> {
    if choice == 0 {
        "bug"@
    } else if choice == 1 {
        "feature"@
    } else {
        "hotfix"@
    }
}

/// The pull-request type name picked from the menu: the name at the
/// chosen position, or nothing when the position is outside the menu.
pub fn select_pr_type(choice: usize) -> (r: Option<String>)
    ensures
        r is Some <==> choice < 3,
        r matches Some(s) ==> s@ == pr_type_label_at(choice as int),
{
    let types = PullRequestType::all();
    if choice < types.len() {
        Some(String::from_str(types[choice].label()))
    } else {
        None
    }
}

/// The subset of the first `n` candidates picked by `mask`: a candidate
/// is kept when its position is in the mask and an equal candidate has
/// not been kept already.
pub open spec fn selected_prefix(cands: Seq<Seq<char>>, mask: Seq<usize>, n: int) -> Seq<Seq<char>>
    decreases n,
{
    if n <= 0 {
        Seq::empty()
    } else {
        let prev = selected_prefix(cands, mask, n - 1);
        if mask.contains((n - 1) as usize) && !prev.contains(cands[n - 1]) {
            prev.push(cands[n - 1])
        } else {
            prev
        }
    }
}

/// The subset of `cands` picked by `mask`.
pub open spec fn spec_select_subset(cands: Seq<Seq<char>>, mask: Seq<usize>) -> Seq<Seq<char>> {
    selected_prefix(cands, mask, cands.len() as int)
}

/// Whether some entry of `mask` equals `i`.
fn mask_contains(mask: &Vec<usize>, i: usize) -> (r: bool)
    ensures
        r == mask@.contains(i),
{
    let mut k: usize = 0;
    while k < mask.len()
        invariant
            k <= mask.len(),
            forall|j: int| 0 <= j < k ==> mask@[j] != i,
        decreases mask.len() - k,
    {
        if mask[k] == i {
            proof {
                assert(mask@[k as int] == i);
            }
            return true;
        }
        k += 1;
    }
    false
}

/// Reduces candidates and picked indices to the final subset: an
/// order-preserving, duplicate-free subsequence of the candidates.
pub fn select_subset(candidates: &Vec<String>, chosen: &Vec<usize>) -> (r: Vec<String>)
    ensures
        r.deep_view() == spec_select_subset(candidates.deep_view(), chosen@),
        r.deep_view().no_duplicates(),
{
    let ghost cs = candidates.deep_view();
    let mut out: Vec<String> = Vec::new();
    let mut i: usize = 0;
    proof {
        assert(out.deep_view() =~= selected_prefix(cs, chosen@, 0));
    }
    while i < candidates.len()
        invariant
            i <= candidates.len(),
            cs == candidates.deep_view(),
            cs.len() == candidates.len(),
            out.deep_view() == selected_prefix(cs, chosen@, i as int),
            out.deep_view().no_duplicates(),
        decreases candidates.len() - i,
    {
        let ghost prev = out.deep_view();
        if mask_contains(chosen, i) && !contains_string(&out, &candidates[i]) {
            out.push(candidates[i].clone());
            proof {
                assert(out.deep_view() =~= prev.push(cs[i as int]));
                assert forall|a: int, b: int|
                    0 <= a < out.deep_view().len() && 0 <= b < out.deep_view().len() && a != b
                        implies out.deep_view()[a] != out.deep_view()[b] by {
                    if a < prev.len() && b < prev.len() {
                    } else if a == prev.len() {
                        assert(prev[b] != cs[i as int]);
                    } else {
                        assert(prev[a] != cs[i as int]);
                    }
                }
            }
        }
        i += 1;
    }
    out
}

/// Whether `a` is an order-preserving subsequence of `b`.
pub open spec fn is_subsequence_of(a: Seq<Seq<char>>, b: Seq<Seq<char>>) -> bool
    decreases b.len(),
{
    if a.len() == 0 {
        true
    } else if b.len() == 0 {
        false
    } else if a[0] == b[0] {
        is_subsequence_of(a.skip(1), b.skip(1))
    } else {
        is_subsequence_of(a, b.skip(1))
    }
}

proof fn lemma_subsequence_push_right(a: Seq<Seq<char>>, b: Seq<Seq<char>>, x: Seq<char>)
    requires
        is_subsequence_of(a, b),
    ensures
        is_subsequence_of(a, b.push(x)),
    decreases b.len(),
{
    if a.len() == 0 {
    } else {
        assert(b.len() > 0);
        assert(b.push(x)[0] == b[0]);
        assert(b.push(x).skip(1) =~= b.skip(1).push(x));
        if a[0] == b[0] {
            lemma_subsequence_push_right(a.skip(1), b.skip(1), x);
        } else {
            lemma_subsequence_push_right(a, b.skip(1), x);
        }
    }
}

proof fn lemma_subsequence_push_both(a: Seq<Seq<char>>, b: Seq<Seq<char>>, x: Seq<char>)
    requires
        is_subsequence_of(a, b),
    ensures
        is_subsequence_of(a.push(x), b.push(x)),
    decreases b.len(),
{
    if a.len() == 0 {
        if b.len() == 0 {
            assert(a.push(x) =~= b.push(x));
            assert(is_subsequence_of(a.push(x).skip(1), b.push(x).skip(1)));
        } else {
            assert(b.push(x)[0] == b[0]);
            assert(b.push(x).skip(1) =~= b.skip(1).push(x));
            if a.push(x)[0] == b[0] {
                assert(a.push(x).skip(1) =~= Seq::<Seq<char>>::empty());
                assert(is_subsequence_of(Seq::<Seq<char>>::empty(), b.skip(1).push(x)));
            } else {
                lemma_subsequence_push_both(a, b.skip(1), x);
            }
        }
    } else {
        assert(b.len() > 0);
        assert(a.push(x)[0] == a[0]);
        assert(b.push(x)[0] == b[0]);
        assert(a.push(x).skip(1) =~= a.skip(1).push(x));
        assert(b.push(x).skip(1) =~= b.skip(1).push(x));
        if a[0] == b[0] {
            lemma_subsequence_push_both(a.skip(1), b.skip(1), x);
        } else {
            lemma_subsequence_push_both(a, b.skip(1), x);
        }
    }
}

proof fn lemma_selected_prefix_subsequence(cands: Seq<Seq<char>>, mask: Seq<usize>, n: int)
    requires
        0 <= n <= cands.len(),
    ensures
        is_subsequence_of(selected_prefix(cands, mask, n), cands.take(n)),
    decreases n,
{
    if n > 0 {
        lemma_selected_prefix_subsequence(cands, mask, n - 1);
        let prev = selected_prefix(cands, mask, n - 1);
        assert(cands.take(n) =~= cands.take(n - 1).push(cands[n - 1]));
        if mask.contains((n - 1) as usize) && !prev.contains(cands[n - 1]) {
            lemma_subsequence_push_both(prev, cands.take(n - 1), cands[n - 1]);
        } else {
            lemma_subsequence_push_right(prev, cands.take(n - 1), cands[n - 1]);
        }
    }
}

/// For every candidate list and every selection mask, the selected subset
/// is an order-preserving subsequence of the candidates and holds no
/// duplicate entries; the empty mask selects nothing, and a full mask
/// over duplicate-free candidates selects them all.
pub proof fn lemma_select_subset_sound(cands: Seq<Seq<char>>, mask: Seq<usize>)
    ensures
        is_subsequence_of(spec_select_subset(cands, mask), cands),
        spec_select_subset(cands, mask).no_duplicates(),
        mask.len() == 0 ==> spec_select_subset(cands, mask) =~= Seq::<Seq<char>>::empty(),
        (cands.no_duplicates() && (forall|i: int|
            0 <= i < cands.len() ==> #[trigger] mask.contains(i as usize))) ==> spec_select_subset(
            cands,
            mask,
        ) == cands,
{
    lemma_selected_prefix_subsequence(cands, mask, cands.len() as int);
    assert(cands.take(cands.len() as int) =~= cands);
    lemma_selected_prefix_no_duplicates(cands, mask, cands.len() as int);
    if mask.len() == 0 {
        lemma_selected_prefix_empty_mask(cands, mask, cands.len() as int);
    }
    if cands.no_duplicates() && (forall|i: int| 0 <= i < cands.len() ==> #[trigger] mask.contains(i as usize)) {
        lemma_selected_prefix_full_mask(cands, mask, cands.len() as int);
        assert(cands.take(cands.len() as int) =~= cands);
    }
}

proof fn lemma_selected_prefix_full_mask(cands: Seq<Seq<char>>, mask: Seq<usize>, n: int)
    requires
        0 <= n <= cands.len(),
        cands.no_duplicates(),
        forall|i: int| 0 <= i < cands.len() ==> #[trigger] mask.contains(i as usize),
    ensures
        selected_prefix(cands, mask, n) == cands.take(n),
    decreases n,
{
    if n > 0 {
        lemma_selected_prefix_full_mask(cands, mask, n - 1);
        let prev = selected_prefix(cands, mask, n - 1);
        assert(mask.contains((n - 1) as usize));
        assert(!prev.contains(cands[n - 1])) by {
            if prev.contains(cands[n - 1]) {
                let w = choose|w: int| 0 <= w < prev.len() && prev[w] == cands[n - 1];
                assert(cands.take(n - 1)[w] == cands[w]);
            }
        }
        assert(selected_prefix(cands, mask, n) =~= cands.take(n));
    } else {
        assert(selected_prefix(cands, mask, 0) =~= cands.take(0));
    }
}

proof fn lemma_selected_prefix_no_duplicates(cands: Seq<Seq<char>>, mask: Seq<usize>, n: int)
    ensures
        selected_prefix(cands, mask, n).no_duplicates(),
    decreases n,
{
    if n > 0 {
        lemma_selected_prefix_no_duplicates(cands, mask, n - 1);
        let prev = selected_prefix(cands, mask, n - 1);
        let cur = selected_prefix(cands, mask, n);
        if mask.contains((n - 1) as usize) && !prev.contains(cands[n - 1]) {
            assert forall|a: int, b: int|
                0 <= a < cur.len() && 0 <= b < cur.len() && a != b implies cur[a] != cur[b] by {
                if a < prev.len() && b < prev.len() {
                } else if a == prev.len() {
                    assert(prev[b] != cands[n - 1]);
                } else {
                    assert(prev[a] != cands[n - 1]);
                }
            }
        }
    }
}

proof fn lemma_selected_prefix_empty_mask(cands: Seq<Seq<char>>, mask: Seq<usize>, n: int)
    requires
        mask.len() == 0,
    ensures
        selected_prefix(cands, mask, n) =~= Seq::<Seq<char>>::empty(),
    decreases n,
{
    if n > 0 {
        lemma_selected_prefix_empty_mask(cands, mask, n - 1);
    }
}

} // verus!
