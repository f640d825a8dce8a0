//! Selection reconciliation: turning an explicit comma-separated list, or the
//! indices marked in an interactive prompt, into the ordered list of font
//! package names an operation acts on.

use vstd::prelude::*;
use vstd::string::*;

verus! {

/// The tokens of `s` between commas, in order. Exact-match semantics: no
/// whitespace is trimmed, and empty tokens are kept. The empty text yields
/// one empty token, as a splitter does; the empty selection is the caller's
/// special case.
pub open spec fn spec_split(s: Seq<char>) -> Seq<Seq<char>>
    decreases s.len(),
{
    if s.len() == 0 {
        seq![Seq::<char>::empty()]
    } else if s[0] == ',' {
        seq![Seq::<char>::empty()] + spec_split(s.skip(1))
    } else {
        let rest = spec_split(s.skip(1));
        seq![seq![s[0]] + rest[0]] + rest.skip(1)
    }
}

proof fn lemma_split_nonempty(s: Seq<char>)
    ensures
        spec_split(s).len() >= 1,
    decreases s.len(),
{
    if s.len() > 0 {
        lemma_split_nonempty(s.skip(1));
    }
}

/// The token list with `prefix` glued onto the front of its first token.
pub open spec fn glue_first(prefix: Seq<char>, parts: Seq<Seq<char>>) -> Seq<Seq<char>>
    recommends
        parts.len() >= 1,
{
    seq![prefix + parts[0]] + parts.skip(1)
}

/// Split an explicit font list on commas. The empty text names no font at
/// all; any other text names one font per comma-separated token, in order and
/// verbatim.
pub fn split_names(list: &str) -> (r: Vec<String>)
    ensures
        list@.len() == 0 ==> r@.len() == 0,
        list@.len() > 0 ==> r.deep_view() == spec_split(list@),
{
    let n = list.unicode_len();
    if n == 0 {
        return Vec::new();
    }
    let mut out: Vec<String> = Vec::new();
    let mut start: usize = 0;
    let mut i: usize = 0;
    proof {
        lemma_split_nonempty(list@);
        assert(list@.skip(0) =~= list@);
        assert(out.deep_view() + glue_first(
            list@.subrange(0, 0),
            spec_split(list@.skip(0)),
        ) =~~= spec_split(list@));
    }
    while i < n
        invariant
            0 <= start <= i <= n,
            n == list@.len(),
            spec_split(list@) == out.deep_view() + glue_first(
                list@.subrange(start as int, i as int),
                spec_split(list@.skip(i as int)),
            ),
        decreases n - i,
    {
        let ghost cur = list@.subrange(start as int, i as int);
        let ghost rem = list@.skip(i as int);
        proof {
            assert(rem.len() > 0);
            assert(rem[0] == list@[i as int]);
            assert(rem.skip(1) =~~= list@.skip(i + 1));
            lemma_split_nonempty(rem.skip(1));
        }
        let c = list.get_char(i);
        if c == ',' {
            let tok = list.substring_char(start, i).to_owned();
            let ghost pre = out.deep_view();
            out.push(tok);
            start = i + 1;
            proof {
                assert(out.deep_view() =~~= pre.push(cur));
                assert(spec_split(rem) =~~= seq![Seq::<char>::empty()] + spec_split(rem.skip(1)));
                assert(glue_first(cur, spec_split(rem)) =~~= seq![cur] + spec_split(rem.skip(1)));
                assert(Seq::<char>::empty() =~~= list@.subrange(i + 1, i + 1));
                assert(pre.push(cur) + glue_first(
                    list@.subrange(i + 1, i + 1),
                    spec_split(list@.skip(i + 1)),
                ) =~~= pre + glue_first(cur, spec_split(rem)));
            }
        } else {
            proof {
                let rest = spec_split(rem.skip(1));
                assert(glue_first(cur, spec_split(rem)) =~~= seq![cur + (seq![rem[0]] + rest[0])]
                    + rest.skip(1));
                assert(cur + (seq![rem[0]] + rest[0]) =~~= list@.subrange(
                    start as int,
                    i + 1,
                ) + rest[0]);
                assert(glue_first(cur, spec_split(rem)) =~~= glue_first(
                    list@.subrange(start as int, i + 1),
                    rest,
                ));
            }
        }
        i += 1;
    }
    let tok = list.substring_char(start, n).to_owned();
    let ghost pre = out.deep_view();
    let ghost cur = list@.subrange(start as int, n as int);
    out.push(tok);
    proof {
        assert(list@.skip(n as int).len() == 0);
        assert(glue_first(cur, spec_split(list@.skip(n as int))) =~~= seq![cur]);
        assert(out.deep_view() =~~= pre.push(cur));
        assert(pre.push(cur) =~~= pre + seq![cur]);
    }
    out
}

/// Whether `i` occurs among the marked indices.
pub open spec fn has_index(chosen: Seq<usize>, i: int) -> bool {
    exists|j: int| 0 <= j < chosen.len() && chosen[j] == i
}

/// The candidates at the marked positions from position `i` on, kept in
/// candidate order.
pub open spec fn spec_selected_from(
    cands: Seq<Seq<char>>,
    chosen: Seq<usize>,
    i: int,
) -> Seq<Seq<char>>
    decreases cands.len() - i,
{
    if i < 0 || i >= cands.len() {
        Seq::empty()
    } else if has_index(chosen, i) {
        seq![cands[i]] + spec_selected_from(cands, chosen, i + 1)
    } else {
        spec_selected_from(cands, chosen, i + 1)
    }
}

/// The candidates at the marked positions, kept in candidate order.
pub open spec fn spec_selected(cands: Seq<Seq<char>>, chosen: Seq<usize>) -> Seq<Seq<char>> {
    spec_selected_from(cands, chosen, 0)
}

fn index_chosen(chosen: &Vec<usize>, i: usize) -> (b: bool)
    ensures
        b == has_index(chosen@, i as int),
{
    let mut j: usize = 0;
    while j < chosen.len()
        invariant
            0 <= j <= chosen@.len(),
            forall|k: int| 0 <= k < j ==> chosen@[k] != i,
        decreases chosen@.len() - j,
    {
        if chosen[j] == i {
            return true;
        }
        j += 1;
    }
    false
}

/// Keep the candidates whose positions the user marked, in the candidates'
/// own order — not in the order the marks were made.
pub fn select_by_indices(candidates: &Vec<String>, chosen: &Vec<usize>) -> (r: Vec<String>)
    ensures
        r.deep_view() == spec_selected(candidates.deep_view(), chosen@),
{
    let mut out: Vec<String> = Vec::new();
    let mut i: usize = 0;
    proof {
        assert(out.deep_view() + spec_selected_from(candidates.deep_view(), chosen@, 0)
            =~~= spec_selected(candidates.deep_view(), chosen@));
    }
    while i < candidates.len()
        invariant
            0 <= i <= candidates@.len(),
            candidates.deep_view().len() == candidates@.len(),
            spec_selected(candidates.deep_view(), chosen@) == out.deep_view()
                + spec_selected_from(candidates.deep_view(), chosen@, i as int),
        decreases candidates@.len() - i,
    {
        if index_chosen(chosen, i) {
            let name = candidates[i].clone();
            let ghost pre = out.deep_view();
            out.push(name);
            proof {
                assert(out.deep_view() =~~= pre.push(candidates.deep_view()[i as int]));
                assert(pre.push(candidates.deep_view()[i as int]) + spec_selected_from(
                    candidates.deep_view(),
                    chosen@,
                    i + 1,
                ) =~~= pre + spec_selected_from(candidates.deep_view(), chosen@, i as int));
            }
        }
        i += 1;
    }
    out
}

/// Interactive marks pick a subset, never an order: two mark lists that mark
/// the same positions yield the same selection, in candidate order.
pub proof fn lemma_selection_in_candidate_order(
    cands: Seq<Seq<char>>,
    c1: Seq<usize>,
    c2: Seq<usize>,
)
    requires
        forall|i: int| #[trigger] has_index(c1, i) <==> #[trigger] has_index(c2, i),
    ensures
        spec_selected(cands, c1) == spec_selected(cands, c2),
{
    lemma_selected_from_same_marks(cands, c1, c2, 0);
}

proof fn lemma_selected_from_same_marks(cands: Seq<Seq<char>>, c1: Seq<usize>, c2: Seq<usize>, i: int)
    requires
        forall|k: int| #[trigger] has_index(c1, k) <==> #[trigger] has_index(c2, k),
    ensures
        spec_selected_from(cands, c1, i) == spec_selected_from(cands, c2, i),
    decreases cands.len() - i,
{
    if 0 <= i < cands.len() {
        lemma_selected_from_same_marks(cands, c1, c2, i + 1);
    }
}

/// Resolve the selection an operation acts on: the explicit comma-separated
/// list verbatim when one was given, else the candidates the user marked, in
/// candidate order.
pub fn resolve_selection(
    explicit: Option<String>,
    candidates: &Vec<String>,
    chosen: &Vec<usize>,
) -> (r: Vec<String>)
    ensures
        explicit matches Some(l) ==> (l@.len() == 0 ==> r@.len() == 0) && (l@.len() > 0
            ==> r.deep_view() == spec_split(l@)),
        explicit is None ==> r.deep_view() == spec_selected(candidates.deep_view(), chosen@),
{
    match explicit {
        Some(l) => split_names(l.as_str()),
        None => select_by_indices(candidates, chosen),
    }
}

} // verus!
