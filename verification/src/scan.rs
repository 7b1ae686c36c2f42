//! Counting the places where a mark, such as the opening of a section,
//! stands in a text, and the conditions under which the count of a text in
//! parts is the sum of the counts of its parts.

use vstd::prelude::*;
use crate::classify::count_where;
use crate::text::{concat_all, joined};

verus! {

/// True when `mark` stands in `text` at position `at`.
pub open spec fn occurs_at(text: Seq<char>, mark: Seq<char>, at: int) -> bool {
    0 <= at && at + mark.len() <= text.len() && text.subrange(at, at + mark.len()) == mark
}

/// The number of positions below `n` at which `mark` stands in `text`.
pub open spec fn count_below(text: Seq<char>, mark: Seq<char>, n: nat) -> nat
    decreases n,
{
    if n == 0 {
        0
    } else {
        count_below(text, mark, (n - 1) as nat) + if occurs_at(text, mark, n - 1) {
            1nat
        } else {
            0nat
        }
    }
}

/// The number of places at which `mark` stands in `text`.
pub open spec fn occurrences(text: Seq<char>, mark: Seq<char>) -> nat {
    count_below(text, mark, text.len())
}

/// True when `text`, read from position `at + j` against `mark` from
/// position `j`, shows a character that differs before either ends.
pub open spec fn breaks_off(text: Seq<char>, mark: Seq<char>, at: int, j: int) -> bool
    decreases mark.len() - j,
{
    if j < 0 || j >= mark.len() || at < 0 || at + j >= text.len() {
        false
    } else if text[at + j] != mark[j] {
        true
    } else {
        breaks_off(text, mark, at, j + 1)
    }
}

/// True when `mark` stands nowhere in `text`, and nothing that `text` ends
/// with could become `mark` by what follows: wherever the first character
/// of `mark` stands, `text` itself shows a character that differs.
pub open spec fn clean(text: Seq<char>, mark: Seq<char>) -> bool {
    forall|i: int| 0 <= i < text.len() && #[trigger] text[i] == mark[0] ==> breaks_off(text, mark, i, 1)
}

/// True when nothing that `text` ends with could become `mark` by what
/// follows: wherever the first character of `mark` stands, either `mark`
/// stands there in full or `text` itself shows a character that differs.
pub open spec fn settled(text: Seq<char>, mark: Seq<char>) -> bool {
    forall|i: int|
        0 <= i < text.len() && #[trigger] text[i] == mark[0] ==> occurs_at(text, mark, i)
            || breaks_off(text, mark, i, 1)
}

/// True when `text` is settled and `mark` stands in it at exactly `n` places.
pub open spec fn tally(text: Seq<char>, mark: Seq<char>, n: nat) -> bool {
    settled(text, mark) && occurrences(text, mark) == n
}

/// Where a text breaks off from the mark, the mark does not stand.
pub proof fn lemma_break_excludes(text: Seq<char>, mark: Seq<char>, at: int, j: int)
    requires
        breaks_off(text, mark, at, j),
    ensures
        !occurs_at(text, mark, at),
    decreases mark.len() - j,
{
    if text[at + j] != mark[j] {
        if occurs_at(text, mark, at) {
            assert(text.subrange(at, at + mark.len())[j] == text[at + j]);
        }
    } else {
        lemma_break_excludes(text, mark, at, j + 1);
    }
}

/// A break stays a break whatever follows the text.
pub proof fn lemma_break_extends(a: Seq<char>, b: Seq<char>, mark: Seq<char>, at: int, j: int)
    requires
        breaks_off(a, mark, at, j),
    ensures
        breaks_off(a + b, mark, at, j),
    decreases mark.len() - j,
{
    assert((a + b)[at + j] == a[at + j]);
    if a[at + j] == mark[j] {
        lemma_break_extends(a, b, mark, at, j + 1);
    }
}

/// A break stays a break whatever precedes the text.
pub proof fn lemma_break_shifts(a: Seq<char>, b: Seq<char>, mark: Seq<char>, at: int, j: int)
    requires
        breaks_off(b, mark, at, j),
    ensures
        breaks_off(a + b, mark, at + a.len(), j),
    decreases mark.len() - j,
{
    assert((a + b)[at + a.len() + j] == b[at + j]);
    if b[at + j] == mark[j] {
        lemma_break_shifts(a, b, mark, at, j + 1);
    }
}

/// In a text in two parts, the mark stands in the first part where it
/// stands in the whole, as long as the first part is settled.
pub proof fn lemma_occurs_in_head(a: Seq<char>, b: Seq<char>, mark: Seq<char>, at: int)
    requires
        mark.len() > 0,
        settled(a, mark),
        0 <= at < a.len(),
    ensures
        occurs_at(a + b, mark, at) <==> occurs_at(a, mark, at),
{
    if occurs_at(a, mark, at) {
        assert((a + b).subrange(at, at + mark.len()) =~= a.subrange(at, at + mark.len()));
    }
    if occurs_at(a + b, mark, at) {
        assert((a + b).subrange(at, at + mark.len())[0] == (a + b)[at]);
        assert(a[at] == mark[0]);
        if breaks_off(a, mark, at, 1) {
            lemma_break_extends(a, b, mark, at, 1);
            lemma_break_excludes(a + b, mark, at, 1);
        }
    }
}

/// In a text in two parts, the mark stands in the second part where it
/// stands in the whole.
pub proof fn lemma_occurs_in_tail(a: Seq<char>, b: Seq<char>, mark: Seq<char>, at: int)
    requires
        0 <= at,
    ensures
        occurs_at(a + b, mark, at + a.len()) <==> occurs_at(b, mark, at),
{
    if at + mark.len() <= b.len() {
        assert((a + b).subrange(at + a.len(), at + a.len() + mark.len()) =~= b.subrange(
            at,
            at + mark.len(),
        ));
    }
}

proof fn lemma_count_head(a: Seq<char>, b: Seq<char>, mark: Seq<char>, n: nat)
    requires
        mark.len() > 0,
        settled(a, mark),
        n <= a.len(),
    ensures
        count_below(a + b, mark, n) == count_below(a, mark, n),
    decreases n,
{
    if n > 0 {
        lemma_count_head(a, b, mark, (n - 1) as nat);
        lemma_occurs_in_head(a, b, mark, n - 1);
    }
}

proof fn lemma_count_tail(a: Seq<char>, b: Seq<char>, mark: Seq<char>, n: nat)
    requires
        mark.len() > 0,
        settled(a, mark),
        n <= b.len(),
    ensures
        count_below(a + b, mark, a.len() + n) == count_below(a, mark, a.len()) + count_below(
            b,
            mark,
            n,
        ),
    decreases n,
{
    if n == 0 {
        lemma_count_head(a, b, mark, a.len());
    } else {
        lemma_count_tail(a, b, mark, (n - 1) as nat);
        lemma_occurs_in_tail(a, b, mark, n - 1);
    }
}

/// The count of a text in two settled parts is the sum of the counts of the
/// parts, and the text is settled.
pub proof fn lemma_tally_concat(a: Seq<char>, b: Seq<char>, mark: Seq<char>, x: nat, y: nat)
    requires
        mark.len() > 0,
        tally(a, mark, x),
        tally(b, mark, y),
    ensures
        tally(a + b, mark, x + y),
{
    lemma_count_tail(a, b, mark, b.len());
    assert forall|i: int| 0 <= i < (a + b).len() && #[trigger] (a + b)[i] == mark[0] implies occurs_at(
        a + b,
        mark,
        i,
    ) || breaks_off(a + b, mark, i, 1) by {
        if i < a.len() {
            assert(a[i] == mark[0]);
            if breaks_off(a, mark, i, 1) {
                lemma_break_extends(a, b, mark, i, 1);
            } else {
                lemma_occurs_in_head(a, b, mark, i);
            }
        } else {
            assert(b[i - a.len()] == mark[0]);
            if breaks_off(b, mark, i - a.len(), 1) {
                lemma_break_shifts(a, b, mark, i - a.len(), 1);
            } else {
                lemma_occurs_in_tail(a, b, mark, i - a.len());
            }
        }
    }
}

proof fn lemma_clean_count(text: Seq<char>, mark: Seq<char>, n: nat)
    requires
        mark.len() > 0,
        clean(text, mark),
        n <= text.len(),
    ensures
        count_below(text, mark, n) == 0,
    decreases n,
{
    if n > 0 {
        lemma_clean_count(text, mark, (n - 1) as nat);
        if occurs_at(text, mark, n - 1) {
            assert(text.subrange(n - 1, n - 1 + mark.len())[0] == text[n - 1]);
            lemma_break_excludes(text, mark, n - 1, 1);
        }
    }
}

/// The mark stands nowhere in a clean text.
pub proof fn lemma_clean_tally(text: Seq<char>, mark: Seq<char>)
    requires
        mark.len() > 0,
        clean(text, mark),
    ensures
        tally(text, mark, 0),
{
    lemma_clean_count(text, mark, text.len());
}

/// Two clean texts make a clean text.
pub broadcast proof fn lemma_clean_concat(a: Seq<char>, b: Seq<char>, mark: Seq<char>)
    requires
        clean(a, mark),
        clean(b, mark),
    ensures
        #[trigger] clean(a + b, mark),
{
    assert forall|i: int| 0 <= i < (a + b).len() && #[trigger] (a + b)[i] == mark[0] implies breaks_off(
        a + b,
        mark,
        i,
        1,
    ) by {
        if i < a.len() {
            assert(a[i] == mark[0]);
            lemma_break_extends(a, b, mark, i, 1);
        } else {
            assert(b[i - a.len()] == mark[0]);
            lemma_break_shifts(a, b, mark, i - a.len(), 1);
        }
    }
}

/// Clean pieces joined by a clean separator make a clean text.
pub proof fn lemma_clean_joined(parts: Seq<Seq<char>>, sep: Seq<char>, mark: Seq<char>)
    requires
        clean(sep, mark),
        forall|k: int| 0 <= k < parts.len() ==> clean(#[trigger] parts[k], mark),
    ensures
        clean(joined(parts, sep), mark),
    decreases parts.len(),
{
    if parts.len() > 1 {
        lemma_clean_joined(parts.drop_last(), sep, mark);
        lemma_clean_concat(joined(parts.drop_last(), sep), sep, mark);
        lemma_clean_concat(joined(parts.drop_last(), sep) + sep, parts.last(), mark);
    }
}

/// Pieces that each hold the mark once make a text that holds it once for
/// each piece.
pub proof fn lemma_tally_pieces(parts: Seq<Seq<char>>, mark: Seq<char>)
    requires
        mark.len() > 0,
        forall|k: int| 0 <= k < parts.len() ==> tally(#[trigger] parts[k], mark, 1),
    ensures
        tally(concat_all(parts), mark, parts.len()),
    decreases parts.len(),
{
    if parts.len() == 0 {
        lemma_clean_tally(concat_all(parts), mark);
    } else {
        lemma_tally_pieces(parts.drop_last(), mark);
        lemma_tally_concat(
            concat_all(parts.drop_last()),
            parts.last(),
            mark,
            (parts.len() - 1) as nat,
            1,
        );
    }
}

/// Clean pieces make a clean text.
pub proof fn lemma_clean_pieces(parts: Seq<Seq<char>>, mark: Seq<char>)
    requires
        forall|k: int| 0 <= k < parts.len() ==> clean(#[trigger] parts[k], mark),
    ensures
        clean(concat_all(parts), mark),
    decreases parts.len(),
{
    if parts.len() > 0 {
        lemma_clean_pieces(parts.drop_last(), mark);
        lemma_clean_concat(concat_all(parts.drop_last()), parts.last(), mark);
    }
}

/// A text in which the mark stands at `at`, and which breaks off from the
/// mark wherever else the first character of the mark stands, holds the
/// mark once.
pub proof fn lemma_single(text: Seq<char>, mark: Seq<char>, at: int)
    requires
        mark.len() > 0,
        occurs_at(text, mark, at),
        forall|i: int|
            0 <= i < text.len() && i != at && #[trigger] text[i] == mark[0] ==> breaks_off(
                text,
                mark,
                i,
                1,
            ),
    ensures
        tally(text, mark, 1),
{
    lemma_single_count(text, mark, at, text.len());
}

proof fn lemma_single_count(text: Seq<char>, mark: Seq<char>, at: int, n: nat)
    requires
        mark.len() > 0,
        occurs_at(text, mark, at),
        forall|i: int|
            0 <= i < text.len() && i != at && #[trigger] text[i] == mark[0] ==> breaks_off(
                text,
                mark,
                i,
                1,
            ),
        n <= text.len(),
    ensures
        count_below(text, mark, n) == (if at < n {
            1nat
        } else {
            0nat
        }),
    decreases n,
{
    if n > 0 {
        lemma_single_count(text, mark, at, (n - 1) as nat);
        if n - 1 != at && occurs_at(text, mark, n - 1) {
            assert(text.subrange(n - 1, n - 1 + mark.len())[0] == text[n - 1]);
            lemma_break_excludes(text, mark, n - 1, 1);
        }
    }
}

/// A text that differs from the mark at distance `d` breaks off from it at
/// or before that distance.
pub proof fn lemma_break_from_difference(
    text: Seq<char>,
    mark: Seq<char>,
    at: int,
    j: int,
    d: int,
)
    requires
        0 <= at,
        0 <= j <= d < mark.len(),
        at + d < text.len(),
        text[at + d] != mark[d],
    ensures
        breaks_off(text, mark, at, j),
    decreases d - j,
{
    if text[at + j] == mark[j] {
        lemma_break_from_difference(text, mark, at, j + 1, d);
    }
}

/// Where a text breaks off from a mark, it breaks off from every longer
/// mark that begins with it.
pub proof fn lemma_break_of_longer(
    text: Seq<char>,
    base: Seq<char>,
    mark: Seq<char>,
    at: int,
    j: int,
)
    requires
        breaks_off(text, base, at, j),
        base.len() <= mark.len(),
        mark.take(base.len() as int) == base,
    ensures
        breaks_off(text, mark, at, j),
    decreases base.len() - j,
{
    assert(mark.take(base.len() as int)[j] == mark[j]);
    if text[at + j] == base[j] {
        lemma_break_of_longer(text, base, mark, at, j + 1);
    }
}

/// A text that is clean of a mark is clean of every longer mark that begins
/// with it.
pub proof fn lemma_clean_of_longer(text: Seq<char>, base: Seq<char>, mark: Seq<char>)
    requires
        clean(text, base),
        0 < base.len() <= mark.len(),
        mark.take(base.len() as int) == base,
    ensures
        clean(text, mark),
{
    assert(mark.take(base.len() as int)[0] == mark[0]);
    assert forall|i: int| 0 <= i < text.len() && #[trigger] text[i] == mark[0] implies breaks_off(
        text,
        mark,
        i,
        1,
    ) by {
        lemma_break_of_longer(text, base, mark, i, 1);
    }
}

/// Pieces of which some hold the mark once and the others are settled
/// without it make a text that holds the mark once for each of the former.
pub proof fn lemma_tally_selected(
    parts: Seq<Seq<char>>,
    mark: Seq<char>,
    hit: spec_fn(int) -> bool,
)
    requires
        mark.len() > 0,
        forall|k: int|
            0 <= k < parts.len() ==> tally(
                #[trigger] parts[k],
                mark,
                if hit(k) {
                    1
                } else {
                    0
                },
            ),
    ensures
        tally(concat_all(parts), mark, count_where(parts.len(), hit)),
    decreases parts.len(),
{
    if parts.len() == 0 {
        lemma_clean_tally(concat_all(parts), mark);
    } else {
        let before = parts.drop_last();
        assert forall|k: int| 0 <= k < before.len() implies tally(
            #[trigger] before[k],
            mark,
            if hit(k) {
                1
            } else {
                0
            },
        ) by {
            assert(before[k] == parts[k]);
        }
        lemma_tally_selected(before, mark, hit);
        lemma_tally_concat(
            concat_all(before),
            parts.last(),
            mark,
            count_where(before.len(), hit),
            if hit(parts.len() - 1) {
                1
            } else {
                0
            },
        );
    }
}

/// Where exactly one position below `n` is accepted, the count is one.
pub proof fn lemma_one_hit(n: nat, hit: spec_fn(int) -> bool, k: int)
    requires
        0 <= k < n,
        forall|j: int| 0 <= j < n ==> (#[trigger] hit(j) <==> j == k),
    ensures
        count_where(n, hit) == 1,
{
    lemma_hits_upto(n, hit, k, n);
}

proof fn lemma_hits_upto(n: nat, hit: spec_fn(int) -> bool, k: int, m: nat)
    requires
        0 <= k < n,
        m <= n,
        forall|j: int| 0 <= j < n ==> (#[trigger] hit(j) <==> j == k),
    ensures
        count_where(m, hit) == (if k < m {
            1nat
        } else {
            0nat
        }),
    decreases m,
{
    if m > 0 {
        lemma_hits_upto(n, hit, k, (m - 1) as nat);
        assert(hit(m - 1) <==> m - 1 == k);
    }
}

} // verus!
