//! The order of texts, character by character.

use crate::text::chars_of;
use vstd::prelude::*;

verus! {

/// Whether one text comes before another: it is a proper beginning of it, or has the smaller
/// character where they first differ.
pub open spec fn text_less(left: Seq<char>, right: Seq<char>) -> bool
    decreases left.len(),
{
    if right.len() == 0 {
        false
    } else if left.len() == 0 {
        true
    } else if left[0] != right[0] {
        (left[0] as int) < (right[0] as int)
    } else {
        text_less(left.drop_first(), right.drop_first())
    }
}

/// Of two texts that differ, one comes before the other.
pub proof fn law_text_order_is_total(left: Seq<char>, right: Seq<char>)
    ensures
        left == right || text_less(left, right) || text_less(right, left),
        !(text_less(left, right) && text_less(right, left)),
        text_less(left, right) ==> left != right,
    decreases left.len(),
{
    if left.len() > 0 && right.len() > 0 && left[0] == right[0] {
        law_text_order_is_total(left.drop_first(), right.drop_first());
        if left.drop_first() == right.drop_first() {
            assert(left =~= seq![left[0]] + left.drop_first());
            assert(right =~= seq![right[0]] + right.drop_first());
        }
    } else if left.len() == 0 && right.len() == 0 {
        assert(left =~= right);
    }
}

/// What comes before something comes before what follows it.
pub proof fn law_text_order_is_transitive(first: Seq<char>, second: Seq<char>, third: Seq<char>)
    requires
        text_less(first, second),
        text_less(second, third),
    ensures
        text_less(first, third),
    decreases first.len(),
{
    if first.len() > 0 && second.len() > 0 && third.len() > 0 && first[0] == second[0]
        && second[0] == third[0] {
        law_text_order_is_transitive(first.drop_first(), second.drop_first(), third.drop_first());
    }
}

/// Tells whether one text comes before another.
pub fn comes_before(left: &str, right: &str) -> (before: bool)
    ensures
        before == text_less(left@, right@),
{
    let a: Vec<char> = chars_of(left);
    let b: Vec<char> = chars_of(right);
    let mut i: usize = 0;
    proof {
        assert(left@.skip(0) =~= left@);
        assert(right@.skip(0) =~= right@);
    }
    while i < a.len() && i < b.len()
        invariant
            a@ == left@,
            b@ == right@,
            i <= a@.len(),
            i <= b@.len(),
            text_less(left@, right@) == text_less(left@.skip(i as int), right@.skip(i as int)),
        decreases a@.len() - i,
    {
        let ghost l = left@.skip(i as int);
        let ghost r = right@.skip(i as int);
        proof {
            assert(l[0] == a@[i as int] && r[0] == b@[i as int]);
            assert(l.drop_first() =~= left@.skip(i + 1));
            assert(r.drop_first() =~= right@.skip(i + 1));
        }
        let c: char = a[i];
        let d: char = b[i];
        if c != d {
            return c < d;
        }
        i += 1;
    }
    i < b.len()
}

} // verus!
