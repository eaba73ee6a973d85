//! The alphabetical order of texts, and sorted lists of them.

use crate::search;
use crate::strings::chars_of;
use vstd::prelude::*;

verus! {

/// Alphabetical order: by the first character that differs, a text before its continuations.
pub open spec fn text_less(left: Seq<char>, right: Seq<char>) -> bool
    decreases left.len(),
{
    if right.len() == 0 {
        false
    } else if left.len() == 0 {
        true
    } else if left[0] != right[0] {
        left[0] < right[0]
    } else {
        text_less(left.skip(1), right.skip(1))
    }
}

/// No text is before itself.
pub proof fn text_less_irreflexive(text: Seq<char>)
    ensures
        !text_less(text, text),
    decreases text.len(),
{
    if text.len() > 0 {
        text_less_irreflexive(text.skip(1));
    }
}

/// The order is transitive.
pub proof fn text_less_transitive(a: Seq<char>, b: Seq<char>, c: Seq<char>)
    requires
        text_less(a, b),
        text_less(b, c),
    ensures
        text_less(a, c),
    decreases a.len(),
{
    if a.len() > 0 && b.len() > 0 && c.len() > 0 && a[0] == b[0] && b[0] == c[0] {
        text_less_transitive(a.skip(1), b.skip(1), c.skip(1));
    }
}

/// Two different texts are in order one way or the other.
pub proof fn text_less_total(a: Seq<char>, b: Seq<char>)
    ensures
        a == b || text_less(a, b) || text_less(b, a),
    decreases a.len(),
{
    if a.len() > 0 && b.len() > 0 && a[0] == b[0] {
        text_less_total(a.skip(1), b.skip(1));
        if a.skip(1) == b.skip(1) {
            assert(a =~= seq![a[0]] + a.skip(1));
            assert(b =~= seq![b[0]] + b.skip(1));
        }
    } else if a.len() == 0 && b.len() == 0 {
        assert(a =~= b);
    }
}

/// How two texts stand to each other.
#[derive(Clone, Copy, Debug, PartialEq, Eq, Structural)]
pub enum Order {
    Before,
    Same,
    After,
}

/// How two texts stand to each other in the alphabetical order.
pub fn compare_text(left: &str, right: &str) -> (order: Order)
    ensures
        match order {
            Order::Before => text_less(left@, right@) && left@ != right@,
            Order::Same => left@ == right@,
            Order::After => text_less(right@, left@) && left@ != right@,
        },
{
    let a = chars_of(left);
    let b = chars_of(right);
    let mut index: usize = 0;
    proof {
        assert(a@.skip(0) =~= a@);
        assert(b@.skip(0) =~= b@);
    }
    while index < a.len() && index < b.len()
        invariant
            a@ == left@,
            b@ == right@,
            index <= a@.len(),
            index <= b@.len(),
            a@.take(index as int) == b@.take(index as int),
            text_less(left@, right@) == text_less(a@.skip(index as int), b@.skip(index as int)),
            text_less(right@, left@) == text_less(b@.skip(index as int), a@.skip(index as int)),
        decreases a@.len() - index,
    {
        proof {
            assert(a@.skip(index as int)[0] == a@[index as int]);
            assert(b@.skip(index as int)[0] == b@[index as int]);
            assert(a@.skip(index as int).skip(1) =~= a@.skip(index + 1));
            assert(b@.skip(index as int).skip(1) =~= b@.skip(index + 1));
        }
        if a[index] != b[index] {
            if a[index] < b[index] {
                return Order::Before;
            }
            return Order::After;
        }
        proof {
            assert(a@.take(index + 1) =~= a@.take(index as int).push(a@[index as int]));
            assert(b@.take(index + 1) =~= b@.take(index as int).push(b@[index as int]));
        }
        index += 1;
    }
    proof {
        if a@.len() == b@.len() {
            assert(a@.take(index as int) =~= a@);
            assert(b@.take(index as int) =~= b@);
        }
    }
    if a.len() == b.len() {
        Order::Same
    } else if a.len() < b.len() {
        Order::Before
    } else {
        Order::After
    }
}

/// The texts are in alphabetical order and none occurs twice.
pub open spec fn strictly_sorted(names: Seq<String>) -> bool {
    forall|i: int, j: int|
        0 <= i < j < names.len() ==> text_less(#[trigger] names[i]@, #[trigger] names[j]@)
}

/// Puts a text into a sorted list unless it is there already.
pub fn insert_sorted(names: &mut Vec<String>, name: String)
    requires
        strictly_sorted(old(names)@),
    ensures
        strictly_sorted(final(names)@),
        forall|text: Seq<char>|
            #[trigger] search::lists(final(names)@, text) <==> search::lists(old(names)@, text) || text
                == name@,
{
    let mut index: usize = 0;
    while index < names.len()
        invariant
            index <= names@.len(),
            names@ == old(names)@,
            strictly_sorted(names@),
            forall|i: int| 0 <= i < index ==> text_less(#[trigger] names@[i]@, name@),
        ensures
            index < names@.len() ==> text_less(name@, names@[index as int]@),
        decreases names@.len() - index,
    {
        match compare_text(names[index].as_str(), name.as_str()) {
            Order::Before => {},
            Order::Same => {
                assert(search::lists(names@, name@));
                return;
            },
            Order::After => {
                break;
            },
        }
        index += 1;
    }
    let ghost before = names@;
    let ghost text = name@;
    names.insert(index, name);
    proof {
        assert forall|i: int, j: int| 0 <= i < j < names@.len() implies text_less(
            #[trigger] names@[i]@,
            #[trigger] names@[j]@,
        ) by {
            if i == index {
                assert(names@[j]@ == before[j - 1]@);
                if j - 1 > index {
                    text_less_transitive(text, before[index as int]@, before[j - 1]@);
                }
            }
        }
        assert forall|wanted: Seq<char>|
            #[trigger] search::lists(names@, wanted) <==> search::lists(before, wanted) || wanted
                == text by {
            if search::lists(before, wanted) {
                let i = choose|i: int| 0 <= i < before.len() && #[trigger] before[i]@ == wanted;
                if i < index {
                    assert(names@[i]@ == wanted);
                } else {
                    assert(names@[i + 1]@ == wanted);
                }
            }
            if wanted == text {
                assert(names@[index as int]@ == wanted);
            }
            if search::lists(names@, wanted) {
                let i = choose|i: int| 0 <= i < names@.len() && #[trigger] names@[i]@ == wanted;
                if i < index {
                    assert(before[i]@ == wanted);
                } else if i > index {
                    assert(before[i - 1]@ == wanted);
                }
            }
        }
    }
}

} // verus!
