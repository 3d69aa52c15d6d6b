//! The order of logical paths. Paths are ordered segment by segment, as
//! words are in a dictionary, and segments as strings are: byte by byte.

use vstd::prelude::*;
use vstd::utf8::{decode_utf8, encode_utf8, encode_utf8_decode_utf8};

verus! {

/// Whether `a` and `b` hold the same items at their first `count` places.
pub open spec fn agree_until<T>(a: Seq<T>, b: Seq<T>, count: int) -> bool {
    &&& 0 <= count <= a.len()
    &&& count <= b.len()
    &&& forall|i: int| 0 <= i < count ==> a[i] == b[i]
}

/// Whether `a` comes before `b` in the order of a dictionary over `less`:
/// where the two first differ, `a` has ended and `b` has not, or `a` has
/// the lesser item.
pub open spec fn lex_before<T>(a: Seq<T>, b: Seq<T>, less: spec_fn(T, T) -> bool) -> bool {
    exists|count: int|
        #[trigger] agree_until(a, b, count) && count < b.len() && (count == a.len() || less(
            a[count],
            b[count],
        ))
}

/// Whether nothing is less than itself.
pub open spec fn irreflexive<T>(less: spec_fn(T, T) -> bool) -> bool {
    forall|x: T| !#[trigger] less(x, x)
}

/// Whether what is less than something less is less.
pub open spec fn transitive<T>(less: spec_fn(T, T) -> bool) -> bool {
    forall|x: T, y: T, z: T| #[trigger] less(x, y) && #[trigger] less(y, z) ==> less(x, z)
}

/// Whether of two different things one is less than the other.
pub open spec fn total<T>(less: spec_fn(T, T) -> bool) -> bool {
    forall|x: T, y: T| x != y ==> #[trigger] less(x, y) || less(y, x)
}

/// The order of bytes.
pub open spec fn byte_less() -> spec_fn(u8, u8) -> bool {
    |x: u8, y: u8| x < y
}

/// Whether the text `a` comes before the text `b`: the order of their
/// bytes, which is the order that strings have.
pub open spec fn text_before(a: Seq<char>, b: Seq<char>) -> bool {
    lex_before(encode_utf8(a), encode_utf8(b), byte_less())
}

/// The order of texts.
pub open spec fn text_less() -> spec_fn(Seq<char>, Seq<char>) -> bool {
    |a: Seq<char>, b: Seq<char>| text_before(a, b)
}

/// Whether the path of segments `a` comes before the path of segments `b`.
pub open spec fn path_before(a: Seq<Seq<char>>, b: Seq<Seq<char>>) -> bool {
    lex_before(a, b, text_less())
}

/// Where two sequences first differ, nothing else decides their order: a
/// sequence comes before another exactly if it has ended there and the
/// other has not, or has the lesser item there.
pub proof fn lemma_decided_at<T>(a: Seq<T>, b: Seq<T>, less: spec_fn(T, T) -> bool, count: int)
    requires
        irreflexive(less),
        agree_until(a, b, count),
        count == a.len() || count == b.len() || a[count] != b[count],
    ensures
        lex_before(a, b, less) <==> count < b.len() && (count == a.len() || less(
            a[count],
            b[count],
        )),
{
    if lex_before(a, b, less) {
        let other = choose|other: int|
            #[trigger] agree_until(a, b, other) && other < b.len() && (other == a.len() || less(
                a[other],
                b[other],
            ));
        if other < count {
            assert(a[other] == b[other]);
            assert(!less(a[other], a[other]));
        }
    }
}

/// Two different sequences first differ somewhere.
pub proof fn lemma_first_difference<T>(a: Seq<T>, b: Seq<T>, from: int) -> (count: int)
    requires
        agree_until(a, b, from),
    ensures
        agree_until(a, b, count),
        count == a.len() || count == b.len() || a[count] != b[count],
    decreases a.len() - from,
{
    if from == a.len() || from == b.len() || a[from] != b[from] {
        from
    } else {
        lemma_first_difference(a, b, from + 1)
    }
}

/// No sequence comes before itself.
pub proof fn lemma_lex_irreflexive<T>(a: Seq<T>, less: spec_fn(T, T) -> bool)
    requires
        irreflexive(less),
    ensures
        !lex_before(a, a, less),
{
    assert(agree_until(a, a, a.len() as int));
    lemma_decided_at(a, a, less, a.len() as int);
}

/// What comes before a sequence comes before all that the sequence comes
/// before.
pub proof fn lemma_lex_transitive<T>(a: Seq<T>, b: Seq<T>, c: Seq<T>, less: spec_fn(T, T) -> bool)
    requires
        transitive(less),
        lex_before(a, b, less),
        lex_before(b, c, less),
    ensures
        lex_before(a, c, less),
{
    let first = choose|count: int|
        #[trigger] agree_until(a, b, count) && count < b.len() && (count == a.len() || less(
            a[count],
            b[count],
        ));
    let second = choose|count: int|
        #[trigger] agree_until(b, c, count) && count < c.len() && (count == b.len() || less(
            b[count],
            c[count],
        ));
    if first < second {
        assert(agree_until(a, c, first));
        assert(b[first] == c[first]);
    } else if second < first {
        assert(agree_until(a, c, second));
        assert(a[second] == b[second]);
    } else {
        assert(agree_until(a, c, first));
    }
}

/// Of two different sequences one comes before the other.
pub proof fn lemma_lex_total<T>(a: Seq<T>, b: Seq<T>, less: spec_fn(T, T) -> bool)
    requires
        total(less),
        a != b,
    ensures
        lex_before(a, b, less) || lex_before(b, a, less),
{
    assert(agree_until(a, b, 0));
    let count = lemma_first_difference(a, b, 0);
    assert(agree_until(b, a, count));
    if count == a.len() && count == b.len() {
        assert(a =~= b);
    }
}

/// The order of bytes is strict and total.
pub proof fn lemma_byte_order()
    ensures
        irreflexive(byte_less()),
        transitive(byte_less()),
        total(byte_less()),
{
}

/// The order of texts is strict and total.
pub proof fn lemma_text_order()
    ensures
        irreflexive(text_less()),
        transitive(text_less()),
        total(text_less()),
{
    lemma_byte_order();
    assert forall|x: Seq<char>| !#[trigger] text_less()(x, x) by {
        lemma_lex_irreflexive(encode_utf8(x), byte_less());
    }
    assert forall|x: Seq<char>, y: Seq<char>, z: Seq<char>| #[trigger]
        text_less()(x, y) && #[trigger] text_less()(y, z) implies text_less()(x, z) by {
        lemma_lex_transitive(encode_utf8(x), encode_utf8(y), encode_utf8(z), byte_less());
    }
    assert forall|x: Seq<char>, y: Seq<char>| x != y implies #[trigger] text_less()(x, y)
        || text_less()(y, x) by {
        if encode_utf8(x) == encode_utf8(y) {
            encode_utf8_decode_utf8(x);
            encode_utf8_decode_utf8(y);
            assert(decode_utf8(encode_utf8(x)) == x);
            assert(decode_utf8(encode_utf8(y)) == y);
        }
        lemma_lex_total(encode_utf8(x), encode_utf8(y), byte_less());
    }
}

/// The order of paths is strict and total: no path comes before itself,
/// what comes before a path comes before all that the path comes before,
/// and of two different paths one comes before the other.
pub proof fn lemma_path_order(a: Seq<Seq<char>>, b: Seq<Seq<char>>, c: Seq<Seq<char>>)
    ensures
        !path_before(a, a),
        path_before(a, b) && path_before(b, c) ==> path_before(a, c),
        a != b ==> path_before(a, b) || path_before(b, a),
        !(path_before(a, b) && path_before(b, a)),
{
    lemma_text_order();
    lemma_lex_irreflexive(a, text_less());
    if path_before(a, b) && path_before(b, c) {
        lemma_lex_transitive(a, b, c, text_less());
    }
    if a != b {
        lemma_lex_total(a, b, text_less());
    }
    if path_before(a, b) && path_before(b, a) {
        lemma_lex_transitive(a, b, a, text_less());
    }
}

/// Whether the string `a` comes before the string `b`.
pub fn text_precedes(a: &str, b: &str) -> (before: bool)
    ensures
        before == text_before(a@, b@),
{
    let left = a.as_bytes();
    let right = b.as_bytes();
    proof {
        lemma_byte_order();
    }
    let mut at: usize = 0;
    while at < left.len() && at < right.len()
        invariant
            agree_until(left@, right@, at as int),
            left@ == encode_utf8(a@),
            right@ == encode_utf8(b@),
            irreflexive(byte_less()),
        decreases left.len() - at,
    {
        if left[at] != right[at] {
            proof {
                lemma_decided_at(left@, right@, byte_less(), at as int);
            }
            return left[at] < right[at];
        }
        at = at + 1;
    }
    proof {
        lemma_decided_at(left@, right@, byte_less(), at as int);
    }
    left.len() < right.len()
}

/// Whether the path of segments `a` comes before the path of segments `b`.
pub fn segments_precede(a: &Vec<String>, b: &Vec<String>) -> (before: bool)
    ensures
        before == path_before(a.deep_view(), b.deep_view()),
{
    proof {
        lemma_text_order();
    }
    let ghost left = a.deep_view();
    let ghost right = b.deep_view();
    let mut at: usize = 0;
    while at < a.len() && at < b.len()
        invariant
            agree_until(left, right, at as int),
            left == a.deep_view(),
            right == b.deep_view(),
            irreflexive(text_less()),
        decreases a.len() - at,
    {
        if a[at] != b[at] {
            proof {
                assert(left[at as int] == a[at as int]@);
                assert(right[at as int] == b[at as int]@);
                lemma_decided_at(left, right, text_less(), at as int);
            }
            return text_precedes(a[at].as_str(), b[at].as_str());
        }
        proof {
            assert(left[at as int] == a[at as int]@);
            assert(right[at as int] == b[at as int]@);
        }
        at = at + 1;
    }
    proof {
        lemma_decided_at(left, right, text_less(), at as int);
    }
    a.len() < b.len()
}

} // verus!
