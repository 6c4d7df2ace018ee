//! Splitting symbol names at their capitals, so that a search for a word of
//! a camel-case name finds it.
use vstd::prelude::*;

verus! {

/// Whether `char::is_uppercase` holds of `c` (the Unicode `Uppercase`
/// property).
pub uninterp spec fn is_upper(c: char) -> bool;

/// Asks `char::is_uppercase` about `c`. The contract claims only that the
/// answer is the named value `is_upper(c)`.
#[verifier::external_body]
fn char_is_uppercase(c: char) -> (b: bool)
    ensures
        b == is_upper(c),
{
    c.is_uppercase()
}

/// The positions of the capitals of `t`, in increasing order.
pub open spec fn upper_cuts(t: Seq<char>) -> Seq<int>
    decreases t.len(),
{
    if t.len() == 0 {
        Seq::empty()
    } else {
        let c = upper_cuts(t.drop_last());
        if is_upper(t.last()) {
            c.push(t.len() - 1)
        } else {
            c
        }
    }
}

/// The end of the part that starts at the `j`th capital: the next capital,
/// or the end of the text.
pub open spec fn part_end(t: Seq<char>, c: Seq<int>, j: int) -> int {
    if j + 1 < c.len() {
        c[j + 1]
    } else {
        t.len() as int
    }
}

/// The tokens that a token `t` becomes: `t` itself, then for each capital
/// the text from it to the next capital or to the end.
pub open spec fn camel_parts(t: Seq<char>) -> Seq<Seq<char>> {
    let c = upper_cuts(t);
    seq![t] + Seq::new(c.len(), |j: int| t.subrange(c[j], part_end(t, c, j)))
}

proof fn lemma_upper_cuts(t: Seq<char>)
    ensures
        forall|j: int| 0 <= j < upper_cuts(t).len() ==> 0 <= #[trigger] upper_cuts(t)[j] < t.len(),
        forall|a: int, b: int|
            0 <= a < b < upper_cuts(t).len() ==> #[trigger] upper_cuts(t)[a] < #[trigger] upper_cuts(t)[b],
    decreases t.len(),
{
    if t.len() > 0 {
        let c = upper_cuts(t.drop_last());
        lemma_upper_cuts(t.drop_last());
        let u = upper_cuts(t);
        if is_upper(t.last()) {
            assert(u == c.push(t.len() - 1));
            assert forall|j: int| 0 <= j < u.len() implies 0 <= #[trigger] u[j] < t.len() by {
                if j < c.len() {
                    assert(u[j] == c[j]);
                }
            }
            assert forall|a: int, b: int| 0 <= a < b < u.len() implies #[trigger] u[a] < #[trigger] u[b] by {
                assert(u[a] == c[a]);
                if b < c.len() {
                    assert(u[b] == c[b]);
                }
            }
        } else {
            assert(u == c);
        }
    }
}

fn copy_range(text: &Vec<char>, a: usize, b: usize) -> (r: Vec<char>)
    requires
        a <= b <= text@.len(),
    ensures
        r@ == text@.subrange(a as int, b as int),
{
    let mut r: Vec<char> = Vec::new();
    let mut i: usize = a;
    while i < b
        invariant
            a <= i <= b,
            b <= text@.len(),
            r@ == text@.subrange(a as int, i as int),
        decreases b - i,
    {
        r.push(text[i]);
        i = i + 1;
        assert(r@ =~= text@.subrange(a as int, i as int));
    }
    r
}

/// The tokens that the token `text` becomes when split at its capitals:
/// the whole token first, then the part from each capital to the next one
/// or to the end. What comes before the first capital is no part of its own.
pub fn split_camel_case(text: &Vec<char>) -> (parts: Vec<Vec<char>>)
    ensures
        parts@.map_values(|p: Vec<char>| p@) == camel_parts(text@),
{
    let mut cuts: Vec<usize> = Vec::new();
    let mut i: usize = 0;
    while i < text.len()
        invariant
            i <= text@.len(),
            cuts@.map_values(|c: usize| c as int) == upper_cuts(text@.take(i as int)),
        decreases text@.len() - i,
    {
        proof {
            assert(text@.take(i + 1).drop_last() =~= text@.take(i as int));
        }
        let ghost before = cuts@;
        if char_is_uppercase(text[i]) {
            cuts.push(i);
            proof {
                assert(cuts@.map_values(|c: usize| c as int) =~= before.map_values(|c: usize| c as int).push(
                    i as int,
                ));
            }
        }
        i = i + 1;
    }
    let ghost t = text@;
    let ghost c = upper_cuts(t);
    proof {
        assert(text@.take(text@.len() as int) =~= text@);
        lemma_upper_cuts(t);
    }
    let mut parts: Vec<Vec<char>> = Vec::new();
    parts.push(copy_range(text, 0, text.len()));
    proof {
        assert(t.subrange(0, t.len() as int) =~= t);
    }
    let mut j: usize = 0;
    while j < cuts.len()
        invariant
            j <= cuts@.len(),
            t == text@,
            c == upper_cuts(t),
            cuts@.map_values(|x: usize| x as int) == c,
            forall|k: int| 0 <= k < c.len() ==> 0 <= #[trigger] c[k] < t.len(),
            forall|a: int, b: int| 0 <= a < b < c.len() ==> #[trigger] c[a] < #[trigger] c[b],
            parts@.len() == j + 1,
            parts@[0]@ == t,
            forall|k: int|
                0 <= k < j ==> #[trigger] parts@[k + 1]@ == t.subrange(c[k], part_end(t, c, k)),
        decreases cuts@.len() - j,
    {
        let start = cuts[j];
        let end = if j + 1 < cuts.len() {
            cuts[j + 1]
        } else {
            text.len()
        };
        proof {
            assert(c[j as int] == start as int);
            if j + 1 < cuts.len() {
                assert(c[j + 1] == end as int);
                assert(c[j as int] < c[j + 1]);
            }
        }
        parts.push(copy_range(text, start, end));
        j = j + 1;
    }
    proof {
        let v = parts@.map_values(|p: Vec<char>| p@);
        assert forall|k: int| 0 <= k < v.len() implies v[k] == camel_parts(t)[k] by {
            if k > 0 {
                assert(parts@[(k - 1) + 1]@ == t.subrange(c[k - 1], part_end(t, c, k - 1)));
            }
        }
        assert(v =~= camel_parts(t));
    }
    parts
}

/// The parts from the `j`th capital on.
pub open spec fn parts_from(t: Seq<char>, c: Seq<int>, j: int) -> Seq<Seq<char>> {
    Seq::new((c.len() - j) as nat, |k: int| t.subrange(c[j + k], part_end(t, c, j + k)))
}

proof fn lemma_parts_from_flatten(t: Seq<char>, j: int)
    requires
        0 <= j < upper_cuts(t).len(),
    ensures
        parts_from(t, upper_cuts(t), j).flatten() == t.subrange(upper_cuts(t)[j], t.len() as int),
    decreases upper_cuts(t).len() - j,
{
    let c = upper_cuts(t);
    lemma_upper_cuts(t);
    let p = parts_from(t, c, j);
    if j + 1 < c.len() {
        lemma_parts_from_flatten(t, j + 1);
        assert(p.drop_first() =~= parts_from(t, c, j + 1));
        assert(p.first() == t.subrange(c[j], c[j + 1]));
        assert(t.subrange(c[j], c[j + 1]) + t.subrange(c[j + 1], t.len() as int) =~= t.subrange(
            c[j],
            t.len() as int,
        ));
    } else {
        assert(p.drop_first() =~= Seq::<Seq<char>>::empty());
        assert(p.drop_first().flatten() =~= Seq::<char>::empty());
        assert(p.first() == t.subrange(c[j], t.len() as int));
        assert(p.first() + Seq::<char>::empty() =~= p.first());
    }
}

/// Splitting at the capitals loses nothing and adds nothing: the parts after
/// the whole token, put together, are the token from its first capital on,
/// and each of them starts with a capital. A token without capitals is its
/// only part.
pub proof fn lemma_camel_parts_cover(t: Seq<char>)
    ensures
        camel_parts(t)[0] == t,
        upper_cuts(t).len() == 0 ==> camel_parts(t).len() == 1,
        upper_cuts(t).len() > 0 ==> camel_parts(t).skip(1).flatten() == t.subrange(
            upper_cuts(t)[0],
            t.len() as int,
        ),
        forall|j: int|
            1 <= j < camel_parts(t).len() ==> camel_parts(t)[j].len() > 0 && is_upper(
                #[trigger] camel_parts(t)[j][0],
            ),
{
    let c = upper_cuts(t);
    lemma_upper_cuts(t);
    lemma_upper_cuts_are_capitals(t);
    if c.len() > 0 {
        lemma_parts_from_flatten(t, 0);
        assert(camel_parts(t).skip(1) =~= parts_from(t, c, 0));
    }
    assert forall|j: int| 1 <= j < camel_parts(t).len() implies camel_parts(t)[j].len() > 0 && is_upper(
        #[trigger] camel_parts(t)[j][0],
    ) by {
        let k = j - 1;
        assert(camel_parts(t)[j] == t.subrange(c[k], part_end(t, c, k)));
        if k + 1 < c.len() {
            assert(c[k] < c[k + 1]);
        }
        assert(t[c[k]] == camel_parts(t)[j][0]);
    }
}

proof fn lemma_upper_cuts_are_capitals(t: Seq<char>)
    ensures
        forall|j: int| 0 <= j < upper_cuts(t).len() ==> is_upper(#[trigger] t[upper_cuts(t)[j]]),
    decreases t.len(),
{
    if t.len() > 0 {
        let c = upper_cuts(t.drop_last());
        lemma_upper_cuts_are_capitals(t.drop_last());
        lemma_upper_cuts(t.drop_last());
        let u = upper_cuts(t);
        assert forall|j: int| 0 <= j < u.len() implies is_upper(#[trigger] t[u[j]]) by {
            if j < c.len() {
                assert(u[j] == c[j]);
                assert(t.drop_last()[c[j]] == t[c[j]]);
            }
        }
    }
}

proof fn lemma_upper_cuts_complete(t: Seq<char>, i: int)
    requires
        0 <= i < t.len(),
        is_upper(t[i]),
    ensures
        exists|j: int| 0 <= j < upper_cuts(t).len() && #[trigger] upper_cuts(t)[j] == i,
    decreases t.len(),
{
    let c = upper_cuts(t.drop_last());
    let u = upper_cuts(t);
    if i == t.len() - 1 {
        assert(u == c.push(t.len() - 1));
        assert(u[c.len() as int] == i);
    } else {
        assert(t.drop_last()[i] == t[i]);
        lemma_upper_cuts_complete(t.drop_last(), i);
        let j = choose|j: int| 0 <= j < c.len() && c[j] == i;
        if is_upper(t.last()) {
            assert(u == c.push(t.len() - 1));
        } else {
            assert(u == c);
        }
        assert(u[j] == i);
    }
}

/// Every capital of a token starts a part of its own: after the whole token,
/// the parts hold, for each capital, the text from it up to the next capital
/// or to the end, and no capital lies inside that text.
pub proof fn lemma_each_capital_starts_a_part(t: Seq<char>, i: int)
    requires
        0 <= i < t.len(),
        is_upper(t[i]),
    ensures
        exists|j: int, e: int|
            #![trigger camel_parts(t)[j], t.subrange(i, e)]
            1 <= j < camel_parts(t).len() && i < e <= t.len() && camel_parts(t)[j] == t.subrange(i, e) && (e == t.len() || is_upper(t[e])) && (forall|k: int| i < k < e ==> !is_upper(#[trigger] t[k])),
{
    let c = upper_cuts(t);
    lemma_upper_cuts(t);
    lemma_upper_cuts_are_capitals(t);
    lemma_upper_cuts_complete(t, i);
    let j = choose|j: int| 0 <= j < c.len() && c[j] == i;
    let e = part_end(t, c, j);
    assert(camel_parts(t)[j + 1] == t.subrange(i, e));
    if j + 1 < c.len() {
        assert(c[j] < c[j + 1]);
        assert(is_upper(t[c[j + 1]]));
    }
    assert forall|k: int| i < k < e implies !is_upper(#[trigger] t[k]) by {
        if is_upper(t[k]) {
            lemma_upper_cuts_complete(t, k);
            let j2 = choose|j2: int| 0 <= j2 < c.len() && c[j2] == k;
            if j2 <= j {
                if j2 < j {
                    assert(c[j2] < c[j]);
                }
            } else if j2 == j + 1 {
            } else {
                assert(c[j + 1] < c[j2]);
            }
        }
    }
    assert(1 <= j + 1 < camel_parts(t).len() && i < e <= t.len() && camel_parts(t)[j + 1] == t.subrange(i, e)
        && (e == t.len() || is_upper(t[e])) && (forall|k: int| i < k < e ==> !is_upper(#[trigger] t[k])));
}

} // verus!
