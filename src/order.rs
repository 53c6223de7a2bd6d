//! Stable sorting of records by the text of a field.

use vstd::prelude::*;
use crate::query::{field_value, get_key_value, Field};
use crate::record::{infos_view, Info, InfoView};
use crate::text::chars_of;

verus! {

/// Lexicographic order on texts, by code point, as `str`'s `Ord` compares them.
pub open spec fn lex_lt(a: Seq<char>, b: Seq<char>) -> bool
    decreases a.len(),
{
    if a.len() == 0 {
        b.len() > 0
    } else if b.len() == 0 {
        false
    } else if a[0] != b[0] {
        a[0] < b[0]
    } else {
        lex_lt(a.drop_first(), b.drop_first())
    }
}

/// Whether text `a` comes strictly before text `b` in the chosen direction.
pub open spec fn before(a: Seq<char>, b: Seq<char>, asc: bool) -> bool {
    if asc {
        lex_lt(a, b)
    } else {
        lex_lt(b, a)
    }
}

/// Whether the records are in order of the field, in the chosen direction.
pub open spec fn sorted_by(s: Seq<InfoView>, f: Field, asc: bool) -> bool {
    forall|i: int, j: int|
        0 <= i < j < s.len() ==> !before(
            field_value(#[trigger] s[j], f),
            field_value(#[trigger] s[i], f),
            asc,
        )
}

/// The records whose field holds `v`, in their order.
pub open spec fn with_key(s: Seq<InfoView>, f: Field, v: Seq<char>) -> Seq<InfoView>
    decreases s.len(),
{
    if s.len() == 0 {
        s
    } else {
        let rest = with_key(s.drop_last(), f, v);
        if field_value(s.last(), f) == v {
            rest.push(s.last())
        } else {
            rest
        }
    }
}

/// Whether `r` is `s` sorted stably by the field: in order, and with the
/// records of each value of the field in the order that `s` has them.
pub open spec fn stable_sorted(r: Seq<InfoView>, s: Seq<InfoView>, f: Field, asc: bool) -> bool {
    &&& sorted_by(r, f, asc)
    &&& forall|v: Seq<char>| #[trigger] with_key(r, f, v) == with_key(s, f, v)
}

pub proof fn lemma_lex_irreflexive(a: Seq<char>)
    ensures
        !lex_lt(a, a),
    decreases a.len(),
{
    if a.len() > 0 {
        lemma_lex_irreflexive(a.drop_first());
    }
}

pub proof fn lemma_lex_asymmetric(a: Seq<char>, b: Seq<char>)
    ensures
        lex_lt(a, b) ==> !lex_lt(b, a),
    decreases a.len(),
{
    if a.len() > 0 && b.len() > 0 && a[0] == b[0] {
        lemma_lex_asymmetric(a.drop_first(), b.drop_first());
    }
}

pub proof fn lemma_lex_total(a: Seq<char>, b: Seq<char>)
    ensures
        a != b ==> lex_lt(a, b) || lex_lt(b, a),
    decreases a.len(),
{
    if a.len() > 0 && b.len() > 0 && a[0] == b[0] {
        lemma_lex_total(a.drop_first(), b.drop_first());
        if a.drop_first() == b.drop_first() {
            assert(a =~= seq![a[0]] + a.drop_first());
            assert(b =~= seq![b[0]] + b.drop_first());
        }
    } else if a.len() > 0 && b.len() > 0 {
    } else if a.len() == 0 && b.len() == 0 {
        assert(a =~= b);
    }
}

pub proof fn lemma_lex_transitive(a: Seq<char>, b: Seq<char>, c: Seq<char>)
    ensures
        lex_lt(a, b) && lex_lt(b, c) ==> lex_lt(a, c),
    decreases a.len(),
{
    if a.len() > 0 && b.len() > 0 && c.len() > 0 && a[0] == b[0] && b[0] == c[0] {
        lemma_lex_transitive(a.drop_first(), b.drop_first(), c.drop_first());
    }
}

/// `before` is a strict total order in either direction.
pub proof fn lemma_before_order(a: Seq<char>, b: Seq<char>, c: Seq<char>, asc: bool)
    ensures
        !before(a, a, asc),
        before(a, b, asc) ==> !before(b, a, asc),
        a != b ==> before(a, b, asc) || before(b, a, asc),
        before(a, b, asc) && before(b, c, asc) ==> before(a, c, asc),
        !before(b, a, asc) && !before(c, b, asc) ==> !before(c, a, asc),
{
    lemma_lex_irreflexive(a);
    lemma_lex_asymmetric(a, b);
    lemma_lex_total(a, b);
    lemma_lex_total(b, c);
    lemma_lex_asymmetric(a, c);
    lemma_lex_transitive(a, b, c);
    lemma_lex_transitive(c, b, a);
}

pub proof fn lemma_with_key_append(a: Seq<InfoView>, b: Seq<InfoView>, f: Field, v: Seq<char>)
    ensures
        with_key(a + b, f, v) == with_key(a, f, v) + with_key(b, f, v),
    decreases b.len(),
{
    if b.len() == 0 {
        assert(a + b =~= a);
        assert(with_key(a, f, v) + with_key(b, f, v) =~= with_key(a, f, v));
    } else {
        lemma_with_key_append(a, b.drop_last(), f, v);
        assert((a + b).drop_last() =~= a + b.drop_last());
        assert((a + b).last() == b.last());
        let lhs = with_key(a + b, f, v);
        if field_value(b.last(), f) == v {
            assert(lhs =~= with_key(a, f, v) + with_key(b, f, v));
        } else {
            assert(lhs =~= with_key(a, f, v) + with_key(b, f, v));
        }
    }
}

pub proof fn lemma_with_key_absent(s: Seq<InfoView>, f: Field, v: Seq<char>)
    requires
        forall|i: int| 0 <= i < s.len() ==> field_value(#[trigger] s[i], f) != v,
    ensures
        with_key(s, f, v) == Seq::<InfoView>::empty(),
    decreases s.len(),
{
    if s.len() > 0 {
        lemma_with_key_absent(s.drop_last(), f, v);
    }
}

pub proof fn lemma_with_key_single(x: InfoView, f: Field, v: Seq<char>)
    ensures
        with_key(seq![x], f, v) == if field_value(x, f) == v {
            seq![x]
        } else {
            Seq::<InfoView>::empty()
        },
{
    let s = seq![x];
    assert(s.drop_last() =~= Seq::<InfoView>::empty());
    assert(with_key(s.drop_last(), f, v) =~= Seq::<InfoView>::empty());
    if field_value(x, f) == v {
        assert(with_key(s, f, v) =~= seq![x]);
    }
}

/// Whether text `a` comes strictly before text `b`.
pub fn lex_less(a: &Vec<char>, b: &Vec<char>) -> (r: bool)
    ensures
        r == lex_lt(a@, b@),
{
    let mut k: usize = 0;
    assert(a@.subrange(0, a@.len() as int) =~= a@);
    assert(b@.subrange(0, b@.len() as int) =~= b@);
    while k < a.len() && k < b.len() && a[k] == b[k]
        invariant
            k <= a.len(),
            k <= b.len(),
            lex_lt(a@, b@) == lex_lt(a@.subrange(k as int, a@.len() as int), b@.subrange(k as int, b@.len() as int)),
        decreases a.len() - k,
    {
        let ghost sa = a@.subrange(k as int, a@.len() as int);
        let ghost sb = b@.subrange(k as int, b@.len() as int);
        assert(sa.drop_first() =~= a@.subrange(k + 1, a@.len() as int));
        assert(sb.drop_first() =~= b@.subrange(k + 1, b@.len() as int));
        k = k + 1;
    }
    let ghost sa = a@.subrange(k as int, a@.len() as int);
    let ghost sb = b@.subrange(k as int, b@.len() as int);
    if k == a.len() {
        assert(sa.len() == 0);
        k < b.len()
    } else if k == b.len() {
        false
    } else {
        assert(sa[0] == a@[k as int] && sb[0] == b@[k as int]);
        a[k] < b[k]
    }
}

fn key_chars(info: &Info, field: Field) -> (r: Vec<char>)
    ensures
        r@ == field_value(info@, field),
{
    chars_of(get_key_value(info, field).as_str())
}

/// Merges two record lists that are each in order into one in order; on
/// equal fields the records of `a` come first.
fn merge(a: &Vec<Info>, b: &Vec<Info>, field: Field, asc: bool) -> (r: Vec<Info>)
    requires
        sorted_by(infos_view(a@), field, asc),
        sorted_by(infos_view(b@), field, asc),
    ensures
        sorted_by(infos_view(r@), field, asc),
        forall|v: Seq<char>|
            #[trigger] with_key(infos_view(r@), field, v) == with_key(infos_view(a@), field, v)
                + with_key(infos_view(b@), field, v),
{
    let ghost av = infos_view(a@);
    let ghost bv = infos_view(b@);
    let mut out: Vec<Info> = Vec::new();
    let mut i: usize = 0;
    let mut j: usize = 0;
    proof {
        assert forall|v: Seq<char>|
            #[trigger] with_key(infos_view(out@), field, v) + with_key(
                av.subrange(0, av.len() as int),
                field,
                v,
            ) + with_key(bv.subrange(0, bv.len() as int), field, v) == with_key(av, field, v)
                + with_key(bv, field, v) by {
            assert(av.subrange(0, av.len() as int) =~= av);
            assert(bv.subrange(0, bv.len() as int) =~= bv);
            assert(infos_view(out@) =~= Seq::<InfoView>::empty());
            assert(with_key(infos_view(out@), field, v) =~= Seq::<InfoView>::empty());
            assert(Seq::<InfoView>::empty() + with_key(av, field, v) =~= with_key(av, field, v));
        }
    }
    while i < a.len() || j < b.len()
        invariant
            i <= a.len(),
            j <= b.len(),
            av == infos_view(a@),
            bv == infos_view(b@),
            sorted_by(av, field, asc),
            sorted_by(bv, field, asc),
            sorted_by(infos_view(out@), field, asc),
            out.len() > 0 && i < a.len() ==> !before(
                field_value(av[i as int], field),
                field_value(infos_view(out@).last(), field),
                asc,
            ),
            out.len() > 0 && j < b.len() ==> !before(
                field_value(bv[j as int], field),
                field_value(infos_view(out@).last(), field),
                asc,
            ),
            forall|v: Seq<char>|
                #[trigger] with_key(infos_view(out@), field, v) + with_key(
                    av.subrange(i as int, av.len() as int),
                    field,
                    v,
                ) + with_key(bv.subrange(j as int, bv.len() as int), field, v) == with_key(
                    av,
                    field,
                    v,
                ) + with_key(bv, field, v),
        decreases a.len() + b.len() - i - j,
    {
        let take_a = if j == b.len() {
            true
        } else if i == a.len() {
            false
        } else {
            let ka = key_chars(&a[i], field);
            let kb = key_chars(&b[j], field);
            !(if asc {
                lex_less(&kb, &ka)
            } else {
                lex_less(&ka, &kb)
            })
        };
        let ghost old_out = infos_view(out@);
        let ghost ra = av.subrange(i as int, av.len() as int);
        let ghost rb = bv.subrange(j as int, bv.len() as int);
        let ghost x = if take_a {
            av[i as int]
        } else {
            bv[j as int]
        };
        let item = if take_a {
            a[i].clone()
        } else {
            b[j].clone()
        };
        out.push(item);
        proof {
            assert(infos_view(out@) =~= old_out.push(x));
            assert(old_out.push(x) =~= old_out + seq![x]);
            let kx = field_value(x, field);
            // the new list is still in order
            assert forall|p: int, q: int|
                0 <= p < q < infos_view(out@).len() implies !before(
                field_value(#[trigger] infos_view(out@)[q], field),
                field_value(#[trigger] infos_view(out@)[p], field),
                asc,
            ) by {
                if q == old_out.len() {
                    lemma_before_order(
                        field_value(old_out[p], field),
                        field_value(old_out.last(), field),
                        kx,
                        asc,
                    );
                    if p < old_out.len() - 1 {
                        assert(!before(
                            field_value(old_out[old_out.len() - 1], field),
                            field_value(old_out[p], field),
                            asc,
                        ));
                    }
                } else {
                    assert(infos_view(out@)[q] == old_out[q]);
                    assert(infos_view(out@)[p] == old_out[p]);
                }
            }
            if take_a {
                assert(ra =~= seq![x] + av.subrange(i + 1, av.len() as int));
                if i + 1 < a.len() {
                    assert(!before(field_value(av[i + 1], field), kx, asc));
                }
                if j < b.len() {
                    if i < a.len() && j < b.len() {
                        lemma_before_order(kx, field_value(bv[j as int], field), kx, asc);
                    }
                }
                assert forall|v: Seq<char>|
                    #[trigger] with_key(infos_view(out@), field, v) + with_key(
                        av.subrange(i + 1, av.len() as int),
                        field,
                        v,
                    ) + with_key(rb, field, v) == with_key(av, field, v) + with_key(bv, field, v) by {
                    lemma_with_key_append(old_out, seq![x], field, v);
                    lemma_with_key_append(seq![x], av.subrange(i + 1, av.len() as int), field, v);
                    lemma_with_key_single(x, field, v);
                    assert(with_key(old_out, field, v) + with_key(ra, field, v) + with_key(rb, field, v)
                        == with_key(av, field, v) + with_key(bv, field, v));
                    assert(with_key(infos_view(out@), field, v) + with_key(
                        av.subrange(i + 1, av.len() as int),
                        field,
                        v,
                    ) =~= with_key(old_out, field, v) + with_key(ra, field, v));
                }
            } else {
                assert(rb =~= seq![x] + bv.subrange(j + 1, bv.len() as int));
                if j + 1 < b.len() {
                    assert(!before(field_value(bv[j + 1], field), kx, asc));
                }
                if i < a.len() {
                    let ka = field_value(av[i as int], field);
                    lemma_before_order(kx, ka, kx, asc);
                    assert(before(kx, ka, asc));
                    // no record left in `a` has the key of `x`
                    assert forall|p: int| 0 <= p < ra.len() implies field_value(
                        #[trigger] ra[p],
                        field,
                    ) != kx by {
                        if p > 0 {
                            assert(!before(field_value(av[i + p], field), ka, asc));
                            lemma_before_order(kx, ka, field_value(av[i + p], field), asc);
                        }
                        lemma_before_order(kx, field_value(ra[p], field), kx, asc);
                    }
                }
                assert forall|v: Seq<char>|
                    #[trigger] with_key(infos_view(out@), field, v) + with_key(ra, field, v)
                        + with_key(bv.subrange(j + 1, bv.len() as int), field, v) == with_key(
                        av,
                        field,
                        v,
                    ) + with_key(bv, field, v) by {
                    lemma_with_key_append(old_out, seq![x], field, v);
                    lemma_with_key_append(seq![x], bv.subrange(j + 1, bv.len() as int), field, v);
                    lemma_with_key_single(x, field, v);
                    assert(with_key(old_out, field, v) + with_key(ra, field, v) + with_key(rb, field, v)
                        == with_key(av, field, v) + with_key(bv, field, v));
                    if field_value(x, field) == v {
                        if i < a.len() {
                            lemma_with_key_absent(ra, field, v);
                        } else {
                            assert(ra.len() == 0);
                            lemma_with_key_absent(ra, field, v);
                        }
                        assert(with_key(infos_view(out@), field, v) + with_key(ra, field, v)
                            + with_key(bv.subrange(j + 1, bv.len() as int), field, v)
                            =~= with_key(old_out, field, v) + with_key(ra, field, v)
                            + with_key(rb, field, v));
                    } else {
                        assert(with_key(infos_view(out@), field, v) + with_key(ra, field, v)
                            + with_key(bv.subrange(j + 1, bv.len() as int), field, v)
                            =~= with_key(old_out, field, v) + with_key(ra, field, v)
                            + with_key(rb, field, v));
                    }
                }
            }
        }
        if take_a {
            i = i + 1;
        } else {
            j = j + 1;
        }
    }
    proof {
        assert forall|v: Seq<char>|
            #[trigger] with_key(infos_view(out@), field, v) == with_key(av, field, v) + with_key(
                bv,
                field,
                v,
            ) by {
            let ra = av.subrange(i as int, av.len() as int);
            let rb = bv.subrange(j as int, bv.len() as int);
            assert(ra.len() == 0 && rb.len() == 0);
            assert(with_key(ra, field, v) =~= Seq::<InfoView>::empty());
            assert(with_key(rb, field, v) =~= Seq::<InfoView>::empty());
            assert(with_key(infos_view(out@), field, v) + with_key(ra, field, v) + with_key(
                rb,
                field,
                v,
            ) =~= with_key(infos_view(out@), field, v));
        }
    }
    out
}

/// The records of `s[lo..hi]`, sorted stably by the field.
fn merge_sort(s: &Vec<Info>, lo: usize, hi: usize, field: Field, asc: bool) -> (r: Vec<Info>)
    requires
        lo <= hi <= s.len(),
    ensures
        stable_sorted(
            infos_view(r@),
            infos_view(s@).subrange(lo as int, hi as int),
            field,
            asc,
        ),
    decreases hi - lo,
{
    let ghost sv = infos_view(s@);
    if hi - lo <= 1 {
        let mut r: Vec<Info> = Vec::new();
        if hi > lo {
            r.push(s[lo].clone());
        }
        assert(infos_view(r@) =~= sv.subrange(lo as int, hi as int));
        return r;
    }
    let mid = lo + (hi - lo) / 2;
    let left = merge_sort(s, lo, mid, field, asc);
    let right = merge_sort(s, mid, hi, field, asc);
    let r = merge(&left, &right, field, asc);
    proof {
        assert forall|v: Seq<char>|
            #[trigger] with_key(infos_view(r@), field, v) == with_key(
                sv.subrange(lo as int, hi as int),
                field,
                v,
            ) by {
            assert(sv.subrange(lo as int, hi as int) =~= sv.subrange(lo as int, mid as int)
                + sv.subrange(mid as int, hi as int));
            lemma_with_key_append(
                sv.subrange(lo as int, mid as int),
                sv.subrange(mid as int, hi as int),
                field,
                v,
            );
            assert(with_key(infos_view(left@), field, v) == with_key(
                sv.subrange(lo as int, mid as int),
                field,
                v,
            ));
            assert(with_key(infos_view(right@), field, v) == with_key(
                sv.subrange(mid as int, hi as int),
                field,
                v,
            ));
        }
    }
    r
}

/// The records sorted stably by the field, ascending or descending.
pub fn sort_records(records: &Vec<Info>, field: Field, asc: bool) -> (r: Vec<Info>)
    ensures
        stable_sorted(infos_view(r@), infos_view(records@), field, asc),
{
    let r = merge_sort(records, 0, records.len(), field, asc);
    assert(infos_view(records@).subrange(0, records.len() as int) =~= infos_view(records@));
    r
}

} // verus!
