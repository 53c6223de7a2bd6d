//! Properties that relate the library's operations to one another.

use vstd::prelude::*;
use crate::extract::{
    classify, entries, entries_upto, entry_at, is_meta, is_stream_ref, meta_count,
};
use crate::order::{before, lemma_before_order, sorted_by, stable_sorted, with_key};
use crate::bindings::url_parses;
use crate::query::{field_value, filtered, kept, Field};
use crate::record::{bad, good, InfoView};
use crate::text::{clean_lines, index_of, lines_from, trim};

verus! {

proof fn lemma_entries_upto_bounded(lines: Seq<Seq<char>>, n: int)
    requires
        0 <= n <= lines.len(),
    ensures
        entries_upto(lines, n).len() <= meta_count(lines, n),
        forall|k: int|
            0 <= k < entries_upto(lines, n).len() ==> (#[trigger] entries_upto(lines, n)[k]).url.len()
                > 0,
    decreases n,
{
    if n > 0 {
        lemma_entries_upto_bounded(lines, n - 1);
        let prev = entries_upto(lines, n - 1);
        if is_meta(lines[n - 1]) {
            match entry_at(lines, n - 1) {
                Some(e) => {
                    assert(entries_upto(lines, n) == prev.push(e));
                    assert(e.url.len() > 0);
                    assert forall|k: int| 0 <= k < prev.len() + 1 implies (
                    #[trigger] prev.push(e)[k]).url.len() > 0 by {
                        if k < prev.len() {
                            assert(prev.push(e)[k] == prev[k]);
                        }
                    }
                },
                None => {},
            }
        }
    }
}

/// Extraction yields at most one record per metadata line, and every record
/// it yields has a non-empty media reference.
pub proof fn lemma_extraction_bounded(content: Seq<char>)
    ensures
        entries(clean_lines(content)).len() <= meta_count(
            clean_lines(content),
            clean_lines(content).len() as int,
        ),
        forall|k: int|
            0 <= k < entries(clean_lines(content)).len() ==> (#[trigger] entries(
                clean_lines(content),
            )[k]).url.len() > 0,
{
    let lines = clean_lines(content);
    lemma_entries_upto_bounded(lines, lines.len() as int);
}

proof fn lemma_lines_from_nonempty(s: Seq<char>, start: int)
    ensures
        forall|k: int|
            0 <= k < lines_from(s, start).len() ==> (#[trigger] lines_from(s, start)[k]).len() > 0,
    decreases s.len() - start,
{
    if 0 <= start <= s.len() {
        let e = index_of(s, '\n', start);
        let t = trim(s.subrange(start, e));
        let head = if t.len() > 0 {
            seq![t]
        } else {
            Seq::<Seq<char>>::empty()
        };
        if start <= e < s.len() {
            lemma_lines_from_nonempty(s, e + 1);
            let rest = lines_from(s, e + 1);
            assert forall|k: int| 0 <= k < (head + rest).len() implies (#[trigger] (head
                + rest)[k]).len() > 0 by {
                if k < head.len() {
                    assert((head + rest)[k] == head[k]);
                } else {
                    assert((head + rest)[k] == rest[k - head.len()]);
                }
            }
        }
    }
}

/// Every clean line of a document has content.
pub proof fn lemma_clean_lines_nonempty(content: Seq<char>)
    ensures
        forall|k: int|
            0 <= k < clean_lines(content).len() ==> (#[trigger] clean_lines(content)[k]).len() > 0,
{
    lemma_lines_from_nonempty(content, 0);
}

proof fn lemma_meta_nonempty(line: Seq<char>)
    requires
        is_meta(line),
    ensures
        line.len() > 0,
{
}

/// A metadata line followed by a streaming-protocol reference yields a
/// record with that reference and status `GOOD`, whatever follows it.
pub proof fn lemma_stream_reference_wins(content: Seq<char>, i: int)
    requires
        0 <= i,
        i + 1 < clean_lines(content).len(),
        is_meta(clean_lines(content)[i]),
        is_stream_ref(clean_lines(content)[i + 1]),
    ensures
        entry_at(clean_lines(content), i) matches Some(e) && e.url == clean_lines(content)[i + 1]
            && e.status == good(),
{
    let lines = clean_lines(content);
    lemma_clean_lines_nonempty(content);
    lemma_meta_nonempty(lines[i]);
    assert(lines[i + 1].len() > 0);
    assert(classify(lines[i + 1]) == Some(true));
}

/// A metadata line followed by a line that is no reference, then by a URL
/// that is no streaming-protocol reference, yields a record with that URL
/// and status `BAD`, pending a probe.
pub proof fn lemma_second_line_url(content: Seq<char>, i: int)
    requires
        0 <= i,
        i + 2 < clean_lines(content).len(),
        is_meta(clean_lines(content)[i]),
        classify(clean_lines(content)[i + 1]) is None,
        url_parses(clean_lines(content)[i + 2]),
        !is_stream_ref(clean_lines(content)[i + 2]),
    ensures
        entry_at(clean_lines(content), i) matches Some(e) && e.url == clean_lines(content)[i + 2]
            && e.status == bad(),
{
    let lines = clean_lines(content);
    lemma_clean_lines_nonempty(content);
    lemma_meta_nonempty(lines[i]);
    assert(lines[i + 2].len() > 0);
    assert(classify(lines[i + 2]) == Some(false));
}

proof fn lemma_filtered_from(s: Seq<InfoView>, f: Field, pats: Seq<Seq<char>>, retain: bool, x: InfoView)
    ensures
        filtered(s, f, pats, retain).contains(x) ==> s.contains(x) && kept(x, f, pats, retain),
    decreases s.len(),
{
    if s.len() > 0 {
        lemma_filtered_from(s.drop_last(), f, pats, retain, x);
        let rest = filtered(s.drop_last(), f, pats, retain);
        if filtered(s, f, pats, retain).contains(x) {
            let k = choose|k: int|
                0 <= k < filtered(s, f, pats, retain).len() && filtered(s, f, pats, retain)[k] == x;
            if kept(s.last(), f, pats, retain) && k == rest.len() {
                assert(s[s.len() - 1] == x);
            } else {
                assert(rest[k] == x);
                assert(rest.contains(x));
                let j = choose|j: int| 0 <= j < s.drop_last().len() && s.drop_last()[j] == x;
                assert(s[j] == x);
            }
        }
    }
}

/// A record that a filter removed does not come back through any later
/// filter: only restoring the snapshot brings it back.
pub proof fn lemma_removed_stays_removed(
    s: Seq<InfoView>,
    f: Field,
    pats: Seq<Seq<char>>,
    retain: bool,
    f2: Field,
    pats2: Seq<Seq<char>>,
    retain2: bool,
    x: InfoView,
)
    requires
        !kept(x, f, pats, retain),
    ensures
        !filtered(s, f, pats, retain).contains(x),
        !filtered(filtered(s, f, pats, retain), f2, pats2, retain2).contains(x),
{
    lemma_filtered_from(s, f, pats, retain, x);
    lemma_filtered_from(filtered(s, f, pats, retain), f2, pats2, retain2, x);
}

proof fn lemma_with_key_nonempty(s: Seq<InfoView>, f: Field, v: Seq<char>)
    ensures
        with_key(s, f, v).len() > 0 <==> exists|i: int| 0 <= i < s.len() && field_value(#[trigger] s[i], f) == v,
    decreases s.len(),
{
    if s.len() > 0 {
        lemma_with_key_nonempty(s.drop_last(), f, v);
        if exists|i: int| 0 <= i < s.len() && field_value(#[trigger] s[i], f) == v {
            let i = choose|i: int| 0 <= i < s.len() && field_value(#[trigger] s[i], f) == v;
            if i < s.len() - 1 {
                assert(s.drop_last()[i] == s[i]);
            }
        }
        if exists|i: int| 0 <= i < s.drop_last().len() && field_value(#[trigger] s.drop_last()[i], f) == v {
            let i = choose|i: int| 0 <= i < s.drop_last().len() && field_value(#[trigger] s.drop_last()[i], f) == v;
            assert(s[i] == s.drop_last()[i]);
        }
    }
}

/// Two lists that are both sorted stably from the same records are equal.
proof fn lemma_stable_sort_unique(a: Seq<InfoView>, b: Seq<InfoView>, f: Field, asc: bool)
    requires
        sorted_by(a, f, asc),
        sorted_by(b, f, asc),
        forall|v: Seq<char>| #[trigger] with_key(a, f, v) == with_key(b, f, v),
    ensures
        a == b,
    decreases a.len() + b.len(),
{
    if a.len() == 0 && b.len() == 0 {
        assert(a =~= b);
    } else if a.len() == 0 {
        let kb = field_value(b.last(), f);
        lemma_with_key_nonempty(b, f, kb);
        assert(field_value(b[b.len() - 1], f) == kb);
        lemma_with_key_nonempty(a, f, kb);
        assert(with_key(a, f, kb) == with_key(b, f, kb));
    } else if b.len() == 0 {
        let ka = field_value(a.last(), f);
        lemma_with_key_nonempty(a, f, ka);
        assert(field_value(a[a.len() - 1], f) == ka);
        lemma_with_key_nonempty(b, f, ka);
        assert(with_key(a, f, ka) == with_key(b, f, ka));
    } else {
        let ka = field_value(a.last(), f);
        let kb = field_value(b.last(), f);
        lemma_with_key_nonempty(a, f, ka);
        lemma_with_key_nonempty(b, f, ka);
        lemma_with_key_nonempty(a, f, kb);
        lemma_with_key_nonempty(b, f, kb);
        assert(field_value(a[a.len() - 1], f) == ka);
        assert(field_value(b[b.len() - 1], f) == kb);
        assert(with_key(a, f, ka) == with_key(b, f, ka));
        assert(with_key(a, f, kb) == with_key(b, f, kb));
        // the last key of each list is the greatest, so the two agree
        let i = choose|i: int| 0 <= i < b.len() && field_value(#[trigger] b[i], f) == ka;
        let j = choose|j: int| 0 <= j < a.len() && field_value(#[trigger] a[j], f) == kb;
        if i < b.len() - 1 {
            assert(!before(kb, field_value(b[i], f), asc));
        }
        if j < a.len() - 1 {
            assert(!before(ka, field_value(a[j], f), asc));
        }
        lemma_before_order(ka, kb, ka, asc);
        assert(ka == kb);
        assert(with_key(a, f, ka) == with_key(a.drop_last(), f, ka).push(a.last()));
        assert(with_key(b, f, ka) == with_key(b.drop_last(), f, ka).push(b.last()));
        assert(a.last() == with_key(a, f, ka).last());
        assert(a.last() == b.last());
        assert forall|v: Seq<char>| #[trigger] with_key(a.drop_last(), f, v) == with_key(b.drop_last(), f, v) by {
            assert(with_key(a, f, v) == with_key(b, f, v));
            if v == ka {
                assert(with_key(a.drop_last(), f, v) =~= with_key(a, f, v).drop_last());
                assert(with_key(b.drop_last(), f, v) =~= with_key(b, f, v).drop_last());
            }
        }
        assert(sorted_by(a.drop_last(), f, asc)) by {
            assert forall|p: int, q: int| 0 <= p < q < a.drop_last().len() implies !before(
                field_value(#[trigger] a.drop_last()[q], f),
                field_value(#[trigger] a.drop_last()[p], f),
                asc,
            ) by {
                assert(a.drop_last()[q] == a[q] && a.drop_last()[p] == a[p]);
            }
        }
        assert(sorted_by(b.drop_last(), f, asc)) by {
            assert forall|p: int, q: int| 0 <= p < q < b.drop_last().len() implies !before(
                field_value(#[trigger] b.drop_last()[q], f),
                field_value(#[trigger] b.drop_last()[p], f),
                asc,
            ) by {
                assert(b.drop_last()[q] == b[q] && b.drop_last()[p] == b[p]);
            }
        }
        lemma_stable_sort_unique(a.drop_last(), b.drop_last(), f, asc);
        assert(a =~= a.drop_last().push(a.last()));
        assert(b =~= b.drop_last().push(b.last()));
    }
}

proof fn lemma_with_key_reverse(s: Seq<InfoView>, f: Field, v: Seq<char>)
    ensures
        with_key(s.reverse(), f, v) == with_key(s, f, v).reverse(),
    decreases s.len(),
{
    if s.len() > 0 {
        lemma_with_key_reverse(s.drop_last(), f, v);
        let x = s.last();
        assert(s.reverse() =~= seq![x] + s.drop_last().reverse());
        crate::order::lemma_with_key_append(seq![x], s.drop_last().reverse(), f, v);
        crate::order::lemma_with_key_single(x, f, v);
        let w = with_key(s.drop_last(), f, v);
        if field_value(x, f) == v {
            assert(w.push(x).reverse() =~= seq![x] + w.reverse());
        } else {
            assert(Seq::<InfoView>::empty() + w.reverse() =~= w.reverse());
        }
    }
}

/// Sorting ascending and then descending by the same key, where no two
/// records share a value of it, gives exactly the reverse of the ascending order.
pub proof fn lemma_sort_up_then_down(
    s: Seq<InfoView>,
    up: Seq<InfoView>,
    down: Seq<InfoView>,
    f: Field,
)
    requires
        forall|v: Seq<char>| (#[trigger] with_key(s, f, v)).len() <= 1,
        stable_sorted(up, s, f, true),
        stable_sorted(down, up, f, false),
    ensures
        down == up.reverse(),
{
    let rev = up.reverse();
    assert(sorted_by(rev, f, false)) by {
        assert forall|p: int, q: int| 0 <= p < q < rev.len() implies !before(
            field_value(#[trigger] rev[q], f),
            field_value(#[trigger] rev[p], f),
            false,
        ) by {
            assert(rev[q] == up[up.len() - 1 - q]);
            assert(rev[p] == up[up.len() - 1 - p]);
            assert(!before(field_value(up[up.len() - 1 - p], f), field_value(up[up.len() - 1 - q], f), true));
        }
    }
    assert forall|v: Seq<char>| #[trigger] with_key(rev, f, v) == with_key(up, f, v) by {
        lemma_with_key_reverse(up, f, v);
        assert(with_key(up, f, v) == with_key(s, f, v));
        let w = with_key(up, f, v);
        assert(w.reverse() =~= w);
    }
    assert forall|v: Seq<char>| #[trigger] with_key(down, f, v) == with_key(rev, f, v) by {
        assert(with_key(down, f, v) == with_key(up, f, v));
    }
    lemma_stable_sort_unique(down, rev, f, false);
}

} // verus!
