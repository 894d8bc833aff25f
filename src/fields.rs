//! Cutting a byte string into colon-delimited fields, and joining them back.

use vstd::prelude::*;

verus! {

/// The separator between two fields of an envelope (`:`).
pub const SEPARATOR: u8 = 58;

/// `b` cut at every separator, left to right: one field more than there are
/// separators in `b`.
pub open spec fn split_fields(b: Seq<u8>) -> Seq<Seq<u8>>
    decreases b.len(),
{
    if b.len() == 0 {
        seq![Seq::empty()]
    } else {
        let rest = split_fields(b.drop_last());
        if b.last() == SEPARATOR {
            rest.push(Seq::empty())
        } else {
            rest.update(rest.len() - 1, rest.last().push(b.last()))
        }
    }
}

/// The fields written one after the other, with a separator between each two.
pub open spec fn join_fields(fs: Seq<Seq<u8>>) -> Seq<u8>
    decreases fs.len(),
{
    if fs.len() == 0 {
        Seq::empty()
    } else if fs.len() == 1 {
        fs[0]
    } else {
        join_fields(fs.drop_last()) + seq![SEPARATOR] + fs.last()
    }
}

/// No field holds a separator.
pub open spec fn separator_free(fs: Seq<Seq<u8>>) -> bool {
    forall|i: int| 0 <= i < fs.len() ==> !(#[trigger] fs[i]).contains(SEPARATOR)
}

pub proof fn lemma_split_nonempty(b: Seq<u8>)
    ensures
        split_fields(b).len() >= 1,
    decreases b.len(),
{
    if b.len() > 0 {
        lemma_split_nonempty(b.drop_last());
    }
}

/// Appending bytes without a separator only lengthens the last field.
pub proof fn lemma_split_append_plain(x: Seq<u8>, y: Seq<u8>)
    requires
        !y.contains(SEPARATOR),
    ensures
        split_fields(x + y) == split_fields(x).update(
            split_fields(x).len() - 1,
            split_fields(x).last() + y,
        ),
    decreases y.len(),
{
    lemma_split_nonempty(x);
    if y.len() == 0 {
        assert(x + y =~= x);
        assert(split_fields(x).last() + y =~= split_fields(x).last());
        assert(split_fields(x).update(split_fields(x).len() - 1, split_fields(x).last())
            =~= split_fields(x));
    } else {
        let y0 = y.drop_last();
        assert(!y0.contains(SEPARATOR)) by {
            if y0.contains(SEPARATOR) {
                let k = choose|k: int| 0 <= k < y0.len() && y0[k] == SEPARATOR;
                assert(y[k] == SEPARATOR);
            }
        }
        assert(y.last() != SEPARATOR) by {
            assert(y[y.len() - 1] == y.last());
        }
        lemma_split_append_plain(x, y0);
        assert((x + y).drop_last() =~= x + y0);
        assert((x + y).last() == y.last());
        lemma_split_nonempty(x + y0);
        let s = split_fields(x);
        let rest = split_fields(x + y0);
        assert(rest == s.update(s.len() - 1, s.last() + y0));
        assert(rest.len() == s.len());
        assert(rest.last() == s.last() + y0);
        assert(split_fields(x + y) == rest.update(rest.len() - 1, rest.last().push(y.last())));
        assert(s.last() + y0 + seq![y.last()] =~= s.last() + y);
        assert(rest.last().push(y.last()) =~= s.last() + y);
        assert(split_fields(x + y) =~= s.update(s.len() - 1, s.last() + y));
    }
}

/// Splitting undoes joining, when no field holds a separator.
pub proof fn lemma_split_join(fs: Seq<Seq<u8>>)
    requires
        fs.len() >= 1,
        separator_free(fs),
    ensures
        split_fields(join_fields(fs)) == fs,
    decreases fs.len(),
{
    if fs.len() == 1 {
        let e = Seq::<u8>::empty();
        assert(!fs[0].contains(SEPARATOR));
        lemma_split_append_plain(e, fs[0]);
        assert(e + fs[0] =~= fs[0]);
        assert(split_fields(e) == seq![e]);
        assert(split_fields(join_fields(fs)) =~= fs);
    } else {
        let init = fs.drop_last();
        assert(separator_free(init)) by {
            assert forall|i: int| 0 <= i < init.len() implies !(#[trigger] init[i]).contains(
                SEPARATOR,
            ) by {
                assert(init[i] == fs[i]);
            }
        }
        lemma_split_join(init);
        let j = join_fields(init);
        let js = j.push(SEPARATOR);
        assert(js.drop_last() =~= j);
        assert(split_fields(js) == init.push(Seq::empty()));
        assert(!fs.last().contains(SEPARATOR)) by {
            assert(fs[fs.len() - 1] == fs.last());
        }
        lemma_split_append_plain(js, fs.last());
        assert(j + seq![SEPARATOR] + fs.last() =~= js + fs.last());
        assert(Seq::<u8>::empty() + fs.last() =~= fs.last());
        assert(split_fields(join_fields(fs)) =~= fs);
    }
}

/// Once `x` holds a separator, what follows cannot change its first field.
pub proof fn lemma_split_first_stable(x: Seq<u8>, y: Seq<u8>)
    requires
        split_fields(x).len() >= 2,
    ensures
        split_fields(x + y).len() >= 2,
        split_fields(x + y)[0] == split_fields(x)[0],
    decreases y.len(),
{
    if y.len() == 0 {
        assert(x + y =~= x);
    } else {
        let y0 = y.drop_last();
        lemma_split_first_stable(x, y0);
        assert((x + y).drop_last() =~= x + y0);
    }
}

/// The first field of `b` ends at its first separator, or at its end.
pub proof fn lemma_first_field(b: Seq<u8>, i: int)
    requires
        0 <= i <= b.len(),
        forall|j: int| 0 <= j < i ==> b[j] != SEPARATOR,
        i == b.len() || b[i] == SEPARATOR,
    ensures
        split_fields(b)[0] == b.take(i),
{
    let e = Seq::<u8>::empty();
    let t = b.take(i);
    assert(!t.contains(SEPARATOR));
    lemma_split_append_plain(e, t);
    assert(e + t =~= t);
    assert(split_fields(t)[0] == t);
    if i == b.len() {
        assert(t =~= b);
    } else {
        let t1 = b.take(i + 1);
        assert(t1.drop_last() =~= t);
        assert(split_fields(t1).len() >= 2);
        lemma_split_first_stable(t1, b.skip(i + 1));
        assert(t1 + b.skip(i + 1) =~= b);
    }
}

/// What a list of byte vectors holds.
pub open spec fn views_of(v: Seq<Vec<u8>>) -> Seq<Seq<u8>> {
    Seq::new(v.len(), |k: int| v[k]@)
}

/// The fields of `b`.
pub fn split_at_separators(b: &[u8]) -> (r: Vec<Vec<u8>>)
    ensures
        views_of(r@) == split_fields(b@),
{
    let mut done: Vec<Vec<u8>> = Vec::new();
    let mut cur: Vec<u8> = Vec::new();
    let mut i: usize = 0;
    while i < b.len()
        invariant
            0 <= i <= b.len(),
            views_of(done@).push(cur@) == split_fields(b@.take(i as int)),
        decreases b.len() - i,
    {
        let c = b[i];
        proof {
            lemma_split_nonempty(b@.take(i as int));
            assert(b@.take(i + 1).drop_last() =~= b@.take(i as int));
            assert(b@.take(i + 1).last() == c);
        }
        if c == SEPARATOR {
            let ghost before = views_of(done@).push(cur@);
            done.push(cur);
            cur = Vec::new();
            proof {
                assert(views_of(done@) =~= before);
                assert(views_of(done@).push(cur@) =~= split_fields(b@.take(i + 1)));
            }
        } else {
            let ghost before = views_of(done@).push(cur@);
            cur.push(c);
            proof {
                assert(views_of(done@).push(cur@) =~= split_fields(b@.take(i + 1)));
            }
        }
        i = i + 1;
    }
    assert(b@.take(b@.len() as int) =~= b@);
    let ghost before = views_of(done@).push(cur@);
    done.push(cur);
    assert(views_of(done@) =~= before);
    done
}

} // verus!
