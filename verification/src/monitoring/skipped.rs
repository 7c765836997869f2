//! The packets that a receiver skipped, by media time: a list kept in ascending order of
//! media time, with one sequence number per media time (a map from media time to sequence
//! number).

use crate::formats::Frames;
use vstd::prelude::*;

verus! {

/// Media times strictly ascend, so that each occurs once.
pub open spec fn keys_ascending(s: Seq<(Frames, u16)>) -> bool {
    forall|i: int, j: int| 0 <= i < j < s.len() ==> s[i].0 < s[j].0
}

/// Whether the list holds the entry `(k, v)`.
pub open spec fn has_entry(s: Seq<(Frames, u16)>, k: Frames, v: u16) -> bool {
    exists|i: int| 0 <= i < s.len() && s[i] == (k, v)
}

/// The index of the first entry whose media time is at least `k`.
fn lower_bound(v: &Vec<(Frames, u16)>, k: Frames) -> (p: usize)
    requires
        keys_ascending(v@),
    ensures
        p <= v@.len(),
        forall|i: int| 0 <= i < p ==> v@[i].0 < k,
        forall|i: int| p <= i < v@.len() ==> v@[i].0 >= k,
{
    let mut p: usize = 0;
    while p < v.len() && v[p].0 < k
        invariant
            keys_ascending(v@),
            p <= v@.len(),
            forall|i: int| 0 <= i < p ==> v@[i].0 < k,
        decreases v@.len() - p,
    {
        p = p + 1;
    }
    p
}

/// The index of the first entry whose media time is above `t`.
pub(crate) fn upper_bound(v: &Vec<(Frames, u16)>, t: Frames) -> (p: usize)
    requires
        keys_ascending(v@),
    ensures
        p <= v@.len(),
        forall|i: int| 0 <= i < p ==> v@[i].0 <= t,
        forall|i: int| p <= i < v@.len() ==> v@[i].0 > t,
{
    let mut p: usize = 0;
    while p < v.len() && v[p].0 <= t
        invariant
            keys_ascending(v@),
            p <= v@.len(),
            forall|i: int| 0 <= i < p ==> v@[i].0 <= t,
        decreases v@.len() - p,
    {
        p = p + 1;
    }
    p
}

/// Records that the packet with sequence number `seq` was skipped at media time `k`,
/// replacing what was recorded for `k` before.
pub fn insert_skipped(v: &mut Vec<(Frames, u16)>, k: Frames, number: u16)
    requires
        keys_ascending(old(v)@),
    ensures
        keys_ascending(final(v)@),
        forall|kk: Frames, vv: u16|
            #![trigger has_entry(final(v)@, kk, vv)]
            has_entry(final(v)@, kk, vv) <==> ((kk == k && vv == number) || (kk != k && has_entry(
                old(v)@,
                kk,
                vv,
            ))),
{
    let p = lower_bound(v, k);
    let ghost o = v@;
    let found = p < v.len() && v[p].0 == k;
    if found {
        v.remove(p);
        v.insert(p, (k, number));
        assert(v@ =~= o.update(p as int, (k, number)));
    } else {
        v.insert(p, (k, number));
    }
    assert forall|kk: Frames, vv: u16|
        #![trigger has_entry(v@, kk, vv)]
        has_entry(v@, kk, vv) <==> ((kk == k && vv == number) || (kk != k && has_entry(
            o,
            kk,
            vv,
        ))) by {
        if found {
            if has_entry(v@, kk, vv) {
                let i = choose|i: int| 0 <= i < v@.len() && v@[i] == (kk, vv);
                if i != p {
                    assert(o[i] == (kk, vv));
                    assert(o[i].0 != o[p as int].0);
                }
            }
            if kk != k && has_entry(o, kk, vv) {
                let i = choose|i: int| 0 <= i < o.len() && o[i] == (kk, vv);
                assert(i != p);
                assert(v@[i] == (kk, vv));
            }
        } else {
            if has_entry(v@, kk, vv) {
                let i = choose|i: int| 0 <= i < v@.len() && v@[i] == (kk, vv);
                if i < p {
                    assert(o[i] == (kk, vv));
                    assert(o[i].0 < k);
                } else if i > p {
                    assert(o[i - 1] == (kk, vv));
                    assert(o[p as int].0 >= k && o[p as int].0 != k);
                    assert(o[i - 1].0 >= o[p as int].0);
                }
            }
            if kk != k && has_entry(o, kk, vv) {
                let i = choose|i: int| 0 <= i < o.len() && o[i] == (kk, vv);
                if i < p {
                    assert(v@[i] == (kk, vv));
                } else {
                    assert(v@[i + 1] == (kk, vv));
                }
            }
        }
        if kk == k && vv == number {
            assert(v@[p as int] == (kk, vv));
        }
    }
}

/// Forgets what was recorded for media time `k`.
pub fn remove_skipped(v: &mut Vec<(Frames, u16)>, k: Frames)
    requires
        keys_ascending(old(v)@),
    ensures
        keys_ascending(final(v)@),
        forall|kk: Frames, vv: u16|
            has_entry(final(v)@, kk, vv) <==> (kk != k && has_entry(old(v)@, kk, vv)),
{
    let p = lower_bound(v, k);
    let ghost o = v@;
    if p < v.len() && v[p].0 == k {
        v.remove(p);
        assert forall|kk: Frames, vv: u16|
            has_entry(v@, kk, vv) <==> (kk != k && has_entry(o, kk, vv)) by {
            if has_entry(v@, kk, vv) {
                let i = choose|i: int| 0 <= i < v@.len() && v@[i] == (kk, vv);
                if i < p {
                    assert(o[i] == (kk, vv));
                } else {
                    assert(o[i + 1] == (kk, vv));
                }
            }
            if kk != k && has_entry(o, kk, vv) {
                let i = choose|i: int| 0 <= i < o.len() && o[i] == (kk, vv);
                if i < p {
                    assert(v@[i] == (kk, vv));
                } else {
                    assert(v@[i - 1] == (kk, vv));
                }
            }
        }
    } else {
        assert forall|kk: Frames, vv: u16|
            has_entry(v@, kk, vv) <==> (kk != k && has_entry(o, kk, vv)) by {
            if has_entry(o, kk, vv) {
                let i = choose|i: int| 0 <= i < o.len() && o[i] == (kk, vv);
                assert(kk != k);
            }
        }
    }
}

/// Takes out the entries whose media time is after `t`, in ascending order; those up to
/// `t` stay.
pub fn take_after(v: &mut Vec<(Frames, u16)>, t: Frames) -> (r: Vec<(Frames, u16)>)
    requires
        keys_ascending(old(v)@),
    ensures
        old(v)@ == final(v)@ + r@,
        forall|i: int| 0 <= i < final(v)@.len() ==> final(v)@[i].0 <= t,
        forall|i: int| 0 <= i < r@.len() ==> r@[i].0 > t,
        keys_ascending(final(v)@),
        keys_ascending(r@),
{
    let p = upper_bound(v, t);
    let ghost o = v@;
    let r = v.split_off(p);
    assert(o =~= v@ + r@);
    r
}

/// Two lists ordered by media time that hold the same entries are the same list.
pub proof fn lemma_same_entries_same_list(a: Seq<(Frames, u16)>, b: Seq<(Frames, u16)>)
    requires
        keys_ascending(a),
        keys_ascending(b),
        forall|k: Frames, v: u16| has_entry(a, k, v) <==> has_entry(b, k, v),
    ensures
        a == b,
    decreases a.len(),
{
    if a.len() == 0 {
        if b.len() > 0 {
            assert(has_entry(b, b[0].0, b[0].1));
        }
        assert(a =~= b);
    } else {
        assert(has_entry(a, a[0].0, a[0].1));
        assert(has_entry(b, a[0].0, a[0].1));
        let j = choose|j: int| 0 <= j < b.len() && b[j] == (a[0].0, a[0].1);
        assert(has_entry(b, b[0].0, b[0].1));
        assert(has_entry(a, b[0].0, b[0].1));
        let i = choose|i: int| 0 <= i < a.len() && a[i] == (b[0].0, b[0].1);
        assert(a[0].0 <= a[i].0);
        assert(b[0].0 <= b[j].0);
        assert(i == 0 && j == 0);
        let ra = a.drop_first();
        let rb = b.drop_first();
        assert forall|k: Frames, v: u16| has_entry(ra, k, v) <==> has_entry(rb, k, v) by {
            if has_entry(ra, k, v) {
                let x = choose|x: int| 0 <= x < ra.len() && ra[x] == (k, v);
                assert(a[x + 1] == (k, v));
                assert(has_entry(b, k, v));
                let y = choose|y: int| 0 <= y < b.len() && b[y] == (k, v);
                assert(a[0].0 < a[x + 1].0);
                assert(y != 0);
                assert(rb[y - 1] == (k, v));
            }
            if has_entry(rb, k, v) {
                let y = choose|y: int| 0 <= y < rb.len() && rb[y] == (k, v);
                assert(b[y + 1] == (k, v));
                assert(has_entry(a, k, v));
                let x = choose|x: int| 0 <= x < a.len() && a[x] == (k, v);
                assert(b[0].0 < b[y + 1].0);
                assert(x != 0);
                assert(ra[x - 1] == (k, v));
            }
        }
        lemma_same_entries_same_list(ra, rb);
        assert(a[0] == b[0]);
        assert forall|x: int| 0 <= x < a.len() implies a[x] == b[x] by {
            if x > 0 {
                assert(a[x] == ra[x - 1]);
                assert(b[x] == rb[x - 1]);
            }
        }
        assert(a =~= b);
    }
}

/// Forgetting a packet undoes recording it: recording a packet skipped at a media time that
/// held nothing, then forgetting that media time, gives back the list there was.
pub proof fn lemma_remove_undoes_insert(
    s0: Seq<(Frames, u16)>,
    s1: Seq<(Frames, u16)>,
    s2: Seq<(Frames, u16)>,
    k: Frames,
    seq: u16,
)
    requires
        keys_ascending(s0),
        keys_ascending(s1),
        keys_ascending(s2),
        forall|vv: u16| !has_entry(s0, k, vv),
        forall|kk: Frames, vv: u16|
            #![trigger has_entry(s1, kk, vv)]
            has_entry(s1, kk, vv) <==> ((kk == k && vv == seq) || (kk != k && has_entry(
                s0,
                kk,
                vv,
            ))),
        forall|kk: Frames, vv: u16|
            #![trigger has_entry(s2, kk, vv)]
            has_entry(s2, kk, vv) <==> (kk != k && has_entry(s1, kk, vv)),
    ensures
        s2 == s0,
{
    assert forall|kk: Frames, vv: u16| has_entry(s2, kk, vv) <==> has_entry(s0, kk, vv) by {
        assert(has_entry(s2, kk, vv) <==> (kk != k && has_entry(s1, kk, vv)));
        assert(has_entry(s1, kk, vv) <==> ((kk == k && vv == seq) || (kk != k && has_entry(
            s0,
            kk,
            vv,
        ))));
        if kk == k {
            assert(!has_entry(s0, k, vv));
        }
    }
    lemma_same_entries_same_list(s2, s0);
}

} // verus!
