//! Mixing of rendered 8-bit waveforms into one.
use vstd::prelude::*;

verus! {

/// Sum, at sample `i`, of the samples of every waveform long enough to have one.
pub open spec fn mix_at(ws: Seq<Vec<u8>>, i: int) -> int
    decreases ws.len(),
{
    if ws.len() == 0 {
        0
    } else {
        mix_at(ws.drop_last(), i) + (if 0 <= i < ws.last()@.len() {
            ws.last()@[i] as int
        } else {
            0
        })
    }
}

/// Every waveform is at most `n` samples long.
pub open spec fn all_at_most(ws: Seq<Vec<u8>>, n: int) -> bool {
    forall|k: int| 0 <= k < ws.len() ==> #[trigger] ws[k]@.len() <= n
}

/// Waveforms are ordered from the longest to the shortest.
pub open spec fn longest_first(ws: Seq<Vec<u8>>) -> bool {
    forall|i: int, j: int| 0 <= i <= j < ws.len() ==> #[trigger] ws[i]@.len() >= #[trigger] ws[j]@.len()
}

/// The mix of the waveforms never leaves the range of a byte.
pub open spec fn mix_fits_in_byte(ws: Seq<Vec<u8>>) -> bool {
    forall|i: int| #[trigger] mix_at(ws, i) <= 255
}

proof fn lemma_mix_nonneg(ws: Seq<Vec<u8>>, i: int)
    ensures
        mix_at(ws, i) >= 0,
    decreases ws.len(),
{
    if ws.len() > 0 {
        lemma_mix_nonneg(ws.drop_last(), i);
    }
}

/// A prefix of the waveforms mixes to no more than all of them.
proof fn lemma_mix_prefix_le(ws: Seq<Vec<u8>>, k: int, i: int)
    requires
        0 <= k <= ws.len(),
    ensures
        mix_at(ws.take(k), i) <= mix_at(ws, i),
    decreases ws.len(),
{
    if k < ws.len() {
        lemma_mix_prefix_le(ws.drop_last(), k, i);
        assert(ws.drop_last().take(k) =~= ws.take(k));
    } else {
        assert(ws.take(k) =~= ws);
    }
}

/// Removing one waveform takes exactly its own sample out of the mix.
proof fn lemma_mix_remove(ws: Seq<Vec<u8>>, j: int, i: int)
    requires
        0 <= j < ws.len(),
    ensures
        mix_at(ws, i) == mix_at(ws.remove(j), i) + (if 0 <= i < ws[j]@.len() {
            ws[j]@[i] as int
        } else {
            0
        }),
    decreases ws.len(),
{
    if j == ws.len() - 1 {
        assert(ws.remove(j) =~= ws.drop_last());
    } else {
        lemma_mix_remove(ws.drop_last(), j, i);
        assert(ws.remove(j).drop_last() =~= ws.drop_last().remove(j));
        assert(ws.remove(j).last() == ws.last());
    }
}

/// The mix does not depend on the order of the waveforms: two collections
/// holding the same waveforms, in any order, mix to the same samples.
pub proof fn lemma_mix_permutation(a: Seq<Vec<u8>>, b: Seq<Vec<u8>>, i: int)
    requires
        a.to_multiset() =~= b.to_multiset(),
    ensures
        mix_at(a, i) == mix_at(b, i),
    decreases a.len(),
{
    broadcast use vstd::seq_lib::group_to_multiset_ensures;
    if a.len() == 0 {
        assert(b.to_multiset().len() == 0);
        assert(b.len() == 0);
    } else {
        let x = a.last();
        assert(a.drop_last().push(x) =~= a);
        assert(a.to_multiset().count(x) > 0);
        assert(b.to_multiset().count(x) > 0);
        assert(b.contains(x));
        let j = choose|j: int| 0 <= j < b.len() && b[j] == x;
        assert(b.remove(j).to_multiset() =~= b.to_multiset().remove(x));
        assert(a.drop_last().to_multiset() =~= a.to_multiset().remove(x));
        lemma_mix_permutation(a.drop_last(), b.remove(j), i);
        lemma_mix_remove(b, j, i);
    }
}

/// Every waveform in a permutation has its counterpart, so a length bound carries over.
proof fn lemma_all_at_most_permutation(a: Seq<Vec<u8>>, b: Seq<Vec<u8>>, n: int)
    requires
        a.to_multiset() =~= b.to_multiset(),
        all_at_most(a, n),
    ensures
        all_at_most(b, n),
{
    broadcast use vstd::seq_lib::group_to_multiset_ensures;
    assert forall|k: int| 0 <= k < b.len() implies #[trigger] b[k]@.len() <= n by {
        assert(b.contains(b[k]));
        assert(b.to_multiset().count(b[k]) > 0);
        assert(a.contains(b[k]));
    }
}

/// Inserting an element anywhere adds it once to the multiset.
proof fn lemma_insert_multiset<A>(s: Seq<A>, k: int, x: A)
    requires
        0 <= k <= s.len(),
    ensures
        s.insert(k, x).to_multiset() =~= s.to_multiset().insert(x),
{
    broadcast use vstd::seq_lib::group_to_multiset_ensures;
    let t = s.insert(k, x);
    assert(t.remove(k) =~= s);
    assert(t[k] == x);
    assert(t.contains(x));
    assert(t.to_multiset().count(x) > 0);
}

/// Add `b` sample by sample into `a`; `a` is at least as long as `b`, or only
/// the samples that both have are added.
pub fn sum_vec(a: &mut Vec<u8>, b: &[u8])
    requires
        forall|i: int|
            0 <= i < old(a)@.len() && i < b@.len() ==> old(a)@[i] + #[trigger] b@[i] <= 255,
    ensures
        final(a)@.len() == old(a)@.len(),
        forall|i: int|
            0 <= i < old(a)@.len() ==> #[trigger] final(a)@[i] == (if i < b@.len() {
                (old(a)@[i] + b@[i]) as u8
            } else {
                old(a)@[i]
            }),
{
    let n = if a.len() < b.len() {
        a.len()
    } else {
        b.len()
    };
    let mut i: usize = 0;
    while i < n
        invariant
            n <= a@.len(),
            n <= b@.len(),
            n == old(a)@.len() || n == b@.len(),
            i <= n,
            a@.len() == old(a)@.len(),
            forall|j: int| 0 <= j < old(a)@.len() && j < b@.len() ==> old(a)@[j] + #[trigger] b@[j] <= 255,
            forall|j: int| 0 <= j < i ==> #[trigger] a@[j] == (old(a)@[j] + b@[j]) as u8,
            forall|j: int| i <= j < a@.len() ==> #[trigger] a@[j] == old(a)@[j],
        decreases n - i,
    {
        let s = a[i] + b[i];
        a.set(i, s);
        i = i + 1;
    }
}

/// Order waveforms from the longest to the shortest. Waveforms of equal
/// length may come in any order.
pub fn sort_vecs(vec_wav: &mut Vec<Vec<u8>>)
    ensures
        final(vec_wav)@.to_multiset() =~= old(vec_wav)@.to_multiset(),
        longest_first(final(vec_wav)@),
{
    broadcast use vstd::seq_lib::group_to_multiset_ensures;
    let mut sorted: Vec<Vec<u8>> = Vec::new();
    while vec_wav.len() > 0
        invariant
            vec_wav@.to_multiset().add(sorted@.to_multiset()) =~= old(vec_wav)@.to_multiset(),
            longest_first(sorted@),
        decreases vec_wav.len(),
    {
        let ghost before = vec_wav@;
        let w = vec_wav.pop().unwrap();
        proof {
            assert(vec_wav@.push(w) =~= before);
            vec_wav@.to_multiset_ensures();
            assert(before.to_multiset() =~= vec_wav@.to_multiset().insert(w));
        }
        let mut k: usize = 0;
        while k < sorted.len() && sorted[k].len() >= w.len()
            invariant
                k <= sorted@.len(),
                forall|j: int| 0 <= j < k ==> #[trigger] sorted@[j]@.len() >= w@.len(),
            decreases sorted.len() - k,
        {
            k = k + 1;
        }
        let ghost prev = sorted@;
        proof {
            lemma_insert_multiset(prev, k as int, w);
        }
        sorted.insert(k, w);
        proof {
            assert(sorted@.to_multiset() =~= prev.to_multiset().insert(w));
            assert forall|i: int, j: int| 0 <= i <= j < sorted@.len() implies #[trigger] sorted@[i]@.len()
                >= #[trigger] sorted@[j]@.len() by {
                if k < prev.len() {
                    assert(prev[k as int]@.len() < w@.len());
                }
                if i < k && j > k {
                    assert(prev[i]@.len() >= prev[j - 1]@.len());
                } else if i > k {
                    assert(prev[i - 1]@.len() >= prev[j - 1]@.len());
                } else if i < k && j < k {
                    assert(prev[i]@.len() >= prev[j]@.len());
                } else if i == k && j > k {
                    assert(prev[k as int]@.len() >= prev[j - 1]@.len());
                }
            }
        }
    }
    *vec_wav = sorted;
}

/// Mix waveforms into one: the result is as long as the longest waveform, and
/// each of its samples is the sum of the samples of every waveform at that point.
pub fn sum_all_waveforms(vec_wav: Vec<Vec<u8>>) -> (result: Vec<u8>)
    requires
        vec_wav@.len() > 0,
        mix_fits_in_byte(vec_wav@),
    ensures
        all_at_most(vec_wav@, result@.len() as int),
        exists|k: int| 0 <= k < vec_wav@.len() && #[trigger] vec_wav@[k]@.len() == result@.len(),
        forall|i: int| 0 <= i < result@.len() ==> #[trigger] result@[i] == mix_at(vec_wav@, i),
{
    let ghost original = vec_wav@;
    let mut vec_wav = vec_wav;
    sort_vecs(&mut vec_wav);
    let ghost sorted = vec_wav@;
    proof {
        broadcast use vstd::seq_lib::group_to_multiset_ensures;
        assert(sorted.to_multiset().len() == original.to_multiset().len());
        assert(sorted.len() == original.len());
        assert forall|i: int| #[trigger] mix_at(sorted, i) <= 255 by {
            lemma_mix_permutation(original, sorted, i);
            assert(mix_at(original, i) <= 255);
        }
    }
    let max_len = vec_wav[0].len();
    let mut result: Vec<u8> = Vec::new();
    let mut z: usize = 0;
    while z < max_len
        invariant
            z <= max_len,
            result@.len() == z,
            forall|j: int| 0 <= j < z ==> #[trigger] result@[j] == 0,
        decreases max_len - z,
    {
        result.push(0);
        z = z + 1;
    }
    let mut k: usize = 0;
    while k < vec_wav.len()
        invariant
            vec_wav@ == sorted,
            k <= sorted.len(),
            result@.len() == max_len,
            max_len == sorted[0]@.len(),
            longest_first(sorted),
            forall|i: int| #[trigger] mix_at(sorted, i) <= 255,
            forall|i: int| 0 <= i < max_len ==> #[trigger] result@[i] == mix_at(sorted.take(k as int), i),
        decreases sorted.len() - k,
    {
        proof {
            assert(sorted.take(k + 1).drop_last() =~= sorted.take(k as int));
            assert(sorted.take(k + 1).last() == sorted[k as int]);
            assert(sorted[0]@.len() >= sorted[k as int]@.len());
            assert forall|i: int| 0 <= i < max_len && i < sorted[k as int]@.len() implies result@[i]
                + #[trigger] sorted[k as int]@[i] <= 255 by {
                lemma_mix_prefix_le(sorted, k + 1, i);
                lemma_mix_nonneg(sorted.take(k as int), i);
            }
        }
        sum_vec(&mut result, vec_wav[k].as_slice());
        k = k + 1;
    }
    proof {
        assert(sorted.take(sorted.len() as int) =~= sorted);
        assert forall|i: int| 0 <= i < result@.len() implies #[trigger] result@[i] == mix_at(original, i) by {
            lemma_mix_permutation(original, sorted, i);
        }
        broadcast use vstd::seq_lib::group_to_multiset_ensures;
        assert(all_at_most(sorted, max_len as int));
        assert(sorted.to_multiset() =~= original.to_multiset());
        lemma_all_at_most_permutation(sorted, original, max_len as int);
        assert(sorted.contains(sorted[0]));
        assert(original.to_multiset().count(sorted[0]) > 0);
        assert(original.contains(sorted[0]));
        let kk = choose|kk: int| 0 <= kk < original.len() && original[kk] == sorted[0];
        assert(original[kk]@.len() == result@.len());
    }
    result
}

/// The sample `i` of the mix of the waveforms, computed.
fn mix_sample(vec_wav: &Vec<Vec<u8>>, i: usize) -> (sum: u128)
    ensures
        sum == mix_at(vec_wav@, i as int),
{
    let n: usize = vec_wav.len();
    let mut sum: u128 = 0;
    let mut k: usize = 0;
    while k < n
        invariant
            n == vec_wav@.len(),
            k <= n,
            sum == mix_at(vec_wav@.take(k as int), i as int),
            sum <= 255 * k,
        decreases n - k,
    {
        proof {
            assert(vec_wav@.take(k + 1).drop_last() =~= vec_wav@.take(k as int));
            assert(vec_wav@.take(k + 1).last() == vec_wav@[k as int]);
        }
        if i < vec_wav[k].len() {
            sum = sum + vec_wav[k][i] as u128;
        }
        k = k + 1;
    }
    proof {
        assert(vec_wav@.take(k as int) =~= vec_wav@);
    }
    sum
}

/// A mix of waveforms is silent outside the longest of them.
proof fn lemma_mix_past_end(ws: Seq<Vec<u8>>, n: int, i: int)
    requires
        all_at_most(ws, n),
        i >= n || i < 0,
    ensures
        mix_at(ws, i) == 0,
    decreases ws.len(),
{
    if ws.len() > 0 {
        assert(ws.drop_last().len() < ws.len());
        assert forall|k: int| 0 <= k < ws.drop_last().len() implies #[trigger] ws.drop_last()[k]@.len() <= n by {
            assert(ws.drop_last()[k] == ws[k]);
        }
        lemma_mix_past_end(ws.drop_last(), n, i);
        assert(ws.last() == ws[ws.len() - 1]);
    }
}

/// Whether the waveforms can be mixed without a sample leaving the range of a byte.
pub fn waveforms_mix_in_range(vec_wav: &Vec<Vec<u8>>) -> (ok: bool)
    ensures
        ok == mix_fits_in_byte(vec_wav@),
{
    let mut longest: usize = 0;
    let mut k: usize = 0;
    while k < vec_wav.len()
        invariant
            k <= vec_wav@.len(),
            all_at_most(vec_wav@.take(k as int), longest as int),
        decreases vec_wav@.len() - k,
    {
        if vec_wav[k].len() > longest {
            longest = vec_wav[k].len();
        }
        proof {
            assert forall|j: int| 0 <= j < k + 1 implies #[trigger] vec_wav@.take(k + 1)[j]@.len() <= longest by {
                if j < k {
                    assert(vec_wav@.take(k as int)[j] == vec_wav@[j]);
                }
            }
        }
        k = k + 1;
    }
    proof {
        assert(vec_wav@.take(k as int) =~= vec_wav@);
    }
    let mut i: usize = 0;
    while i < longest
        invariant
            i <= longest,
            all_at_most(vec_wav@, longest as int),
            forall|j: int| 0 <= j < i ==> #[trigger] mix_at(vec_wav@, j) <= 255,
        decreases longest - i,
    {
        if mix_sample(vec_wav, i) > 255 {
            return false;
        }
        i = i + 1;
    }
    proof {
        assert forall|j: int| #[trigger] mix_at(vec_wav@, j) <= 255 by {
            if j >= longest || j < 0 {
                lemma_mix_past_end(vec_wav@, longest as int, j);
            }
        }
    }
    true
}

} // verus!
