//! Table cipher: a password-seeded byte permutation.
//!
//! The encrypt table is the sequence `0..=255` sorted, over 1023 rounds, by
//! the round's comparator key; encryption is byte-wise lookup and decryption
//! is lookup in the inverse permutation.

use vstd::prelude::*;
use crate::crypto::CryptoMode;

verus! {

/// The comparator key of sort round `r` for table entry `x`.
pub open spec fn spec_sort_key(a: u64, r: u64, x: u64) -> int {
    (a as int) % (x as int + r as int)
}

/// Stable insertion of `x` into `s`: `x` lands before the first element
/// whose key is strictly greater.
pub open spec fn spec_insert(a: u64, r: u64, s: Seq<u64>, x: u64) -> Seq<u64>
    decreases s.len(),
{
    if s.len() == 0 {
        seq![x]
    } else if spec_sort_key(a, r, x) < spec_sort_key(a, r, s[0]) {
        seq![x] + s
    } else {
        seq![s[0]] + spec_insert(a, r, s.drop_first(), x)
    }
}

/// Stable insertion sort by the round-`r` key.
pub open spec fn spec_isort(a: u64, r: u64, s: Seq<u64>) -> Seq<u64>
    decreases s.len(),
{
    if s.len() == 0 {
        Seq::empty()
    } else {
        spec_insert(a, r, spec_isort(a, r, s.drop_last()), s.last())
    }
}

/// The identity table `0..=255`.
pub open spec fn spec_init_table() -> Seq<u64> {
    Seq::new(256, |i: int| i as u64)
}

/// The table after sort rounds `1..=r`.
pub open spec fn spec_table_round(a: u64, r: u64) -> Seq<u64>
    decreases r,
{
    if r == 0 {
        spec_init_table()
    } else {
        spec_isort(a, r, spec_table_round(a, (r - 1) as u64))
    }
}

/// The sort seed: the first eight key bytes read as a little-endian number.
pub open spec fn spec_seed(key: Seq<u8>) -> u64 {
    ((key[0] as int) + (key[1] as int) * 0x100 + (key[2] as int) * 0x10000 + (key[3] as int)
        * 0x1000000 + (key[4] as int) * 0x100000000 + (key[5] as int) * 0x10000000000 + (
    key[6] as int) * 0x1000000000000 + (key[7] as int) * 0x100000000000000) as u64
}

/// The encrypt permutation derived from a 16-byte key.
pub open spec fn spec_enc_table(key: Seq<u8>) -> Seq<u64> {
    spec_table_round(spec_seed(key), 1023)
}

/// What the encrypt transform does to one byte.
pub open spec fn spec_enc_byte(key: Seq<u8>, b: u8) -> u8 {
    spec_enc_table(key)[b as int] as u8
}

/// What the decrypt transform does to one byte: lookup in the inverse
/// permutation.
pub open spec fn spec_dec_byte(key: Seq<u8>, b: u8) -> u8 {
    (choose|i: int| 0 <= i < 256 && spec_enc_table(key)[i] == b as u64) as u8
}

/// The table transform of a whole byte string.
pub open spec fn spec_table_transform(key: Seq<u8>, mode: CryptoMode, data: Seq<u8>) -> Seq<u8> {
    match mode {
        CryptoMode::Encrypt => data.map_values(|b: u8| spec_enc_byte(key, b)),
        CryptoMode::Decrypt => data.map_values(|b: u8| spec_dec_byte(key, b)),
    }
}

// ---------------------------------------------------------------------------
// Executable construction
// ---------------------------------------------------------------------------

fn sort_key(a: u64, r: u64, x: u64) -> (k: u64)
    requires
        x < 256,
        1 <= r <= 1023,
    ensures
        k as int == spec_sort_key(a, r, x),
{
    a % (x + r)
}

/// `spec_insert` is the splice of `x` at the first position whose key
/// exceeds the key of `x`.
proof fn lemma_insert_splice(a: u64, r: u64, s: Seq<u64>, x: u64, p: int)
    requires
        0 <= p <= s.len(),
        forall|i: int| 0 <= i < p ==> !(spec_sort_key(a, r, x) < spec_sort_key(a, r, s[i])),
        p < s.len() ==> spec_sort_key(a, r, x) < spec_sort_key(a, r, s[p]),
    ensures
        spec_insert(a, r, s, x) == s.take(p) + seq![x] + s.skip(p),
    decreases s.len(),
{
    if s.len() == 0 {
        assert(spec_insert(a, r, s, x) =~= s.take(p) + seq![x] + s.skip(p));
    } else if spec_sort_key(a, r, x) < spec_sort_key(a, r, s[0]) {
        assert(p == 0);
        assert(spec_insert(a, r, s, x) =~= s.take(0) + seq![x] + s.skip(0));
    } else {
        assert(p >= 1);
        lemma_insert_splice(a, r, s.drop_first(), x, p - 1);
        assert(s.drop_first().take(p - 1) =~= s.take(p).drop_first());
        assert(s.drop_first().skip(p - 1) =~= s.skip(p));
        assert(seq![s[0]] + (s.take(p).drop_first() + seq![x] + s.skip(p)) =~= s.take(p)
            + seq![x] + s.skip(p));
    }
}

fn exec_insert(a: u64, r: u64, s: &Vec<u64>, x: u64) -> (out: Vec<u64>)
    requires
        1 <= r <= 1023,
        x < 256,
        s@.len() < 256,
        forall|i: int| 0 <= i < s@.len() ==> s@[i] < 256,
    ensures
        out@ == spec_insert(a, r, s@, x),
        out@.len() == s@.len() + 1,
        forall|i: int| 0 <= i < out@.len() ==> out@[i] < 256,
{
    let kx = sort_key(a, r, x);
    let mut p: usize = 0;
    while p < s.len()
        invariant_except_break
            p <= s@.len(),
            kx as int == spec_sort_key(a, r, x),
            x < 256,
            1 <= r <= 1023,
            forall|i: int| 0 <= i < s@.len() ==> s@[i] < 256,
            forall|i: int| 0 <= i < p ==> !(spec_sort_key(a, r, x) < spec_sort_key(a, r, s@[i])),
        ensures
            p <= s@.len(),
            forall|i: int| 0 <= i < p ==> !(spec_sort_key(a, r, x) < spec_sort_key(a, r, s@[i])),
            p < s@.len() ==> spec_sort_key(a, r, x) < spec_sort_key(a, r, s@[p as int]),
        decreases s@.len() - p,
    {
        let ks = sort_key(a, r, s[p]);
        if kx < ks {
            break;
        }
        p = p + 1;
    }
    let mut out = vstd::slice::slice_to_vec(vstd::slice::slice_subrange(s.as_slice(), 0, p));
    out.push(x);
    out.extend_from_slice(vstd::slice::slice_subrange(s.as_slice(), p, s.len()));
    proof {
        lemma_insert_splice(a, r, s@, x, p as int);
        assert(out@ =~= s@.take(p as int) + seq![x] + s@.skip(p as int));
    }
    out
}

fn exec_isort(a: u64, r: u64, s: &Vec<u64>) -> (out: Vec<u64>)
    requires
        1 <= r <= 1023,
        s@.len() <= 256,
        forall|i: int| 0 <= i < s@.len() ==> s@[i] < 256,
    ensures
        out@ == spec_isort(a, r, s@),
        out@.len() == s@.len(),
        forall|i: int| 0 <= i < out@.len() ==> out@[i] < 256,
{
    let mut acc: Vec<u64> = Vec::new();
    let mut j: usize = 0;
    proof {
        assert(acc@ =~= spec_isort(a, r, s@.take(0)));
    }
    while j < s.len()
        invariant
            j <= s@.len(),
            s@.len() <= 256,
            1 <= r <= 1023,
            forall|i: int| 0 <= i < s@.len() ==> s@[i] < 256,
            acc@ == spec_isort(a, r, s@.take(j as int)),
            acc@.len() == j,
            forall|i: int| 0 <= i < acc@.len() ==> acc@[i] < 256,
        decreases s@.len() - j,
    {
        let next = exec_insert(a, r, &acc, s[j]);
        proof {
            assert(s@.take(j + 1).drop_last() =~= s@.take(j as int));
            assert(s@.take(j + 1).last() == s@[j as int]);
        }
        acc = next;
        j = j + 1;
    }
    proof {
        assert(s@.take(s@.len() as int) =~= s@);
    }
    acc
}

/// Builds the encrypt permutation for a derived key.
fn build_enc_table(key: &[u8]) -> (tab: Vec<u64>)
    requires
        key@.len() >= 8,
    ensures
        tab@ == spec_enc_table(key@),
        tab@.len() == 256,
        forall|i: int| 0 <= i < 256 ==> tab@[i] < 256,
{
    let a: u64 = key[0] as u64 + key[1] as u64 * 0x100 + key[2] as u64 * 0x10000 + key[3] as u64
        * 0x1000000 + key[4] as u64 * 0x100000000 + key[5] as u64 * 0x10000000000
        + key[6] as u64 * 0x1000000000000 + key[7] as u64 * 0x100000000000000;
    proof {
        assert(a == spec_seed(key@));
    }
    let mut tab: Vec<u64> = Vec::new();
    let mut i: usize = 0;
    while i < 256
        invariant
            i <= 256,
            tab@.len() == i,
            forall|j: int| 0 <= j < i ==> tab@[j] == j as u64,
        decreases 256 - i,
    {
        tab.push(i as u64);
        i = i + 1;
    }
    proof {
        assert(tab@ =~= spec_init_table());
    }
    let mut r: u64 = 1;
    while r < 1024
        invariant
            1 <= r <= 1024,
            tab@ == spec_table_round(a, (r - 1) as u64),
            tab@.len() == 256,
            forall|i: int| 0 <= i < 256 ==> tab@[i] < 256,
        decreases 1024 - r,
    {
        let next = exec_isort(a, r, &tab);
        tab = next;
        r = r + 1;
    }
    tab
}

// ---------------------------------------------------------------------------
// The table is a permutation
// ---------------------------------------------------------------------------

proof fn lemma_insert_multiset(a: u64, r: u64, s: Seq<u64>, x: u64)
    ensures
        spec_insert(a, r, s, x).to_multiset() == s.to_multiset().insert(x),
    decreases s.len(),
{
    broadcast use vstd::seq_lib::group_to_multiset_ensures;
    broadcast use vstd::multiset::group_multiset_axioms;

    if s.len() == 0 {
        assert(seq![x] =~= Seq::<u64>::empty().push(x));
        assert(s =~= Seq::<u64>::empty());
        assert(spec_insert(a, r, s, x).to_multiset() =~= s.to_multiset().insert(x));
    } else if spec_sort_key(a, r, x) < spec_sort_key(a, r, s[0]) {
        vstd::seq_lib::lemma_multiset_commutative(seq![x], s);
        assert(seq![x] =~= Seq::<u64>::empty().push(x));
        assert(spec_insert(a, r, s, x).to_multiset() =~= s.to_multiset().insert(x));
    } else {
        lemma_insert_multiset(a, r, s.drop_first(), x);
        vstd::seq_lib::lemma_multiset_commutative(seq![s[0]], spec_insert(a, r, s.drop_first(), x));
        vstd::seq_lib::lemma_multiset_commutative(seq![s[0]], s.drop_first());
        assert(s =~= seq![s[0]] + s.drop_first());
        assert(spec_insert(a, r, s, x).to_multiset() =~= s.to_multiset().insert(x));
    }
}

proof fn lemma_isort_multiset(a: u64, r: u64, s: Seq<u64>)
    ensures
        spec_isort(a, r, s).to_multiset() == s.to_multiset(),
    decreases s.len(),
{
    broadcast use vstd::seq_lib::group_to_multiset_ensures;
    broadcast use vstd::multiset::group_multiset_axioms;

    if s.len() > 0 {
        lemma_isort_multiset(a, r, s.drop_last());
        lemma_insert_multiset(a, r, spec_isort(a, r, s.drop_last()), s.last());
        assert(s.drop_last().push(s.last()) =~= s);
        assert(spec_isort(a, r, s).to_multiset() =~= s.to_multiset());
    }
}

proof fn lemma_table_round_multiset(a: u64, r: u64)
    ensures
        spec_table_round(a, r).to_multiset() == spec_init_table().to_multiset(),
    decreases r,
{
    if r > 0 {
        lemma_table_round_multiset(a, (r - 1) as u64);
        lemma_isort_multiset(a, r, spec_table_round(a, (r - 1) as u64));
    }
}

/// The encrypt table holds each byte value `0..=255` exactly once.
pub proof fn lemma_enc_table_permutation(key: Seq<u8>)
    ensures
        spec_enc_table(key).len() == 256,
        forall|i: int| 0 <= i < 256 ==> spec_enc_table(key)[i] < 256,
        spec_enc_table(key).no_duplicates(),
        forall|v: u64| v < 256 ==> spec_enc_table(key).contains(v),
{
    broadcast use vstd::seq_lib::group_to_multiset_ensures;
    broadcast use vstd::multiset::group_multiset_axioms;

    let t = spec_enc_table(key);
    let init = spec_init_table();
    lemma_table_round_multiset(spec_seed(key), 1023);
    assert(t.to_multiset() == init.to_multiset());
    assert(init.len() == 256);
    assert(t.len() == 256) by {
        assert(init.len() == init.to_multiset().len());
        assert(t.len() == t.to_multiset().len());
    }
    assert(init.no_duplicates());
    init.lemma_multiset_has_no_duplicates();
    t.lemma_multiset_has_no_duplicates_conv();
    assert forall|v: u64| v < 256 implies t.contains(v) by {
        assert(init[v as int] == v);
        assert(init.contains(v));
        assert(init.to_multiset().count(v) > 0);
    }
    assert forall|i: int| 0 <= i < 256 implies t[i] < 256 by {
        assert(t.contains(t[i]));
        assert(init.to_multiset().count(t[i]) > 0);
        assert(init.contains(t[i]));
        let j = choose|j: int| 0 <= j < init.len() && init[j] == t[i];
        assert(t[i] == j as u64);
    }
}

/// Decrypt lookup inverts encrypt lookup.
pub proof fn lemma_table_byte_round_trip(key: Seq<u8>, b: u8)
    ensures
        spec_dec_byte(key, spec_enc_byte(key, b)) == b,
{
    lemma_enc_table_permutation(key);
    let t = spec_enc_table(key);
    let v = spec_enc_byte(key, b);
    assert(v as u64 == t[b as int]);
    let i = choose|i: int| 0 <= i < 256 && t[i] == v as u64;
    assert(0 <= i < 256 && t[i] == v as u64) by {
        assert(t[b as int] == v as u64);
    }
    assert(t[i] == t[b as int]);
    assert(i == b as int);
}

/// Table cipher round trip: decrypting an encrypted byte string returns it.
pub proof fn lemma_table_round_trip(key: Seq<u8>, data: Seq<u8>)
    ensures
        spec_table_transform(
            key,
            CryptoMode::Decrypt,
            spec_table_transform(key, CryptoMode::Encrypt, data),
        ) == data,
{
    let enc = spec_table_transform(key, CryptoMode::Encrypt, data);
    let back = spec_table_transform(key, CryptoMode::Decrypt, enc);
    assert forall|i: int| 0 <= i < data.len() implies back[i] == data[i] by {
        lemma_table_byte_round_trip(key, data[i]);
    }
    assert(back =~= data);
}

// ---------------------------------------------------------------------------
// The executable cipher
// ---------------------------------------------------------------------------

/// One direction of the table cipher: a 256-byte lookup table.
pub struct TableCipher {
    pub tab: Vec<u8>,
    pub mode: CryptoMode,
    pub key: Ghost<Seq<u8>>,
}

impl TableCipher {
    /// The derived key the table was built from.
    pub open spec fn spec_key(&self) -> Seq<u8> {
        self.key@
    }

    /// The direction of this instance.
    pub open spec fn spec_mode(&self) -> CryptoMode {
        self.mode
    }

    /// The table is the permutation (or its inverse) that the key derives.
    pub open spec fn wf(&self) -> bool {
        &&& self.tab@.len() == 256
        &&& match self.mode {
            CryptoMode::Encrypt => forall|b: int|
                0 <= b < 256 ==> self.tab@[b] == spec_enc_byte(self.key@, b as u8),
            CryptoMode::Decrypt => forall|b: int|
                0 <= b < 256 ==> self.tab@[b] == spec_dec_byte(self.key@, b as u8),
        }
    }

    /// Builds the table for one direction from a 16-byte derived key.
    pub fn new(key: &[u8], mode: CryptoMode) -> (c: TableCipher)
        requires
            key@.len() == 16,
        ensures
            c.wf(),
            c.spec_key() == key@,
            c.spec_mode() == mode,
    {
        let enc64 = build_enc_table(key);
        match mode {
            CryptoMode::Encrypt => {
                let mut tab: Vec<u8> = Vec::new();
                let mut i: usize = 0;
                while i < 256
                    invariant
                        i <= 256,
                        tab@.len() == i,
                        enc64@ == spec_enc_table(key@),
                        enc64@.len() == 256,
                        forall|j: int| 0 <= j < 256 ==> enc64@[j] < 256,
                        forall|j: int| 0 <= j < i ==> tab@[j] == spec_enc_byte(key@, j as u8),
                    decreases 256 - i,
                {
                    tab.push(enc64[i] as u8);
                    i = i + 1;
                }
                TableCipher { tab, mode: CryptoMode::Encrypt, key: Ghost(key@) }
            },
            CryptoMode::Decrypt => {
                proof {
                    lemma_enc_table_permutation(key@);
                }
                let mut dec: Vec<u8> = Vec::new();
                let mut i: usize = 0;
                while i < 256
                    invariant
                        i <= 256,
                        dec@.len() == i,
                    decreases 256 - i,
                {
                    dec.push(0);
                    i = i + 1;
                }
                let mut j: usize = 0;
                while j < 256
                    invariant
                        j <= 256,
                        dec@.len() == 256,
                        enc64@ == spec_enc_table(key@),
                        enc64@.len() == 256,
                        forall|k: int| 0 <= k < 256 ==> enc64@[k] < 256,
                        forall|k: int| 0 <= k < j ==> dec@[enc64@[k] as int] == k as u8,
                        spec_enc_table(key@).no_duplicates(),
                    decreases 256 - j,
                {
                    let idx = enc64[j] as usize;
                    dec[idx] = j as u8;
                    proof {
                        assert forall|k: int| 0 <= k < j + 1 implies dec@[enc64@[k] as int]
                            == k as u8 by {
                            if k < j {
                                assert(enc64@[k] != enc64@[j as int]);
                            }
                        }
                    }
                    j = j + 1;
                }
                proof {
                    assert forall|b: int| 0 <= b < 256 implies dec@[b] == spec_dec_byte(
                        key@,
                        b as u8,
                    ) by {
                        let t = spec_enc_table(key@);
                        assert(t.contains(b as u64));
                        let i0 = choose|i0: int| 0 <= i0 < t.len() && t[i0] == b as u64;
                        assert(dec@[t[i0] as int] == i0 as u8);
                        let i1 = choose|i1: int| 0 <= i1 < 256 && t[i1] == (b as u8) as u64;
                        assert(t[i1] == t[i0]);
                        assert(i1 == i0);
                    }
                }
                TableCipher { tab: dec, mode: CryptoMode::Decrypt, key: Ghost(key@) }
            },
        }
    }

    /// Transforms `data` byte-wise through the table, appending to `out`.
    pub fn update(&self, data: &[u8], out: &mut Vec<u8>)
        requires
            self.wf(),
        ensures
            final(out)@ == old(out)@ + spec_table_transform(
                self.spec_key(),
                self.spec_mode(),
                data@,
            ),
    {
        let mut i: usize = 0;
        while i < data.len()
            invariant
                i <= data@.len(),
                self.wf(),
                out@ == old(out)@ + spec_table_transform(
                    self.spec_key(),
                    self.spec_mode(),
                    data@.take(i as int),
                ),
            decreases data@.len() - i,
        {
            let b = data[i];
            out.push(self.tab[b as usize]);
            proof {
                assert(data@.take(i + 1).drop_last() =~= data@.take(i as int));
                assert(out@ =~= old(out)@ + spec_table_transform(
                    self.spec_key(),
                    self.spec_mode(),
                    data@.take(i + 1),
                ));
            }
            i = i + 1;
        }
        proof {
            assert(data@.take(data@.len() as int) =~= data@);
        }
    }
}

} // verus!
