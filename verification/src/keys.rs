//! Record key construction and the namespacing guarantees behind it.
//!
//! Per-device metrics live under `gpu.<index>.<field>`, attribution-filtered
//! duplicates under `gpu.process.<index>.<field>`, and a handful of global
//! keys stand beside them.  The lemmas here show that these namespaces never
//! collide: distinct indices or fields give distinct keys, so one device's
//! metrics can never overwrite another's.
use crate::numtext::{dec_str, is_digit, lemma_dec_str_digits, lemma_dec_str_injective, push_dec_u64};
use vstd::prelude::*;
use vstd::string::StringExecFns;

verus! {

pub open spec fn gpu_prefix() -> Seq<char> {
    seq!['g', 'p', 'u', '.']
}

pub open spec fn proc_mid() -> Seq<char> {
    seq!['p', 'r', 'o', 'c', 'e', 's', 's', '.']
}

/// The key `gpu.<i>.<field>`.
pub open spec fn dev_key(i: nat, field: Seq<char>) -> Seq<char> {
    gpu_prefix() + dec_str(i) + seq!['.'] + field
}

/// The key `gpu.process.<i>.<field>`.
pub open spec fn proc_key(i: nat, field: Seq<char>) -> Seq<char> {
    gpu_prefix() + proc_mid() + dec_str(i) + seq!['.'] + field
}

/// The key `gpu.count`.
pub open spec fn count_key() -> Seq<char> {
    seq!['g', 'p', 'u', '.', 'c', 'o', 'u', 'n', 't']
}

/// The key `cuda_version`.
pub open spec fn cuda_key() -> Seq<char> {
    seq!['c', 'u', 'd', 'a', '_', 'v', 'e', 'r', 's', 'i', 'o', 'n']
}

/// The key `_timestamp`.
pub open spec fn timestamp_key() -> Seq<char> {
    seq!['_', 't', 'i', 'm', 'e', 's', 't', 'a', 'm', 'p']
}

/// The key `_sampling_duration_ms`.
pub open spec fn duration_key() -> Seq<char> {
    seq!['_', 's', 'a', 'm', 'p', 'l', 'i', 'n', 'g', '_', 'd', 'u', 'r', 'a', 't', 'i', 'o', 'n',
        '_', 'm', 's']
}

/// Builds `gpu.<i>.<field>`.
pub fn make_dev_key(i: u32, field: &str) -> (r: String)
    ensures
        r@ == dev_key(i as nat, field@),
{
    proof {
        reveal_strlit("gpu.");
    }
    let mut s = String::from_str("gpu.");
    proof {
        assert(s@ =~= gpu_prefix());
    }
    push_dec_u64(&mut s, i as u64);
    s.push('.');
    s.append(field);
    proof {
        assert(s@ =~= dev_key(i as nat, field@));
    }
    s
}

/// Builds `gpu.process.<i>.<field>`.
pub fn make_proc_key(i: u32, field: &str) -> (r: String)
    ensures
        r@ == proc_key(i as nat, field@),
{
    proof {
        reveal_strlit("gpu.process.");
    }
    let mut s = String::from_str("gpu.process.");
    proof {
        assert(s@ =~= gpu_prefix() + proc_mid());
    }
    push_dec_u64(&mut s, i as u64);
    s.push('.');
    s.append(field);
    proof {
        assert(s@ =~= proc_key(i as nat, field@));
    }
    s
}

/// Cancels a shared prefix, a digit-only middle, and a dot separator: equal
/// composite keys force equal middles and equal fields.
proof fn lemma_mid_cancel(p: Seq<char>, a: Seq<char>, b: Seq<char>, f: Seq<char>, g: Seq<char>)
    requires
        p + a + seq!['.'] + f == p + b + seq!['.'] + g,
        forall|t: int| 0 <= t < a.len() ==> is_digit(#[trigger] a[t]),
        forall|t: int| 0 <= t < b.len() ==> is_digit(#[trigger] b[t]),
    ensures
        a == b,
        f == g,
{
    let l = p + a + seq!['.'] + f;
    let r = p + b + seq!['.'] + g;
    if a.len() < b.len() {
        let k = p.len() + a.len();
        assert(l[k as int] == '.');
        assert(r[k as int] == b[a.len() as int]);
        assert(is_digit(b[a.len() as int]));
        assert(false);
    } else if b.len() < a.len() {
        let k = p.len() + b.len();
        assert(r[k as int] == '.');
        assert(l[k as int] == a[b.len() as int]);
        assert(is_digit(a[b.len() as int]));
        assert(false);
    } else {
        assert(l.len() == r.len());
        assert(a =~= b) by {
            assert forall|t: int| 0 <= t < a.len() implies a[t] == b[t] by {
                assert(l[p.len() + t] == a[t]);
                assert(r[p.len() + t] == b[t]);
            }
        }
        assert(f =~= g) by {
            assert forall|t: int| 0 <= t < f.len() implies f[t] == g[t] by {
                assert(l[p.len() + a.len() + 1 + t] == f[t]);
                assert(r[p.len() + b.len() + 1 + t] == g[t]);
            }
        }
    }
}

/// Equal device keys come from the same index and the same field.
pub broadcast proof fn lemma_dev_key_injective(i: nat, j: nat, f: Seq<char>, g: Seq<char>)
    ensures
        #![trigger dev_key(i, f), dev_key(j, g)]
        dev_key(i, f) == dev_key(j, g) ==> (i == j && f == g),
{
    if dev_key(i, f) == dev_key(j, g) {
        lemma_dec_str_digits(i);
        lemma_dec_str_digits(j);
        lemma_mid_cancel(gpu_prefix(), dec_str(i), dec_str(j), f, g);
        lemma_dec_str_injective(i, j);
    }
}

/// Equal process keys come from the same index and the same field.
pub broadcast proof fn lemma_proc_key_injective(i: nat, j: nat, f: Seq<char>, g: Seq<char>)
    ensures
        #![trigger proc_key(i, f), proc_key(j, g)]
        proc_key(i, f) == proc_key(j, g) ==> (i == j && f == g),
{
    if proc_key(i, f) == proc_key(j, g) {
        lemma_dec_str_digits(i);
        lemma_dec_str_digits(j);
        assert(gpu_prefix() + proc_mid() + dec_str(i) + seq!['.'] + f == (gpu_prefix()
            + proc_mid()) + dec_str(i) + seq!['.'] + f);
        assert(gpu_prefix() + proc_mid() + dec_str(j) + seq!['.'] + g == (gpu_prefix()
            + proc_mid()) + dec_str(j) + seq!['.'] + g);
        lemma_mid_cancel(gpu_prefix() + proc_mid(), dec_str(i), dec_str(j), f, g);
        lemma_dec_str_injective(i, j);
    }
}

/// A device key never equals a process key: after `gpu.` one continues with
/// a digit, the other with `process.`.
pub broadcast proof fn lemma_dev_proc_keys_differ(i: nat, j: nat, f: Seq<char>, g: Seq<char>)
    ensures
        #![trigger dev_key(i, f), proc_key(j, g)]
        dev_key(i, f) != proc_key(j, g),
{
    lemma_dec_str_digits(i);
    if dev_key(i, f) == proc_key(j, g) {
        assert(dev_key(i, f)[4] == dec_str(i)[0]);
        assert(proc_key(j, g)[4] == 'p');
        assert(is_digit(dec_str(i)[0]));
        assert(false);
    }
}

/// A device key never equals one of the global keys.
pub broadcast proof fn lemma_dev_key_not_global(i: nat, f: Seq<char>)
    ensures
        #![trigger dev_key(i, f)]
        dev_key(i, f) != count_key(),
        dev_key(i, f) != cuda_key(),
        dev_key(i, f) != timestamp_key(),
        dev_key(i, f) != duration_key(),
{
    lemma_dec_str_digits(i);
    if dev_key(i, f) == count_key() {
        assert(dev_key(i, f)[4] == dec_str(i)[0]);
        assert(is_digit(dec_str(i)[0]));
        assert(count_key()[4] == 'c');
        assert(false);
    }
    if dev_key(i, f) == cuda_key() {
        assert(dev_key(i, f)[0] == 'g');
        assert(cuda_key()[0] == 'c');
        assert(false);
    }
    if dev_key(i, f) == timestamp_key() {
        assert(dev_key(i, f)[0] == 'g');
        assert(timestamp_key()[0] == '_');
        assert(false);
    }
    if dev_key(i, f) == duration_key() {
        assert(dev_key(i, f)[0] == 'g');
        assert(duration_key()[0] == '_');
        assert(false);
    }
}

/// A process key never equals one of the global keys.
pub broadcast proof fn lemma_proc_key_not_global(i: nat, f: Seq<char>)
    ensures
        #![trigger proc_key(i, f)]
        proc_key(i, f) != count_key(),
        proc_key(i, f) != cuda_key(),
        proc_key(i, f) != timestamp_key(),
        proc_key(i, f) != duration_key(),
{
    if proc_key(i, f) == count_key() {
        assert(proc_key(i, f)[4] == 'p');
        assert(count_key()[4] == 'c');
        assert(false);
    }
    if proc_key(i, f) == cuda_key() {
        assert(proc_key(i, f)[0] == 'g');
        assert(cuda_key()[0] == 'c');
        assert(false);
    }
    if proc_key(i, f) == timestamp_key() {
        assert(proc_key(i, f)[0] == 'g');
        assert(timestamp_key()[0] == '_');
        assert(false);
    }
    if proc_key(i, f) == duration_key() {
        assert(proc_key(i, f)[0] == 'g');
        assert(duration_key()[0] == '_');
        assert(false);
    }
}

/// The global keys are pairwise distinct.
pub proof fn lemma_global_keys_distinct()
    ensures
        count_key() != cuda_key(),
        count_key() != timestamp_key(),
        count_key() != duration_key(),
        cuda_key() != timestamp_key(),
        cuda_key() != duration_key(),
        timestamp_key() != duration_key(),
{
    assert(count_key().len() == 9);
    assert(cuda_key().len() == 12);
    assert(timestamp_key().len() == 10);
    assert(duration_key().len() == 21);
}

} // verus!
