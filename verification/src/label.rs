//! The fixed-buffer label query.
//!
//! The transport answers a label query by filling a caller-provided buffer
//! of a declared capacity: it copies at most `LABEL_CAPACITY - 1` label
//! bytes and zero-fills the rest, so the answer is always terminated. A
//! label longer than the capacity is truncated; the caller therefore never
//! sees anything but a bounded prefix of the configured label.

use vstd::prelude::*;
use crate::framing::{c_prefix, c_scan, lemma_c_scan_bounds, lemma_c_scan_unique};

verus! {

/// Declared capacity of the label query buffer, terminator included.
pub const LABEL_CAPACITY: usize = 512;

/// How many label bytes a query copies: the whole label, or as much of it
/// as leaves room for the terminator.
pub open spec fn trunc_len(l: Seq<u8>) -> int {
    if l.len() <= LABEL_CAPACITY - 1 {
        l.len() as int
    } else {
        LABEL_CAPACITY - 1
    }
}

/// The label bytes a query surfaces: the copied prefix, cut at its first
/// zero byte (the terminator, if the label itself holds no zero byte).
pub open spec fn queried_label(l: Seq<u8>) -> Seq<u8> {
    c_prefix(l.take(trunc_len(l)))
}

/// Fill a query buffer for `label` as the transport does: copy at most
/// `LABEL_CAPACITY - 1` bytes and zero-fill the remainder.
pub fn fill_label_buffer(label: &Vec<u8>) -> (buf: Vec<u8>)
    ensures
        buf@.len() == LABEL_CAPACITY as int,
        forall|i: int| 0 <= i < trunc_len(label@) ==> buf@[i] == label@[i],
        forall|i: int| trunc_len(label@) <= i < LABEL_CAPACITY as int ==> buf@[i] == 0,
{
    let n: usize = if label.len() <= LABEL_CAPACITY - 1 {
        label.len()
    } else {
        LABEL_CAPACITY - 1
    };
    let mut buf: Vec<u8> = Vec::new();
    let mut i: usize = 0;
    while i < n
        invariant
            0 <= i <= n,
            n == trunc_len(label@),
            n <= label@.len(),
            buf@.len() == i as int,
            forall|k: int| 0 <= k < i ==> buf@[k] == label@[k],
        decreases n - i,
    {
        buf.push(label[i]);
        i = i + 1;
    }
    while i < LABEL_CAPACITY
        invariant
            n == trunc_len(label@),
            n <= i <= LABEL_CAPACITY,
            buf@.len() == i as int,
            forall|k: int| 0 <= k < n ==> buf@[k] == label@[k],
            forall|k: int| n <= k < i ==> buf@[k] == 0,
        decreases LABEL_CAPACITY - i,
    {
        buf.push(0);
        i = i + 1;
    }
    buf
}

/// A filled query buffer cuts at exactly the bytes `queried_label` names:
/// the terminator the fill appends (or a zero byte of the label itself)
/// stops the scan, and everything before it is the copied label prefix.
pub proof fn lemma_query_buffer_decodes(label: Seq<u8>, buf: Seq<u8>)
    requires
        buf.len() == LABEL_CAPACITY as int,
        forall|i: int| 0 <= i < trunc_len(label) ==> buf[i] == label[i],
        forall|i: int| trunc_len(label) <= i < LABEL_CAPACITY as int ==> buf[i] == 0,
    ensures
        c_prefix(buf) == queried_label(label),
{
    let t = trunc_len(label);
    let cut = label.take(t);
    lemma_c_scan_bounds(cut);
    let n = c_scan(cut);
    assert(forall|k: int| 0 <= k < n ==> cut[k] != 0) by {
        lemma_scan_prefix_nonzero(cut);
    }
    assert(forall|k: int| 0 <= k < n ==> buf[k] == cut[k]);
    if n < t {
        lemma_scan_hits_zero(cut);
        assert(buf[n] == cut[n]);
    }
    lemma_c_scan_unique(buf, n);
    assert(buf.take(n) =~= cut.take(n));
}

/// Before index `c_scan(s)` every byte of `s` is non-zero.
pub proof fn lemma_scan_prefix_nonzero(s: Seq<u8>)
    ensures
        forall|k: int| 0 <= k < c_scan(s) ==> s[k] != 0,
    decreases s.len(),
{
    if s.len() == 0 || s[0] == 0 {
    } else {
        lemma_scan_prefix_nonzero(s.drop_first());
        lemma_c_scan_bounds(s.drop_first());
        assert forall|k: int| 0 <= k < c_scan(s) implies s[k] != 0 by {
            if k > 0 {
                assert(0 <= k - 1 < s.drop_first().len());
                assert(s.drop_first()[k - 1] == s[k]);
            }
        }
    }
}

/// Where `c_scan(s)` stops short of the end, it stops on a zero byte.
pub proof fn lemma_scan_hits_zero(s: Seq<u8>)
    requires
        c_scan(s) < s.len(),
    ensures
        s[c_scan(s)] == 0,
    decreases s.len(),
{
    if s.len() == 0 || s[0] == 0 {
    } else {
        lemma_c_scan_bounds(s.drop_first());
        lemma_scan_hits_zero(s.drop_first());
        assert(c_scan(s) == 1 + c_scan(s.drop_first()));
        assert(0 <= c_scan(s.drop_first()) < s.drop_first().len());
        assert(s.drop_first()[c_scan(s.drop_first())] == s[c_scan(s)]);
    }
}

/// What a label query surfaces is always a prefix of the configured label,
/// strictly shorter than the declared capacity: truncation, never
/// undefined buffer content.
pub proof fn lemma_label_bound(l: Seq<u8>)
    ensures
        queried_label(l).len() < LABEL_CAPACITY as int,
        queried_label(l) == l.take(queried_label(l).len() as int),
{
    let t = trunc_len(l);
    let cut = l.take(t);
    lemma_c_scan_bounds(cut);
    assert(queried_label(l) =~= l.take(c_scan(cut)));
}

} // verus!
