//! Byte-string helpers for decoding wire lines: equality, first-space
//! search, ASCII whitespace trimming and decimal parsing, each pinned to a
//! spec-level definition.

use vstd::prelude::*;

verus! {

/// Whether `b` is an ASCII whitespace byte as it occurs around wire
/// values: space, tab, carriage return or line feed.
pub open spec fn is_ws(b: u8) -> bool {
    b == 32 || b == 9 || b == 13 || b == 10
}

/// Index of the first space byte of `l`, or `l.len()` when `l` holds none.
pub open spec fn first_space(l: Seq<u8>) -> nat
    decreases l.len(),
{
    if l.len() == 0 {
        0
    } else if l[0] == 32 {
        0
    } else {
        1 + first_space(l.subrange(1, l.len() as int))
    }
}

/// What `first_space` finds: an in-range result is a space preceded by
/// none, and the result is `l.len()` exactly when `l` has no space.
pub proof fn lemma_first_space(l: Seq<u8>)
    ensures
        first_space(l) <= l.len(),
        first_space(l) < l.len() ==> l[first_space(l) as int] == 32,
        forall|j: int| 0 <= j < first_space(l) ==> l[j] != 32,
    decreases l.len(),
{
    if l.len() > 0 && l[0] != 32 {
        let tail = l.subrange(1, l.len() as int);
        lemma_first_space(tail);
        assert(forall|j: int| 0 <= j < first_space(tail) ==> tail[j] != 32);
        assert forall|j: int| 0 <= j < first_space(l) implies l[j] != 32 by {
            if j > 0 {
                assert(l[j] == tail[j - 1]);
            }
        }
    }
}

/// `first_space` finds a space at `k` whenever `l[k]` is one and no
/// earlier byte is.
pub proof fn lemma_first_space_at(l: Seq<u8>, k: int)
    requires
        0 <= k < l.len(),
        l[k] == 32,
        forall|j: int| 0 <= j < k ==> l[j] != 32,
    ensures
        first_space(l) == k,
    decreases k,
{
    if k > 0 {
        let tail = l.subrange(1, l.len() as int);
        assert(tail[k - 1] == 32);
        assert forall|j: int| 0 <= j < k - 1 implies tail[j] != 32 by {
            assert(tail[j] == l[j + 1]);
        }
        lemma_first_space_at(tail, k - 1);
    }
}

/// `l` with leading and trailing ASCII whitespace removed.
pub open spec fn trim_spec(l: Seq<u8>) -> Seq<u8>
    decreases l.len(),
{
    if l.len() == 0 {
        l
    } else if is_ws(l[0]) {
        trim_spec(l.subrange(1, l.len() as int))
    } else if is_ws(l[l.len() - 1]) {
        trim_spec(l.subrange(0, l.len() - 1))
    } else {
        l
    }
}

/// `trim_spec` keeps exactly the bytes between the first and the last
/// non-whitespace byte.
pub proof fn lemma_trim_subrange(l: Seq<u8>, a: int, b: int)
    requires
        0 <= a <= b <= l.len(),
        forall|j: int| 0 <= j < a ==> is_ws(#[trigger] l[j]),
        forall|j: int| b <= j < l.len() ==> is_ws(#[trigger] l[j]),
        a < b ==> !is_ws(l[a]) && !is_ws(l[b - 1]),
        a == b ==> forall|j: int| 0 <= j < l.len() ==> is_ws(#[trigger] l[j]),
    ensures
        trim_spec(l) == l.subrange(a, b),
    decreases l.len(),
{
    if l.len() == 0 {
        assert(trim_spec(l) =~= l.subrange(a, b));
    } else if is_ws(l[0]) {
        let tail = l.subrange(1, l.len() as int);
        let (a2, b2) = if a == b {
            (0int, 0int)
        } else {
            (a - 1, b - 1)
        };
        lemma_trim_subrange(tail, a2, b2);
        assert(tail.subrange(a2, b2) =~= l.subrange(a, b));
    } else if is_ws(l[l.len() - 1]) {
        let init = l.subrange(0, l.len() - 1);
        assert(a < b);
        assert(b < l.len());
        lemma_trim_subrange(init, a, b);
        assert(init.subrange(a, b) =~= l.subrange(a, b));
    } else {
        assert(a == 0 && b == l.len());
        assert(trim_spec(l) =~= l.subrange(a, b));
    }
}

/// Whether `l` is a non-empty run of ASCII decimal digits.
pub open spec fn is_digits(l: Seq<u8>) -> bool {
    l.len() > 0 && forall|i: int| 0 <= i < l.len() ==> 48 <= #[trigger] l[i] <= 57
}

/// The digit a byte denotes; bytes below `0` count as zero, which keeps
/// the definition total (`dec_val` is only ever applied under `is_digits`).
pub open spec fn digit_of(b: u8) -> nat {
    if b >= 48 {
        (b - 48) as nat
    } else {
        0
    }
}

/// The number a run of decimal digit bytes denotes.
pub open spec fn dec_val(l: Seq<u8>) -> nat
    decreases l.len(),
{
    if l.len() == 0 {
        0
    } else {
        dec_val(l.subrange(0, l.len() - 1)) * 10 + digit_of(l[l.len() - 1])
    }
}

/// Whether the byte strings `a` and `b` are equal.
pub fn bytes_eq(a: &Vec<u8>, b: &Vec<u8>) -> (r: bool)
    ensures
        r == (a@ == b@),
{
    if a.len() != b.len() {
        return false;
    }
    let mut i: usize = 0;
    while i < a.len()
        invariant
            0 <= i <= a.len(),
            a@.len() == b@.len(),
            forall|j: int| 0 <= j < i ==> a@[j] == b@[j],
        decreases a.len() - i,
    {
        if a[i] != b[i] {
            return false;
        }
        i += 1;
    }
    proof {
        assert(a@ =~= b@);
    }
    true
}

/// Find the first space of `line`, as `first_space` defines it; the result
/// equals `line` length when there is no space.
pub fn find_space(line: &Vec<u8>) -> (idx: usize)
    ensures
        idx == first_space(line@),
        idx <= line@.len(),
        idx < line@.len() ==> line@[idx as int] == 32,
        forall|j: int| 0 <= j < idx ==> line@[j] != 32,
{
    proof {
        lemma_first_space(line@);
    }
    let mut i: usize = 0;
    while i < line.len()
        invariant
            0 <= i <= line@.len(),
            forall|j: int| 0 <= j < i ==> line@[j] != 32,
            first_space(line@) <= line@.len(),
            first_space(line@) < line@.len() ==> line@[first_space(line@) as int] == 32,
            forall|j: int| 0 <= j < first_space(line@) ==> line@[j] != 32,
        decreases line@.len() - i,
    {
        if line[i] == 32 {
            proof {
                if first_space(line@) < i {
                    assert(line@[first_space(line@) as int] != 32);
                }
            }
            return i;
        }
        i += 1;
    }
    i
}

/// Copy the byte range `[from, to)` of `src`.
pub fn copy_range(src: &Vec<u8>, from: usize, to: usize) -> (out: Vec<u8>)
    requires
        from <= to <= src@.len(),
    ensures
        out@ == src@.subrange(from as int, to as int),
{
    let mut out: Vec<u8> = Vec::new();
    proof {
        assert(out@ =~= src@.subrange(from as int, from as int));
    }
    let mut i: usize = from;
    while i < to
        invariant
            from <= i <= to <= src@.len(),
            out@ == src@.subrange(from as int, i as int),
        decreases to - i,
    {
        out.push(src[i]);
        proof {
            assert(out@ =~= src@.subrange(from as int, i + 1));
        }
        i += 1;
    }
    out
}

/// Strip leading and trailing ASCII whitespace from `v`.
pub fn trim(v: &Vec<u8>) -> (out: Vec<u8>)
    ensures
        out@ == trim_spec(v@),
{
    let mut a: usize = 0;
    while a < v.len() && is_ws_byte(v[a])
        invariant
            0 <= a <= v@.len(),
            forall|j: int| 0 <= j < a ==> is_ws(#[trigger] v@[j]),
        decreases v@.len() - a,
    {
        a += 1;
    }
    if a == v.len() {
        proof {
            lemma_trim_subrange(v@, 0, 0);
            assert(v@.subrange(0, 0) =~= Seq::<u8>::empty());
        }
        return Vec::new();
    }
    let mut b: usize = v.len();
    while b > a && is_ws_byte(v[b - 1])
        invariant
            a <= b <= v@.len(),
            forall|j: int| b <= j < v@.len() ==> is_ws(#[trigger] v@[j]),
        decreases b,
    {
        b -= 1;
    }
    proof {
        assert(!is_ws(v@[a as int]));
        assert(b > a);
        lemma_trim_subrange(v@, a as int, b as int);
    }
    copy_range(v, a, b)
}

/// Whether `b` is an ASCII whitespace byte.
fn is_ws_byte(b: u8) -> (r: bool)
    ensures
        r == is_ws(b),
{
    b == 32 || b == 9 || b == 13 || b == 10
}

/// Parse a non-empty, all-digit byte string as a decimal number, rejecting
/// anything else and any value above `u16::MAX`.
pub fn parse_u16(v: &Vec<u8>) -> (r: Option<u16>)
    ensures
        r is Some <==> is_digits(v@) && dec_val(v@) <= u16::MAX,
        r is Some ==> r->0 == dec_val(v@),
{
    if v.len() == 0 {
        return None;
    }
    let mut acc: u16 = 0;
    let mut i: usize = 0;
    while i < v.len()
        invariant
            0 <= i <= v@.len(),
            forall|j: int| 0 <= j < i ==> 48 <= #[trigger] v@[j] <= 57,
            acc == dec_val(v@.subrange(0, i as int)),
        decreases v@.len() - i,
    {
        let b = v[i];
        if b < 48 || b > 57 {
            return None;
        }
        let d = (b - 48) as u16;
        let shifted = match acc.checked_mul(10) {
            Some(x) => x,
            None => {
                proof {
                    lemma_dec_val_grows(v@, i as int);
                }
                return None;
            },
        };
        let next = match shifted.checked_add(d) {
            Some(x) => x,
            None => {
                proof {
                    lemma_dec_val_grows(v@, i as int);
                }
                return None;
            },
        };
        proof {
            assert(v@.subrange(0, i + 1).subrange(0, i as int) =~= v@.subrange(0, i as int));
            assert(dec_val(v@.subrange(0, i + 1)) == acc * 10 + d);
        }
        acc = next;
        i += 1;
    }
    proof {
        assert(v@.subrange(0, v@.len() as int) =~= v@);
    }
    Some(acc)
}

/// A digit string's value only grows as digits are appended: whenever a
/// prefix already exceeds `u16::MAX` after one more digit, so does the
/// whole string.
proof fn lemma_dec_val_grows(l: Seq<u8>, i: int)
    requires
        0 <= i < l.len(),
        dec_val(l.subrange(0, i)) * 10 + digit_of(l[i]) > u16::MAX,
    ensures
        dec_val(l) > u16::MAX,
    decreases l.len() - i,
{
    assert(l.subrange(0, i + 1).subrange(0, i) =~= l.subrange(0, i));
    assert(dec_val(l.subrange(0, i + 1)) == dec_val(l.subrange(0, i)) * 10 + digit_of(l[i]));
    if i + 1 == l.len() {
        assert(l.subrange(0, i + 1) =~= l);
    } else {
        assert(dec_val(l.subrange(0, i + 1)) * 10 + digit_of(l[i + 1]) > u16::MAX)
            by (nonlinear_arith)
            requires
                dec_val(l.subrange(0, i + 1)) > u16::MAX,
                digit_of(l[i + 1]) >= 0,
        ;
        lemma_dec_val_grows(l, i + 1);
    }
}

} // verus!
