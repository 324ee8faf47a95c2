//! The marker `### {id} ###` that a mirrored event carries in its
//! description: the one record of which source events were already mirrored.
use vstd::prelude::*;
use crate::text::{chars_of, push_char};

verus! {

/// The decimal digit character for `d` in `0..10`.
pub open spec fn digit_char(d: nat) -> char {
    ((48 + d) as u8) as char
}

/// Decimal notation of a natural number, without leading zeros.
pub open spec fn decimal(n: nat) -> Seq<char>
    decreases n,
{
    if n < 10 {
        seq![digit_char(n)]
    } else {
        decimal(n / 10).push(digit_char(n % 10))
    }
}

/// The marker text for a source event id.
pub open spec fn marker(id: u64) -> Seq<char> {
    "### "@ + decimal(id as nat) + " ###"@
}

/// `t` occurs in `s` starting at position `i`.
pub open spec fn occurs_at(s: Seq<char>, t: Seq<char>, i: int) -> bool {
    0 <= i && i + t.len() <= s.len() && s.subrange(i, i + t.len()) == t
}

/// `t` occurs somewhere in `s`.
pub open spec fn occurs_in(s: Seq<char>, t: Seq<char>) -> bool {
    exists|i: int| occurs_at(s, t, i)
}

/// An existing event's description, if it has one, carries the marker of `id`.
pub open spec fn carries_marker(description: Option<String>, id: u64) -> bool {
    match description {
        Some(d) => occurs_in(d@, marker(id)),
        None => false,
    }
}

/// Some description of `existing` carries the marker of `id`.
pub open spec fn mirrored(existing: Seq<Option<String>>, id: u64) -> bool {
    exists|k: int| 0 <= k < existing.len() && carries_marker(#[trigger] existing[k], id)
}

/// Appends the decimal notation of `n`.
pub fn push_decimal(out: &mut String, n: u64)
    ensures
        final(out)@ == old(out)@ + decimal(n as nat),
    decreases n,
{
    if n >= 10 {
        push_decimal(out, n / 10);
    }
    let d: u8 = (n % 10) as u8;
    push_char(out, (48u8 + d) as char);
    assert(final(out)@ =~= old(out)@ + decimal(n as nat));
}

/// The marker text `### {id} ###`.
pub fn marker_text(id: u64) -> (r: String)
    ensures
        r@ == marker(id),
{
    let mut r = String::new();
    r.append("### ");
    push_decimal(&mut r, id);
    r.append(" ###");
    assert(r@ =~= marker(id));
    r
}

/// Whether `t` occurs in `s`.
pub fn occurs(s: &Vec<char>, t: &Vec<char>) -> (r: bool)
    ensures
        r == occurs_in(s@, t@),
{
    let n = s.len();
    let m = t.len();
    if m > n {
        return false;
    }
    let mut i: usize = 0;
    while i <= n - m
        invariant
            n == s.len(),
            m == t.len(),
            m <= n,
            forall|k: int| 0 <= k < i ==> !occurs_at(s@, t@, k),
        decreases n - m + 1 - i,
    {
        let mut j: usize = 0;
        while j < m && s[i + j] == t[j]
            invariant
                n == s.len(),
                m == t.len(),
                i + m <= n,
                j <= m,
                forall|l: int| 0 <= l < j ==> s@[i + l] == t@[l],
            decreases m - j,
        {
            j = j + 1;
        }
        if j == m {
            assert(s@.subrange(i as int, i + m) =~= t@);
            assert(occurs_at(s@, t@, i as int));
            return true;
        }
        assert(s@.subrange(i as int, i + m)[j as int] != t@[j as int]);
        i = i + 1;
    }
    assert forall|k: int| !occurs_at(s@, t@, k) by {
        if 0 <= k < i {
        }
    }
    false
}

/// Whether a description carries the marker of `id`.
pub fn has_marker(description: &str, id: u64) -> (r: bool)
    ensures
        r == occurs_in(description@, marker(id)),
{
    let m = marker_text(id);
    let d = chars_of(description);
    let mc = chars_of(m.as_str());
    occurs(&d, &mc)
}

/// Whether one of the existing descriptions carries the marker of `id`;
/// the scan stops at the first that does.
pub fn is_mirrored(existing: &Vec<Option<String>>, id: u64) -> (r: bool)
    ensures
        r == mirrored(existing@, id),
{
    let mut k: usize = 0;
    while k < existing.len()
        invariant
            k <= existing.len(),
            forall|j: int| 0 <= j < k ==> !carries_marker(#[trigger] existing@[j], id),
        decreases existing.len() - k,
    {
        if let Some(d) = &existing[k] {
            if has_marker(d.as_str(), id) {
                return true;
            }
        }
        k = k + 1;
    }
    false
}

} // verus!
