use vstd::prelude::*;
use vstd::utf8::{char_is_scalar, encode_scalar, encode_utf8, encode_utf8_first_scalar, encode_utf8_valid_utf8, is_char_boundary, pop_first_scalar};

verus! {

/// Number of bytes that UTF-8 spends on one character.
pub open spec fn utf8_width(c: char) -> nat {
    if (c as u32) < 0x80 {
        1
    } else if (c as u32) < 0x800 {
        2
    } else if (c as u32) < 0x10000 {
        3
    } else {
        4
    }
}

/// Number of bytes of the UTF-8 encoding of a character sequence.
pub open spec fn utf8_len(s: Seq<char>) -> nat
    decreases s.len(),
{
    if s.len() == 0 {
        0
    } else {
        utf8_len(s.drop_last()) + utf8_width(s.last())
    }
}

/// The text with every carriage return removed.
pub open spec fn without_cr(s: Seq<char>) -> Seq<char>
    decreases s.len(),
{
    if s.len() == 0 {
        Seq::empty()
    } else if s.last() == '\r' {
        without_cr(s.drop_last())
    } else {
        without_cr(s.drop_last()).push(s.last())
    }
}

/// The text cut from its end, one whole character at a time, until its
/// encoding takes at most `limit` bytes.
pub open spec fn fit_bytes(s: Seq<char>, limit: nat) -> Seq<char>
    decreases s.len(),
{
    if utf8_len(s) <= limit || s.len() == 0 {
        s
    } else {
        fit_bytes(s.drop_last(), limit)
    }
}

pub proof fn lemma_utf8_len_concat(a: Seq<char>, b: Seq<char>)
    ensures
        utf8_len(a + b) == utf8_len(a) + utf8_len(b),
    decreases b.len(),
{
    if b.len() == 0 {
        assert(a + b =~= a);
    } else {
        lemma_utf8_len_concat(a, b.drop_last());
        assert((a + b).drop_last() =~= a + b.drop_last());
    }
}

/// `utf8_len` is the length of the UTF-8 encoding.
pub proof fn lemma_utf8_len_is_encoded_len(s: Seq<char>)
    ensures
        utf8_len(s) == encode_utf8(s).len(),
    decreases s.len(),
{
    if s.len() > 0 {
        let c = s[0];
        lemma_utf8_len_is_encoded_len(s.drop_first());
        lemma_utf8_len_concat(seq![c], s.drop_first());
        assert(seq![c] + s.drop_first() =~= s);
        assert(seq![c].drop_last() =~= Seq::<char>::empty());
        char_is_scalar(c);
        assert(utf8_len(Seq::<char>::empty()) == 0);
        assert(seq![c].last() == c);
        assert(utf8_len(seq![c]) == utf8_width(c));
        assert(encode_scalar(c as u32).len() == utf8_width(c));
        assert(encode_utf8(s) == encode_scalar(s[0] as u32) + encode_utf8(s.drop_first()));
    }
}

/// A cut after whole characters is a character boundary of the encoding.
pub proof fn lemma_prefix_ends_on_boundary(s: Seq<char>, k: int)
    requires
        0 <= k <= s.len(),
    ensures
        is_char_boundary(encode_utf8(s), encode_utf8(s.take(k)).len() as int),
    decreases k,
{
    encode_utf8_valid_utf8(s);
    if k > 0 {
        let bytes = encode_utf8(s);
        encode_utf8_first_scalar(s);
        assert(pop_first_scalar(bytes) =~= encode_utf8(s.drop_first()));
        encode_utf8_valid_utf8(s.drop_first());
        lemma_prefix_ends_on_boundary(s.drop_first(), k - 1);
        let t = s.take(k);
        encode_utf8_first_scalar(t);
        assert(t[0] == s[0]);
        assert(t.drop_first() =~= s.drop_first().take(k - 1));
        assert(encode_utf8(t) == encode_scalar(t[0] as u32) + encode_utf8(t.drop_first()));
        lemma_utf8_len_is_encoded_len(s.drop_first().take(k - 1));
        lemma_utf8_len_is_encoded_len(t);
        assert(encode_utf8(s.take(k)).len() <= bytes.len()) by {
            lemma_utf8_len_take_mono(s, k, s.len() as int);
            assert(s.take(s.len() as int) =~= s);
            lemma_utf8_len_is_encoded_len(s);
        }
    }
}

pub proof fn lemma_utf8_len_take_step(s: Seq<char>, i: int)
    requires
        0 <= i < s.len(),
    ensures
        utf8_len(s.take(i + 1)) == utf8_len(s.take(i)) + utf8_width(s[i]),
{
    assert(s.take(i + 1).drop_last() =~= s.take(i));
}

pub proof fn lemma_utf8_len_take_mono(s: Seq<char>, i: int, j: int)
    requires
        0 <= i <= j <= s.len(),
    ensures
        utf8_len(s.take(i)) <= utf8_len(s.take(j)),
    decreases j - i,
{
    if i < j {
        lemma_utf8_len_take_mono(s, i, j - 1);
        lemma_utf8_len_take_step(s, j - 1);
    }
}

/// The cut that `fit_bytes` makes is the longest prefix that fits.
pub proof fn lemma_fit_bytes_is_longest(s: Seq<char>, limit: nat, k: int)
    requires
        0 <= k <= s.len(),
        utf8_len(s.take(k)) <= limit,
        k == s.len() || utf8_len(s.take(k + 1)) > limit,
    ensures
        fit_bytes(s, limit) == s.take(k),
    decreases s.len(),
{
    assert(s.take(s.len() as int) =~= s);
    if utf8_len(s) <= limit {
        if k < s.len() {
            lemma_utf8_len_take_mono(s, k + 1, s.len() as int);
        }
    } else {
        let t = s.drop_last();
        assert(t.take(k) =~= s.take(k));
        if k < t.len() {
            assert(t.take(k + 1) =~= s.take(k + 1));
        }
        lemma_fit_bytes_is_longest(t, limit, k);
    }
}

/// `fit_bytes` keeps a prefix of the text, within the limit, and keeps it
/// whole when the whole text fits.
pub proof fn lemma_fit_bytes_bounds(s: Seq<char>, limit: nat)
    ensures
        utf8_len(fit_bytes(s, limit)) <= limit,
        fit_bytes(s, limit).len() <= s.len(),
        fit_bytes(s, limit) == s.take(fit_bytes(s, limit).len() as int),
        utf8_len(s) <= limit ==> fit_bytes(s, limit) == s,
        fit_bytes(s, limit).len() < s.len() ==> utf8_len(
            s.take(fit_bytes(s, limit).len() + 1int),
        ) > limit,
    decreases s.len(),
{
    assert(s.take(s.len() as int) =~= s);
    if utf8_len(s) <= limit || s.len() == 0 {
    } else {
        let t = s.drop_last();
        lemma_fit_bytes_bounds(t, limit);
        let f = fit_bytes(t, limit);
        assert(t.take(f.len() as int) =~= s.take(f.len() as int));
        if f.len() < t.len() {
            assert(t.take(f.len() + 1int) =~= s.take(f.len() + 1int));
        } else {
            assert(s.take(f.len() + 1int) =~= s);
        }
    }
}

/// Relies on `String::push`: appends one character.
#[verifier::external_body]
pub(crate) fn push_char(s: &mut String, c: char)
    ensures
        final(s)@ == old(s)@.push(c),
{
    s.push(c);
}

/// The characters of a text, in order.
pub fn chars_of(s: &str) -> (r: Vec<char>)
    ensures
        r@ == s@,
{
    broadcast use vstd::string::axiom_spec_iter;

    let mut r: Vec<char> = Vec::new();
    for c in it: s.chars()
        invariant
            r@ == it.seq().take(it.index() as int),
            it.seq() == s@,
    {
        r.push(c);
    }
    r
}

/// Byte width of one character in UTF-8.
pub fn char_width(c: char) -> (r: usize)
    ensures
        r == utf8_width(c),
{
    let v = c as u32;
    if v < 0x80 {
        1
    } else if v < 0x800 {
        2
    } else if v < 0x10000 {
        3
    } else {
        4
    }
}

/// What is left of a byte budget once a text's encoding is paid from it,
/// or zero when the text takes more than the budget.
pub fn bytes_left(budget: usize, s: &Vec<char>) -> (r: usize)
    ensures
        r == (if utf8_len(s@) <= budget {
            budget - utf8_len(s@)
        } else {
            0int
        }),
{
    let mut rem: usize = budget;
    let mut i: usize = 0;
    while i < s.len()
        invariant
            i <= s.len(),
            rem == (if utf8_len(s@.take(i as int)) <= budget {
                budget - utf8_len(s@.take(i as int))
            } else {
                0int
            }),
        decreases s.len() - i,
    {
        proof {
            lemma_utf8_len_take_step(s@, i as int);
        }
        let w = char_width(s[i]);
        if w <= rem {
            rem = rem - w;
        } else {
            rem = 0;
        }
        i = i + 1;
    }
    assert(s@.take(i as int) =~= s@);
    rem
}

/// Number of leading characters of a text whose encoding fits in `limit`
/// bytes, as many as fit.
pub fn fitting_prefix_len(s: &Vec<char>, limit: usize) -> (k: usize)
    ensures
        k <= s.len(),
        s@.take(k as int) == fit_bytes(s@, limit as nat),
{
    let mut used: usize = 0;
    let mut k: usize = 0;
    while k < s.len()
        invariant
            k <= s.len(),
            used == utf8_len(s@.take(k as int)),
            used <= limit,
        decreases s.len() - k,
    {
        proof {
            lemma_utf8_len_take_step(s@, k as int);
        }
        let w = char_width(s[k]);
        if w > limit - used {
            proof {
                lemma_fit_bytes_is_longest(s@, limit as nat, k as int);
            }
            return k;
        }
        used = used + w;
        k = k + 1;
    }
    proof {
        lemma_fit_bytes_is_longest(s@, limit as nat, k as int);
    }
    k
}

/// The text with every carriage return removed.
pub fn strip_carriage_returns(s: &str) -> (r: String)
    ensures
        r@ == without_cr(s@),
{
    let cs = chars_of(s);
    let mut r = String::new();
    let mut i: usize = 0;
    while i < cs.len()
        invariant
            cs@ == s@,
            i <= cs.len(),
            r@ == without_cr(s@.take(i as int)),
        decreases cs.len() - i,
    {
        let c = cs[i];
        assert(s@.take(i + 1).drop_last() =~= s@.take(i as int));
        if c != '\r' {
            push_char(&mut r, c);
        }
        i = i + 1;
    }
    assert(s@.take(i as int) =~= s@);
    r
}

} // verus!
