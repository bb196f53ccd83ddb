//! Byte-string utilities for the text part of the protocol: trimming,
//! ASCII case folding, line and token splitting, and header lookup.
//!
//! The handshake block is handled as raw bytes; every function here has a
//! spec-level counterpart over `Seq<u8>` that its contract refers to.

use vstd::prelude::*;

verus! {

/// Whitespace, as Rust's `char::is_whitespace` classifies the ASCII range:
/// space and the five control characters tab through carriage return.
pub open spec fn is_space(b: u8) -> bool {
    b == 32 || (9 <= b && b <= 13)
}

pub open spec fn trim_start_spec(s: Seq<u8>) -> Seq<u8>
    decreases s.len(),
{
    if s.len() > 0 && is_space(s[0]) {
        trim_start_spec(s.drop_first())
    } else {
        s
    }
}

pub open spec fn trim_end_spec(s: Seq<u8>) -> Seq<u8>
    decreases s.len(),
{
    if s.len() > 0 && is_space(s.last()) {
        trim_end_spec(s.drop_last())
    } else {
        s
    }
}

/// Leading and trailing whitespace removed, as `str::trim` does on ASCII text.
pub open spec fn trim_spec(s: Seq<u8>) -> Seq<u8> {
    trim_end_spec(trim_start_spec(s))
}

proof fn lemma_trim_start_skip(s: Seq<u8>, i: int)
    requires
        0 <= i <= s.len(),
        forall|j: int| 0 <= j < i ==> is_space(s[j]),
    ensures
        trim_start_spec(s) == trim_start_spec(s.subrange(i, s.len() as int)),
    decreases i,
{
    if i > 0 {
        let rest = s.drop_first();
        lemma_trim_start_skip(rest, i - 1);
        assert(rest.subrange(i - 1, rest.len() as int) =~= s.subrange(i, s.len() as int));
    } else {
        assert(s.subrange(0, s.len() as int) =~= s);
    }
}

proof fn lemma_trim_end_keep(s: Seq<u8>, i: int)
    requires
        0 <= i <= s.len(),
        forall|j: int| i <= j < s.len() ==> is_space(s[j]),
    ensures
        trim_end_spec(s) == trim_end_spec(s.subrange(0, i)),
    decreases s.len() - i,
{
    if i < s.len() {
        let rest = s.drop_last();
        lemma_trim_end_keep(rest, i);
        assert(rest.subrange(0, i) =~= s.subrange(0, i));
    } else {
        assert(s.subrange(0, s.len() as int) =~= s);
    }
}

/// Copy of `s` with leading and trailing whitespace removed.
pub fn trim(s: &[u8]) -> (r: Vec<u8>)
    ensures
        r@ == trim_spec(s@),
{
    let len = s.len();
    let mut lo: usize = 0;
    while lo < len && is_space_byte(*vstd::slice::slice_index_get(s, lo))
        invariant
            0 <= lo <= len,
            len == s@.len(),
            forall|j: int| 0 <= j < lo ==> is_space(s@[j]),
        decreases len - lo,
    {
        lo = lo + 1;
    }
    let mut hi: usize = len;
    while hi > lo && is_space_byte(*vstd::slice::slice_index_get(s, hi - 1))
        invariant
            lo <= hi <= len,
            len == s@.len(),
            forall|j: int| 0 <= j < lo ==> is_space(s@[j]),
            forall|j: int| hi <= j < len ==> is_space(s@[j]),
        decreases hi,
    {
        hi = hi - 1;
    }
    let mut out: Vec<u8> = Vec::new();
    let mut k: usize = lo;
    while k < hi
        invariant
            lo <= k <= hi <= len,
            len == s@.len(),
            out@ == s@.subrange(lo as int, k as int),
        decreases hi - k,
    {
        out.push(*vstd::slice::slice_index_get(s, k));
        proof {
            assert(out@ =~= s@.subrange(lo as int, k + 1));
        }
        k = k + 1;
    }
    proof {
        let start = trim_start_spec(s@);
        lemma_trim_start_skip(s@, lo as int);
        let tail = s@.subrange(lo as int, len as int);
        assert(start == tail);
        lemma_trim_end_keep(tail, hi - lo);
        assert(tail.subrange(0, hi - lo) =~= s@.subrange(lo as int, hi as int));
        if hi > lo {
            assert(!is_space(tail.subrange(0, hi - lo).last()));
        }
        assert(trim_spec(s@) == s@.subrange(lo as int, hi as int));
        assert(out@ =~= s@.subrange(lo as int, hi as int));
    }
    out
}

/// Executable test matching the `is_space` spec.
pub fn is_space_byte(b: u8) -> (r: bool)
    ensures
        r == is_space(b),
{
    b == 32 || (9 <= b && b <= 13)
}

/// Index of the first occurrence of `x` in `s`, if any.
pub open spec fn find_byte(s: Seq<u8>, x: u8) -> Option<int>
    decreases s.len(),
{
    if s.len() == 0 {
        None
    } else if s[0] == x {
        Some(0)
    } else {
        match find_byte(s.drop_first(), x) {
            Some(i) => Some(i + 1),
            None => None,
        }
    }
}

pub proof fn lemma_find_byte(s: Seq<u8>, x: u8)
    ensures
        match find_byte(s, x) {
            Some(i) => 0 <= i < s.len() && s[i] == x && forall|j: int| 0 <= j < i ==> s[j] != x,
            None => forall|j: int| 0 <= j < s.len() ==> s[j] != x,
        },
    decreases s.len(),
{
    if s.len() > 0 && s[0] != x {
        let rest = s.drop_first();
        lemma_find_byte(rest, x);
        assert(forall|j: int| 1 <= j < s.len() ==> s[j] == rest[j - 1]);
    }
}

proof fn lemma_find_byte_skip(s: Seq<u8>, x: u8, i: int)
    requires
        0 <= i <= s.len(),
        forall|j: int| 0 <= j < i ==> s[j] != x,
    ensures
        find_byte(s, x) == match find_byte(s.subrange(i, s.len() as int), x) {
            Some(k) => Some(k + i),
            None => None::<int>,
        },
    decreases i,
{
    if i > 0 {
        let rest = s.drop_first();
        lemma_find_byte_skip(rest, x, i - 1);
        assert(rest.subrange(i - 1, rest.len() as int) =~= s.subrange(i, s.len() as int));
    } else {
        assert(s.subrange(0, s.len() as int) =~= s);
    }
}

/// Position of the first occurrence of `x` in `s`, or `s.len()` when absent.
pub fn find_byte_exec(s: &[u8], x: u8) -> (r: Option<usize>)
    ensures
        match r {
            Some(i) => find_byte(s@, x) == Some(i as int),
            None => find_byte(s@, x) is None,
        },
{
    let len = s.len();
    let mut i: usize = 0;
    while i < len && *vstd::slice::slice_index_get(s, i) != x
        invariant
            0 <= i <= len,
            len == s@.len(),
            forall|j: int| 0 <= j < i ==> s@[j] != x,
        decreases len - i,
    {
        i = i + 1;
    }
    proof {
        lemma_find_byte_skip(s@, x, i as int);
    }
    if i < len {
        Some(i)
    } else {
        None
    }
}

/// Whether two byte strings are equal.
pub fn bytes_eq(a: &[u8], b: &[u8]) -> (r: bool)
    ensures
        r == (a@ == b@),
{
    let len = a.len();
    if len != b.len() {
        proof {
            assert(a@.len() != b@.len());
        }
        return false;
    }
    let mut i: usize = 0;
    while i < len
        invariant
            0 <= i <= len,
            len == a@.len() == b@.len(),
            forall|j: int| 0 <= j < i ==> a@[j] == b@[j],
        decreases len - i,
    {
        if *vstd::slice::slice_index_get(a, i) != *vstd::slice::slice_index_get(b, i) {
            return false;
        }
        i = i + 1;
    }
    proof {
        assert(a@ =~= b@);
    }
    true
}

/// ASCII lower-casing of one byte.
pub open spec fn lower_byte(b: u8) -> u8 {
    if 65 <= b && b <= 90 {
        (b + 32) as u8
    } else {
        b
    }
}

/// ASCII lower-casing of a byte string, as `str::to_lowercase` acts on ASCII.
pub open spec fn lower_spec(s: Seq<u8>) -> Seq<u8> {
    Seq::new(s.len(), |i: int| lower_byte(s[i]))
}

/// Copy of `s` with ASCII upper-case letters folded to lower case.
pub fn lower(s: &[u8]) -> (r: Vec<u8>)
    ensures
        r@ == lower_spec(s@),
{
    let len = s.len();
    let mut out: Vec<u8> = Vec::new();
    let mut i: usize = 0;
    while i < len
        invariant
            0 <= i <= len,
            len == s@.len(),
            out@.len() == i,
            forall|j: int| 0 <= j < i ==> out@[j] == lower_byte(s@[j]),
        decreases len - i,
    {
        let b = *vstd::slice::slice_index_get(s, i);
        if 65 <= b && b <= 90 {
            out.push(b + 32);
        } else {
            out.push(b);
        }
        i = i + 1;
    }
    proof {
        assert(out@ =~= lower_spec(s@));
    }
    out
}

/// The views of a sequence of byte vectors.
pub open spec fn seq_views(v: Seq<Vec<u8>>) -> Seq<Seq<u8>> {
    Seq::new(v.len(), |i: int| v[i]@)
}

/// `s` split at every occurrence of `sep`, as `str::split` does: `n`
/// separators yield `n + 1` pieces, empty pieces included.
pub open spec fn split_byte(s: Seq<u8>, sep: u8) -> Seq<Seq<u8>>
    decreases s.len() via split_byte_dec
{
    match find_byte(s, sep) {
        Some(i) => seq![s.subrange(0, i)] + split_byte(s.subrange(i + 1, s.len() as int), sep),
        None => seq![s],
    }
}

#[via_fn]
proof fn split_byte_dec(s: Seq<u8>, sep: u8) {
    lemma_find_byte(s, sep);
}

/// Splitting always yields at least one piece.
pub proof fn lemma_split_nonempty(s: Seq<u8>, sep: u8)
    ensures
        split_byte(s, sep).len() >= 1,
{
    match find_byte(s, sep) {
        Some(i) => {
            assert(split_byte(s, sep) == seq![s.subrange(0, i)] + split_byte(
                s.subrange(i + 1, s.len() as int),
                sep,
            ));
        },
        None => {
            assert(split_byte(s, sep) == seq![s]);
        },
    }
}

/// Pieces of `s` between occurrences of `sep`.
pub fn split_byte_exec(s: &[u8], sep: u8) -> (r: Vec<Vec<u8>>)
    ensures
        seq_views(r@) == split_byte(s@, sep),
{
    let len = s.len();
    let mut out: Vec<Vec<u8>> = Vec::new();
    let mut pos: usize = 0;
    proof {
        assert(s@.subrange(0, len as int) =~= s@);
        assert(seq_views(out@) + split_byte(s@, sep) =~= split_byte(s@, sep));
    }
    loop
        invariant
            0 <= pos <= len,
            len == s@.len(),
            split_byte(s@, sep) == seq_views(out@) + split_byte(
                s@.subrange(pos as int, len as int),
                sep,
            ),
        decreases len - pos,
    {
        let rest = vstd::slice::slice_subrange(s, pos, len);
        let ghost pre = seq_views(out@);
        match find_byte_exec(rest, sep) {
            Some(i) => {
                proof {
                    lemma_find_byte(rest@, sep);
                }
                let piece = vstd::slice::slice_to_vec(vstd::slice::slice_subrange(rest, 0, i));
                out.push(piece);
                proof {
                    let after = rest@.subrange(i + 1, rest@.len() as int);
                    assert(split_byte(rest@, sep) == seq![rest@.subrange(0, i as int)] + split_byte(
                        after,
                        sep,
                    ));
                    assert(after =~= s@.subrange(pos + i + 1, len as int));
                    assert(seq_views(out@) =~= pre.push(rest@.subrange(0, i as int)));
                    assert(pre + (seq![rest@.subrange(0, i as int)] + split_byte(after, sep))
                        =~= seq_views(out@) + split_byte(after, sep));
                }
                pos = pos + i + 1;
            },
            None => {
                let piece = vstd::slice::slice_to_vec(rest);
                out.push(piece);
                proof {
                    assert(split_byte(rest@, sep) == seq![rest@]);
                    assert(seq_views(out@) =~= pre.push(rest@));
                    assert(pre + seq![rest@] =~= seq_views(out@));
                    assert(seq_views(out@) + Seq::<Seq<u8>>::empty() =~= seq_views(out@));
                }
                return out;
            },
        }
    }
}

/// `s` split at the first occurrence of `sep`, as `str::split_once` does.
pub open spec fn split_once_spec(s: Seq<u8>, sep: u8) -> Option<(Seq<u8>, Seq<u8>)> {
    match find_byte(s, sep) {
        Some(i) => Some((s.subrange(0, i), s.subrange(i + 1, s.len() as int))),
        None => None,
    }
}

/// The pieces before and after the first occurrence of `sep`, if `sep` occurs.
pub fn split_once_exec(s: &[u8], sep: u8) -> (r: Option<(Vec<u8>, Vec<u8>)>)
    ensures
        match r {
            Some(kv) => split_once_spec(s@, sep) == Some((kv.0@, kv.1@)),
            None => split_once_spec(s@, sep) is None,
        },
{
    let len = s.len();
    match find_byte_exec(s, sep) {
        Some(i) => {
            proof {
                lemma_find_byte(s@, sep);
                assert(i < len);
            }
            let head = vstd::slice::slice_to_vec(vstd::slice::slice_subrange(s, 0, i));
            let tail = vstd::slice::slice_to_vec(vstd::slice::slice_subrange(s, i + 1, len));
            Some((head, tail))
        },
        None => None,
    }
}

/// Length of the leading run of non-whitespace bytes.
pub open spec fn token_end(s: Seq<u8>) -> int
    decreases s.len(),
{
    if s.len() == 0 || is_space(s[0]) {
        0
    } else {
        1 + token_end(s.drop_first())
    }
}

pub proof fn lemma_token_end(s: Seq<u8>)
    ensures
        0 <= token_end(s) <= s.len(),
        forall|j: int| 0 <= j < token_end(s) ==> !is_space(s[j]),
        token_end(s) < s.len() ==> is_space(s[token_end(s)]),
    decreases s.len(),
{
    if s.len() > 0 && !is_space(s[0]) {
        let rest = s.drop_first();
        lemma_token_end(rest);
        assert(forall|j: int| 1 <= j < s.len() ==> s[j] == rest[j - 1]);
    }
}

proof fn lemma_token_end_unique(s: Seq<u8>, k: int)
    requires
        0 <= k <= s.len(),
        forall|j: int| 0 <= j < k ==> !is_space(s[j]),
        k == s.len() || is_space(s[k]),
    ensures
        token_end(s) == k,
    decreases s.len(),
{
    if k > 0 {
        let rest = s.drop_first();
        assert(forall|j: int| 1 <= j < s.len() ==> s[j] == rest[j - 1]);
        lemma_token_end_unique(rest, k - 1);
    }
}

/// The whitespace-separated tokens of `s`, as `str::split_whitespace` does:
/// maximal runs of non-whitespace bytes, in order.
pub open spec fn tokens_spec(s: Seq<u8>) -> Seq<Seq<u8>>
    decreases s.len() via tokens_spec_dec
{
    if s.len() == 0 {
        Seq::empty()
    } else if is_space(s[0]) {
        tokens_spec(s.drop_first())
    } else {
        seq![s.subrange(0, token_end(s))] + tokens_spec(s.subrange(token_end(s), s.len() as int))
    }
}

#[via_fn]
proof fn tokens_spec_dec(s: Seq<u8>) {
    lemma_token_end(s);
}

/// The whitespace-separated tokens of `s`.
pub fn tokens_exec(s: &[u8]) -> (r: Vec<Vec<u8>>)
    ensures
        seq_views(r@) == tokens_spec(s@),
{
    let len = s.len();
    let mut out: Vec<Vec<u8>> = Vec::new();
    let mut pos: usize = 0;
    proof {
        assert(s@.subrange(0, len as int) =~= s@);
        assert(seq_views(out@) + tokens_spec(s@) =~= tokens_spec(s@));
    }
    while pos < len
        invariant
            0 <= pos <= len,
            len == s@.len(),
            tokens_spec(s@) == seq_views(out@) + tokens_spec(s@.subrange(pos as int, len as int)),
        decreases len - pos,
    {
        let ghost sub = s@.subrange(pos as int, len as int);
        if is_space_byte(*vstd::slice::slice_index_get(s, pos)) {
            proof {
                assert(sub.drop_first() =~= s@.subrange(pos + 1, len as int));
            }
            pos = pos + 1;
        } else {
            let mut j: usize = pos + 1;
            while j < len && !is_space_byte(*vstd::slice::slice_index_get(s, j))
                invariant
                    pos < j <= len,
                    len == s@.len(),
                    forall|k: int| pos <= k < j ==> !is_space(s@[k]),
                decreases len - j,
            {
                j = j + 1;
            }
            let ghost pre = seq_views(out@);
            let piece = vstd::slice::slice_to_vec(vstd::slice::slice_subrange(s, pos, j));
            out.push(piece);
            proof {
                lemma_token_end_unique(sub, j - pos);
                let after = sub.subrange(j - pos, sub.len() as int);
                assert(tokens_spec(sub) == seq![sub.subrange(0, j - pos)] + tokens_spec(after));
                assert(sub.subrange(0, j - pos) =~= s@.subrange(pos as int, j as int));
                assert(after =~= s@.subrange(j as int, len as int));
                assert(seq_views(out@) =~= pre.push(sub.subrange(0, j - pos)));
                assert(pre + (seq![sub.subrange(0, j - pos)] + tokens_spec(after)) =~= seq_views(
                    out@,
                ) + tokens_spec(after));
            }
            pos = j;
        }
    }
    proof {
        assert(s@.subrange(pos as int, len as int).len() == 0);
        assert(tokens_spec(s@.subrange(pos as int, len as int)) == Seq::<Seq<u8>>::empty());
        assert(seq_views(out@) + Seq::<Seq<u8>>::empty() =~= seq_views(out@));
    }
    out
}

/// Number of UTF-8 encoded characters in `s`: bytes that are not
/// continuation bytes, matching `str::chars().count()` on valid UTF-8.
pub open spec fn is_lead_byte(b: u8) -> bool {
    !(128 <= b && b < 192)
}

pub open spec fn utf8_char_count(s: Seq<u8>) -> nat
    decreases s.len(),
{
    if s.len() == 0 {
        0nat
    } else {
        utf8_char_count(s.drop_last()) + (if is_lead_byte(s.last()) {
            1nat
        } else {
            0nat
        })
    }
}

/// Number of UTF-8 encoded characters in `s`.
pub fn utf8_char_count_exec(s: &[u8]) -> (r: usize)
    ensures
        r == utf8_char_count(s@),
{
    let len = s.len();
    let mut cnt: usize = 0;
    let mut i: usize = 0;
    while i < len
        invariant
            0 <= i <= len,
            len == s@.len(),
            cnt <= i,
            cnt == utf8_char_count(s@.subrange(0, i as int)),
        decreases len - i,
    {
        let b = *vstd::slice::slice_index_get(s, i);
        proof {
            assert(s@.subrange(0, i + 1).drop_last() =~= s@.subrange(0, i as int));
        }
        if b < 128 || b >= 192 {
            cnt = cnt + 1;
        }
        i = i + 1;
    }
    proof {
        assert(s@.subrange(0, len as int) =~= s@);
    }
    cnt
}

/// Appends all of `src` to `dst`.
pub fn append_bytes(dst: &mut Vec<u8>, src: &[u8])
    ensures
        final(dst)@ == old(dst)@ + src@,
{
    let len = src.len();
    let mut i: usize = 0;
    proof {
        assert(dst@ =~= old(dst)@ + src@.subrange(0, 0));
    }
    while i < len
        invariant
            0 <= i <= len,
            len == src@.len(),
            dst@ == old(dst)@ + src@.subrange(0, i as int),
        decreases len - i,
    {
        dst.push(*vstd::slice::slice_index_get(src, i));
        proof {
            assert(dst@ =~= old(dst)@ + src@.subrange(0, i + 1));
        }
        i = i + 1;
    }
    proof {
        assert(src@.subrange(0, len as int) =~= src@);
    }
}

/// The value of the last header line whose name, lower-cased and trimmed,
/// equals `name`. Mirrors collecting `name: value` pairs into a name-keyed
/// mapping where a repeated name's last occurrence wins; lines without a
/// colon are ignored.
pub open spec fn header_lookup(lines: Seq<Seq<u8>>, name: Seq<u8>) -> Option<Seq<u8>>
    decreases lines.len(),
{
    if lines.len() == 0 {
        None
    } else {
        match split_once_spec(lines.last(), 58) {
            Some(kv) => if lower_spec(trim_spec(kv.0)) == name {
                Some(trim_spec(kv.1))
            } else {
                header_lookup(lines.drop_last(), name)
            },
            None => header_lookup(lines.drop_last(), name),
        }
    }
}

/// Looks `name` up among the header lines `lines[start..]`.
pub fn header_lookup_exec(lines: &Vec<Vec<u8>>, start: usize, name: &[u8]) -> (r: Option<Vec<u8>>)
    requires
        start <= lines@.len(),
    ensures
        match r {
            Some(v) => header_lookup(
                seq_views(lines@).subrange(start as int, lines@.len() as int),
                name@,
            ) == Some(v@),
            None => header_lookup(
                seq_views(lines@).subrange(start as int, lines@.len() as int),
                name@,
            ) is None,
        },
{
    let len = lines.len();
    let ghost whole = seq_views(lines@).subrange(start as int, len as int);
    let mut i: usize = len;
    while i > start
        invariant
            start <= i <= len,
            len == lines@.len(),
            whole == seq_views(lines@).subrange(start as int, len as int),
            header_lookup(whole, name@) == header_lookup(
                seq_views(lines@).subrange(start as int, i as int),
                name@,
            ),
        decreases i,
    {
        let ghost cur = seq_views(lines@).subrange(start as int, i as int);
        proof {
            assert(cur.last() == lines@[i - 1]@);
            assert(cur.drop_last() =~= seq_views(lines@).subrange(start as int, i - 1));
        }
        let line: &Vec<u8> = &lines[i - 1];
        match split_once_exec(line.as_slice(), 58) {
            Some(kv) => {
                let key = lower(trim(kv.0.as_slice()).as_slice());
                if bytes_eq(key.as_slice(), name) {
                    let val = trim(kv.1.as_slice());
                    return Some(val);
                }
            },
            None => {},
        }
        i = i - 1;
    }
    proof {
        assert(seq_views(lines@).subrange(start as int, start as int).len() == 0);
    }
    None
}

} // verus!
