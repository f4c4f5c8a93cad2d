//! Byte-string helpers shared by the codec and the request pipeline.
use vstd::prelude::*;
use crate::fastcgi::slice_to_vec;

verus! {

pub open spec fn ascii_bytes(s: Seq<char>) -> Seq<u8> {
    s.map_values(|c: char| c as u8)
}

/// The bytes of an ASCII string.
pub fn ascii(s: &str) -> (r: Vec<u8>)
    requires
        s.is_ascii(),
    ensures
        r@ == ascii_bytes(s@),
{
    let n = s.unicode_len();
    let mut r: Vec<u8> = Vec::with_capacity(n);
    let mut i: usize = 0;
    while i < n
        invariant
            n == s@.len(),
            i <= n,
            s.is_ascii(),
            r@ == ascii_bytes(s@.subrange(0, i as int)),
        decreases n - i,
    {
        r.push(s.get_ascii(i));
        i += 1;
        assert(r@ =~= ascii_bytes(s@.subrange(0, i as int)));
    }
    assert(s@.subrange(0, n as int) =~= s@);
    r
}

/// The decimal digits of `n`, most significant first.
pub open spec fn decimal(n: nat) -> Seq<u8>
    decreases n,
{
    if n < 10 {
        seq![(48 + n) as u8]
    } else {
        decimal(n / 10) + seq![(48 + n % 10) as u8]
    }
}

/// Appends the decimal digits of `n`.
pub fn push_decimal(out: &mut Vec<u8>, n: u64)
    ensures
        final(out)@ == old(out)@ + decimal(n as nat),
    decreases n,
{
    if n >= 10 {
        push_decimal(out, n / 10);
    }
    out.push((48 + n % 10) as u8);
    assert(final(out)@ =~= old(out)@ + decimal(n as nat));
}

/// The decimal digits of `n`.
pub fn decimal_of(n: u64) -> (r: Vec<u8>)
    ensures
        r@ == decimal(n as nat),
{
    let mut r: Vec<u8> = Vec::new();
    push_decimal(&mut r, n);
    assert(r@ =~= decimal(n as nat));
    r
}

/// `true` when the two byte strings are equal.
pub fn bytes_eq(a: &[u8], b: &[u8]) -> (r: bool)
    ensures
        r == (a@ == b@),
{
    if a.len() != b.len() {
        return false;
    }
    let mut i: usize = 0;
    while i < a.len()
        invariant
            a@.len() == b@.len(),
            i <= a@.len(),
            a@.subrange(0, i as int) == b@.subrange(0, i as int),
        decreases a@.len() - i,
    {
        if a[i] != b[i] {
            assert(a@[i as int] != b@[i as int]);
            return false;
        }
        i += 1;
        assert(a@.subrange(0, i as int) =~= b@.subrange(0, i as int)) by {
            assert(a@.subrange(0, i as int) =~= a@.subrange(0, i - 1).push(a@[i - 1]));
            assert(b@.subrange(0, i as int) =~= b@.subrange(0, i - 1).push(b@[i - 1]));
        }
    }
    assert(a@ =~= a@.subrange(0, a@.len() as int));
    assert(b@ =~= b@.subrange(0, b@.len() as int));
    true
}

/// `true` when `pat` occurs in `s` at `at`.
pub open spec fn occurs_at(s: Seq<u8>, pat: Seq<u8>, at: int) -> bool {
    0 <= at && at + pat.len() <= s.len() && s.subrange(at, at + pat.len()) == pat
}

/// `true` when `pat` occurs in `s` at `at`.
pub fn matches_at(s: &[u8], pat: &[u8], at: usize) -> (r: bool)
    ensures
        r == occurs_at(s@, pat@, at as int),
{
    if at > s.len() || pat.len() > s.len() - at {
        return false;
    }
    let mut i: usize = 0;
    while i < pat.len()
        invariant
            at + pat@.len() <= s@.len(),
            s@.len() == s.len(),
            i <= pat@.len(),
            forall|k: int| 0 <= k < i ==> s@[at + k] == pat@[k],
        decreases pat@.len() - i,
    {
        if s[at + i] != pat[i] {
            assert(s@.subrange(at as int, at + pat@.len())[i as int] != pat@[i as int]);
            return false;
        }
        i += 1;
    }
    assert(s@.subrange(at as int, at + pat@.len()) =~= pat@);
    true
}

/// `true` when `s` starts with `prefix`.
pub fn starts_with(s: &[u8], prefix: &[u8]) -> (r: bool)
    ensures
        r == prefix@.is_prefix_of(s@),
{
    let r = matches_at(s, prefix, 0);
    assert(r == prefix@.is_prefix_of(s@)) by {
        if prefix@.len() <= s@.len() {
            assert(prefix@.is_prefix_of(s@) <==> s@.subrange(0, prefix@.len() as int) =~= prefix@);
        }
    }
    r
}

/// Index of the first `b` in `s` at or after `from`.
pub open spec fn first_of(s: Seq<u8>, b: u8, from: int) -> Option<int>
    decreases s.len() - from,
{
    if from < 0 || from >= s.len() {
        None
    } else if s[from] == b {
        Some(from)
    } else {
        first_of(s, b, from + 1)
    }
}

/// Index of the first `b` in `s` at or after `from`.
pub fn find_byte(s: &[u8], b: u8, from: usize) -> (r: Option<usize>)
    ensures
        r is None <==> first_of(s@, b, from as int) is None,
        r matches Some(i) ==> first_of(s@, b, from as int) == Some(i as int) && from <= i < s@.len()
            && s@[i as int] == b,
{
    let mut i = from;
    while i < s.len()
        invariant
            from <= i,
            first_of(s@, b, from as int) == first_of(s@, b, i as int),
        decreases s@.len() - i,
    {
        if s[i] == b {
            return Some(i);
        }
        i += 1;
    }
    None
}

/// The pieces of `s` between occurrences of `sep`, at most `n` of them:
/// the last piece holds the rest (as `str::splitn`).
pub open spec fn split_n(s: Seq<u8>, sep: u8, n: nat) -> Seq<Seq<u8>>
    decreases n,
{
    if n <= 1 {
        seq![s]
    } else {
        match first_of(s, sep, 0) {
            None => seq![s],
            Some(i) => seq![s.subrange(0, i)] + split_n(s.subrange(i + 1, s.len() as int), sep, (n - 1) as nat),
        }
    }
}

pub open spec fn bytes_view(v: Seq<Vec<u8>>) -> Seq<Seq<u8>> {
    v.map_values(|x: Vec<u8>| x@)
}

/// The pieces of `s` between occurrences of `sep`, at most `n` of them.
pub fn splitn(s: &[u8], sep: u8, n: usize) -> (r: Vec<Vec<u8>>)
    requires
        n >= 1,
    ensures
        bytes_view(r@) == split_n(s@, sep, n as nat),
        r@.len() >= 1,
{
    let mut out: Vec<Vec<u8>> = Vec::new();
    let mut start: usize = 0;
    let mut left = n;
    let mut going = true;
    let slen = s.len();
    assert(s@.subrange(0, s@.len() as int) =~= s@);
    assert(bytes_view(out@) + split_n(s@, sep, n as nat) =~= split_n(s@, sep, n as nat));
    while going && left > 1
        invariant
            slen == s@.len(),
            start <= s@.len(),
            1 <= left <= n,
            split_n(s@, sep, n as nat) == bytes_view(out@) + split_n(
                s@.subrange(start as int, s@.len() as int),
                sep,
                left as nat,
            ),
            !going ==> first_of(s@.subrange(start as int, s@.len() as int), sep, 0) is None,
        decreases left + if going {
            1int
        } else {
            0int
        },
    {
        let ghost rest = s@.subrange(start as int, s@.len() as int);
        proof {
            lemma_first_of_shift(s@, sep, start as int, 0);
        }
        match find_byte(s, sep, start) {
            None => {
                going = false;
            },
            Some(i) => {
                assert(i < s@.len());
                let ghost tail = s@.subrange(i + 1, s@.len() as int);
                proof {
                    assert(rest.subrange(0, i - start) =~= s@.subrange(start as int, i as int));
                    assert(rest.subrange(i - start + 1, rest.len() as int) =~= tail);
                    assert(first_of(rest, sep, 0) == Some(i - start));
                    assert(split_n(rest, sep, left as nat) == seq![rest.subrange(0, i - start)]
                        + split_n(rest.subrange(i - start + 1, rest.len() as int), sep, (left - 1) as nat));
                    assert(split_n(rest, sep, left as nat) == seq![s@.subrange(start as int, i as int)]
                        + split_n(tail, sep, (left - 1) as nat));
                }
                let piece = slice_to_vec(s, start, i);
                let ghost before = out@;
                out.push(piece);
                assert(bytes_view(out@) =~= bytes_view(before).push(piece@));
                proof {
                    assert(bytes_view(before) + (seq![piece@] + split_n(tail, sep, (left - 1) as nat))
                        =~= bytes_view(out@) + split_n(tail, sep, (left - 1) as nat));
                }
                start = i + 1;
                left -= 1;
            },
        }
    }
    let ghost before = out@;
    let last = slice_to_vec(s, start, s.len());
    out.push(last);
    proof {
        let rest = s@.subrange(start as int, s@.len() as int);
        assert(split_n(rest, sep, left as nat) == seq![rest]);
        assert(bytes_view(out@) =~= bytes_view(before) + seq![rest]);
    }
    out
}

proof fn lemma_first_of_shift(s: Seq<u8>, b: u8, start: int, k: int)
    requires
        0 <= start <= s.len(),
        0 <= k,
    ensures
        first_of(s.subrange(start, s.len() as int), b, k) == (match first_of(s, b, start + k) {
            None => None,
            Some(i) => Some(i - start),
        }),
    decreases s.len() - start - k,
{
    if start + k < s.len() {
        lemma_first_of_shift(s, b, start, k + 1);
    }
}

/// `a` followed by `b`.
pub fn concat(a: &[u8], b: &[u8]) -> (r: Vec<u8>)
    ensures
        r@ == a@ + b@,
{
    let mut r = slice_to_vec(a, 0, a.len());
    assert(a@.subrange(0, a@.len() as int) =~= a@);
    let mut i: usize = 0;
    while i < b.len()
        invariant
            i <= b@.len(),
            r@ == a@ + b@.subrange(0, i as int),
        decreases b@.len() - i,
    {
        r.push(b[i]);
        i += 1;
        assert(r@ =~= a@ + b@.subrange(0, i as int));
    }
    assert(b@.subrange(0, b@.len() as int) =~= b@);
    r
}

/// Value of a string of decimal digits.
pub open spec fn digits_value(s: Seq<u8>) -> nat
    decreases s.len(),
{
    if s.len() == 0 {
        0
    } else {
        digits_value(s.drop_last()) * 10 + (s.last() - 48) as nat
    }
}

pub open spec fn all_digits(s: Seq<u8>) -> bool {
    forall|i: int| 0 <= i < s.len() ==> 48 <= #[trigger] s[i] <= 57
}

/// The `u8` that a string of decimal digits writes; `None` when it is
/// empty, holds another byte, or is over 255.
pub open spec fn u8_of(s: Seq<u8>) -> Option<u8> {
    if s.len() > 0 && all_digits(s) && digits_value(s) <= 255 {
        Some(digits_value(s) as u8)
    } else {
        None
    }
}

/// Reads a `u8` written in decimal digits.
pub fn parse_u8(s: &[u8]) -> (r: Option<u8>)
    ensures
        r == u8_of(s@),
{
    if s.len() == 0 {
        return None;
    }
    let mut v: u32 = 0;
    let mut i: usize = 0;
    while i < s.len()
        invariant
            i <= s@.len(),
            all_digits(s@.subrange(0, i as int)),
            v == digits_value(s@.subrange(0, i as int)),
            v <= 255,
        decreases s@.len() - i,
    {
        let c = s[i];
        assert(s@.subrange(0, i + 1).drop_last() =~= s@.subrange(0, i as int));
        if c < 48 || c > 57 {
            assert(!all_digits(s@)) by {
                assert(s@[i as int] == c);
            }
            return None;
        }
        v = v * 10 + (c - 48) as u32;
        i += 1;
        if v > 255 {
            proof {
                lemma_digits_grow(s@, i as int);
            }
            return None;
        }
    }
    assert(s@.subrange(0, s@.len() as int) =~= s@);
    Some(v as u8)
}

/// The `u16` that a string of decimal digits writes; `None` when it is
/// empty, holds another byte, or is over 65535.
pub open spec fn u16_of(s: Seq<u8>) -> Option<u16> {
    if s.len() > 0 && all_digits(s) && digits_value(s) <= 65535 {
        Some(digits_value(s) as u16)
    } else {
        None
    }
}

/// Reads a `u16` written in decimal digits.
pub fn parse_u16(s: &[u8]) -> (r: Option<u16>)
    ensures
        r == u16_of(s@),
{
    if s.len() == 0 {
        return None;
    }
    let mut v: u32 = 0;
    let mut i: usize = 0;
    while i < s.len()
        invariant
            i <= s@.len(),
            all_digits(s@.subrange(0, i as int)),
            v == digits_value(s@.subrange(0, i as int)),
            v <= 65535,
        decreases s@.len() - i,
    {
        let c = s[i];
        assert(s@.subrange(0, i + 1).drop_last() =~= s@.subrange(0, i as int));
        if c < 48 || c > 57 {
            assert(!all_digits(s@)) by {
                assert(s@[i as int] == c);
            }
            return None;
        }
        v = v * 10 + (c - 48) as u32;
        i += 1;
        if v > 65535 {
            proof {
                lemma_digits_grow(s@, i as int);
            }
            return None;
        }
    }
    assert(s@.subrange(0, s@.len() as int) =~= s@);
    Some(v as u16)
}

proof fn lemma_digits_grow(s: Seq<u8>, i: int)
    requires
        0 < i <= s.len(),
    ensures
        all_digits(s) ==> digits_value(s) >= digits_value(s.subrange(0, i)),
    decreases s.len() - i,
{
    if i < s.len() && all_digits(s) {
        lemma_digits_grow(s, i + 1);
        assert(s.subrange(0, i + 1).drop_last() =~= s.subrange(0, i));
    }
    if i == s.len() {
        assert(s.subrange(0, i) =~= s);
    }
}

/// First position at or after `from` where `pat` occurs in `s`.
pub open spec fn find_from(s: Seq<u8>, pat: Seq<u8>, from: int) -> Option<int>
    decreases s.len() + 1 - from,
{
    if from < 0 || from + pat.len() > s.len() {
        None
    } else if occurs_at(s, pat, from) {
        Some(from)
    } else {
        find_from(s, pat, from + 1)
    }
}

/// First position where `pat` occurs in `s`.
pub fn find(s: &[u8], pat: &[u8]) -> (r: Option<usize>)
    ensures
        r is None <==> find_from(s@, pat@, 0) is None,
        r matches Some(i) ==> find_from(s@, pat@, 0) == Some(i as int) && i + pat@.len() <= s@.len(),
{
    if pat.len() == 0 {
        assert(s@.subrange(0, 0) =~= pat@);
        return Some(0);
    }
    if pat.len() > s.len() {
        return None;
    }
    let last = s.len() - pat.len();
    let mut i: usize = 0;
    while i <= last
        invariant
            last == s@.len() - pat@.len(),
            last < s@.len(),
            s@.len() == s.len(),
            pat@.len() > 0,
            find_from(s@, pat@, 0) == find_from(s@, pat@, i as int),
        decreases s@.len() + 1 - i,
    {
        if matches_at(s, pat, i) {
            return Some(i);
        }
        i += 1;
    }
    None
}

/// `s` with every occurrence of `pat` replaced by `rep`, scanning left to
/// right without overlap (as `str::replace`); `pat` is not empty.
pub open spec fn replace_all(s: Seq<u8>, pat: Seq<u8>, rep: Seq<u8>) -> Seq<u8>
    decreases s.len(),
{
    if s.len() == 0 || pat.len() == 0 {
        s
    } else if occurs_at(s, pat, 0) {
        rep + replace_all(s.skip(pat.len() as int), pat, rep)
    } else {
        seq![s[0]] + replace_all(s.skip(1), pat, rep)
    }
}

proof fn lemma_occurs_skip(s: Seq<u8>, pat: Seq<u8>, i: int)
    requires
        0 <= i <= s.len(),
    ensures
        occurs_at(s.skip(i), pat, 0) == occurs_at(s, pat, i),
{
    if occurs_at(s, pat, i) {
        assert(s.skip(i).subrange(0, pat.len() as int) =~= s.subrange(i, i + pat.len()));
    }
    if occurs_at(s.skip(i), pat, 0) {
        assert(s.skip(i).subrange(0, pat.len() as int) =~= s.subrange(i, i + pat.len()));
    }
}

/// `s` with every occurrence of `pat` replaced by `rep`.
pub fn replace(s: &[u8], pat: &[u8], rep: &[u8]) -> (r: Vec<u8>)
    requires
        pat@.len() > 0,
    ensures
        r@ == replace_all(s@, pat@, rep@),
{
    let mut out: Vec<u8> = Vec::new();
    let mut i: usize = 0;
    assert(s@.skip(0) =~= s@);
    while i < s.len()
        invariant
            i <= s@.len(),
            pat@.len() > 0,
            replace_all(s@, pat@, rep@) == out@ + replace_all(s@.skip(i as int), pat@, rep@),
        decreases s@.len() - i,
    {
        let ghost rest = s@.skip(i as int);
        proof {
            lemma_occurs_skip(s@, pat@, i as int);
        }
        if matches_at(s, pat, i) {
            let ghost before = out@;
            let mut j: usize = 0;
            while j < rep.len()
                invariant
                    j <= rep@.len(),
                    out@ == before + rep@.subrange(0, j as int),
                decreases rep@.len() - j,
            {
                out.push(rep[j]);
                j += 1;
                assert(out@ =~= before + rep@.subrange(0, j as int));
            }
            assert(rep@.subrange(0, rep@.len() as int) =~= rep@);
            assert(rest.skip(pat@.len() as int) =~= s@.skip(i + pat@.len()));
            assert(before + (rep@ + replace_all(s@.skip(i + pat@.len()), pat@, rep@)) =~= out@
                + replace_all(s@.skip(i + pat@.len()), pat@, rep@));
            i = i + pat.len();
        } else {
            let ghost before = out@;
            out.push(s[i]);
            assert(rest.skip(1) =~= s@.skip(i + 1));
            assert(rest[0] == s@[i as int]);
            assert(before + (seq![s@[i as int]] + replace_all(s@.skip(i + 1), pat@, rep@)) =~= out@
                + replace_all(s@.skip(i + 1), pat@, rep@));
            i = i + 1;
        }
    }
    assert(s@.skip(i as int) =~= Seq::<u8>::empty());
    assert(out@ + Seq::<u8>::empty() =~= out@);
    out
}

/// The HTML entity written for a byte, or the byte itself.
pub open spec fn html_byte(c: u8) -> Seq<u8> {
    if c == 38 {
        ascii_bytes("&amp;"@)
    } else if c == 34 {
        ascii_bytes("&quot;"@)
    } else if c == 39 {
        ascii_bytes("&apos;"@)
    } else if c == 60 {
        ascii_bytes("&lt;"@)
    } else if c == 62 {
        ascii_bytes("&gt;"@)
    } else {
        seq![c]
    }
}

/// `s` with `&`, `"`, `'`, `<` and `>` written as HTML entities.
pub open spec fn html_escaped(s: Seq<u8>) -> Seq<u8>
    decreases s.len(),
{
    if s.len() == 0 {
        s
    } else {
        html_escaped(s.drop_last()) + html_byte(s.last())
    }
}

/// Writes `&`, `"`, `'`, `<` and `>` as HTML entities.
pub fn htmlencode(text: &[u8]) -> (r: Vec<u8>)
    ensures
        r@ == html_escaped(text@),
{
    proof {
        reveal_strlit("&amp;");
        reveal_strlit("&quot;");
        reveal_strlit("&apos;");
        reveal_strlit("&lt;");
        reveal_strlit("&gt;");
    }
    let amp = ascii("&amp;");
    let quot = ascii("&quot;");
    let apos = ascii("&apos;");
    let lt = ascii("&lt;");
    let gt = ascii("&gt;");
    let mut out: Vec<u8> = Vec::new();
    let mut i: usize = 0;
    while i < text.len()
        invariant
            i <= text@.len(),
            out@ == html_escaped(text@.subrange(0, i as int)),
            amp@ == ascii_bytes("&amp;"@),
            quot@ == ascii_bytes("&quot;"@),
            apos@ == ascii_bytes("&apos;"@),
            lt@ == ascii_bytes("&lt;"@),
            gt@ == ascii_bytes("&gt;"@),
        decreases text@.len() - i,
    {
        let c = text[i];
        let ghost before = out@;
        if c == 38 {
            out = concat(out.as_slice(), amp.as_slice());
        } else if c == 34 {
            out = concat(out.as_slice(), quot.as_slice());
        } else if c == 39 {
            out = concat(out.as_slice(), apos.as_slice());
        } else if c == 60 {
            out = concat(out.as_slice(), lt.as_slice());
        } else if c == 62 {
            out = concat(out.as_slice(), gt.as_slice());
        } else {
            out.push(c);
        }
        assert(text@.subrange(0, i + 1).drop_last() =~= text@.subrange(0, i as int));
        assert(out@ =~= before + html_byte(c));
        i += 1;
    }
    assert(text@.subrange(0, text@.len() as int) =~= text@);
    out
}

/// The pieces of `s` between occurrences of `pat`, at most `n` of them:
/// the last piece holds the rest (as `str::splitn`); `pat` is not empty.
pub open spec fn split_pat(s: Seq<u8>, pat: Seq<u8>, n: nat) -> Seq<Seq<u8>>
    decreases n,
{
    if n <= 1 || pat.len() == 0 {
        seq![s]
    } else {
        match find_from(s, pat, 0) {
            None => seq![s],
            Some(i) => seq![s.subrange(0, i)] + split_pat(
                s.subrange(i + pat.len(), s.len() as int),
                pat,
                (n - 1) as nat,
            ),
        }
    }
}

/// The pieces of `s` between occurrences of `pat`, at most `n` of them.
pub fn split_by(s: &[u8], pat: &[u8], n: usize) -> (r: Vec<Vec<u8>>)
    requires
        n >= 1,
        pat@.len() > 0,
    ensures
        bytes_view(r@) == split_pat(s@, pat@, n as nat),
        r@.len() >= 1,
{
    let mut out: Vec<Vec<u8>> = Vec::new();
    let mut rest = slice_to_vec(s, 0, s.len());
    assert(s@.subrange(0, s@.len() as int) =~= s@);
    let mut left = n;
    let mut going = true;
    assert(bytes_view(out@) + split_pat(s@, pat@, n as nat) =~= split_pat(s@, pat@, n as nat));
    while going && left > 1
        invariant
            1 <= left <= n,
            pat@.len() > 0,
            split_pat(s@, pat@, n as nat) == bytes_view(out@) + split_pat(rest@, pat@, left as nat),
            !going ==> find_from(rest@, pat@, 0) is None,
        decreases left + if going {
            1int
        } else {
            0int
        },
    {
        match find(rest.as_slice(), pat) {
            None => {
                going = false;
            },
            Some(i) => {
                let piece = slice_to_vec(rest.as_slice(), 0, i);
                assert(rest@.len() == rest.len());
                let tail = slice_to_vec(rest.as_slice(), i + pat.len(), rest.len());
                let ghost before = out@;
                out.push(piece);
                assert(bytes_view(out@) =~= bytes_view(before).push(piece@));
                assert(bytes_view(before) + (seq![piece@] + split_pat(tail@, pat@, (left - 1) as nat))
                    =~= bytes_view(out@) + split_pat(tail@, pat@, (left - 1) as nat));
                rest = tail;
                left -= 1;
            },
        }
    }
    let ghost before = out@;
    let ghost last = rest@;
    out.push(rest);
    assert(split_pat(last, pat@, left as nat) == seq![last]);
    assert(bytes_view(out@) =~= bytes_view(before) + seq![last]);
    out
}

/// `true` when `s` ends with `suffix`.
pub fn ends_with(s: &[u8], suffix: &[u8]) -> (r: bool)
    ensures
        r == (suffix@.len() <= s@.len() && s@.subrange(s@.len() - suffix@.len(), s@.len() as int)
            == suffix@),
{
    if suffix.len() > s.len() {
        return false;
    }
    let r = matches_at(s, suffix, s.len() - suffix.len());
    r
}

/// Appends the decimal text of a signed integer.
pub fn push_signed(out: &mut Vec<u8>, v: i64)
    ensures
        final(out)@ == old(out)@ + crate::session::signed_decimal(v as int),
{
    if v < 0 {
        out.push(45);
        let m: u64 = if v == i64::MIN { 9223372036854775808u64 } else { (-v) as u64 };
        push_decimal(out, m);
    } else {
        push_decimal(out, v as u64);
    }
    assert(final(out)@ =~= old(out)@ + crate::session::signed_decimal(v as int));
}

} // verus!
