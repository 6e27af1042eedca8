//! Verified text utilities shared by the parsers and formatters: line and
//! field splitting, trimming, ASCII case folding, joining, and decimal
//! formatting.

use vstd::prelude::*;

verus! {

broadcast use vstd::seq::group_seq_axioms;

/// Whitespace as the external tool's output uses it.
pub open spec fn is_space(c: char) -> bool {
    c == ' ' || c == '\t' || c == '\r' || c == '\n'
}

/// Number of characters before the first occurrence of `c`, or the whole
/// length when `c` does not occur.
pub open spec fn len_until(s: Seq<char>, c: char) -> int
    decreases s.len(),
{
    if s.len() == 0 {
        0
    } else if s[0] == c {
        0
    } else {
        1 + len_until(s.drop_first(), c)
    }
}

/// `len_until` points at the first occurrence of `c`, or past the end.
pub proof fn lemma_len_until(s: Seq<char>, c: char)
    ensures
        0 <= len_until(s, c) <= s.len(),
        len_until(s, c) < s.len() ==> s[len_until(s, c)] == c,
        forall|i: int| 0 <= i < len_until(s, c) ==> s[i] != c,
    decreases s.len(),
{
    if s.len() == 0 {
    } else if s[0] == c {
    } else {
        lemma_len_until(s.drop_first(), c);
        assert(forall|i: int| 1 <= i < s.len() ==> s[i] == s.drop_first()[i - 1]);
    }
}

/// `len_until` is unchanged by anything at or beyond the first occurrence.
pub proof fn lemma_len_until_concat(p: Seq<char>, r: Seq<char>, c: char)
    requires
        forall|i: int| 0 <= i < p.len() ==> p[i] != c,
        r.len() > 0 ==> r[0] == c,
    ensures
        len_until(p + r, c) == p.len(),
    decreases p.len(),
{
    if p.len() == 0 {
        assert(p + r =~= r);
    } else {
        assert((p + r).drop_first() =~= p.drop_first() + r);
        lemma_len_until_concat(p.drop_first(), r, c);
    }
}

/// The lines of a text, split on `'\n'`, a trailing newline producing no
/// empty final line.
pub open spec fn spec_lines(s: Seq<char>) -> Seq<Seq<char>>
    decreases s.len(),
    via spec_lines_decreases
{
    if s.len() == 0 {
        seq![]
    } else {
        let l = len_until(s, '\n');
        if l == s.len() {
            seq![s]
        } else {
            seq![s.take(l)] + spec_lines(s.skip(l + 1))
        }
    }
}

#[via_fn]
proof fn spec_lines_decreases(s: Seq<char>) {
    lemma_len_until(s, '\n');
}

/// Characters dropped from the front by trimming.
pub open spec fn trim_start(s: Seq<char>) -> Seq<char>
    decreases s.len(),
{
    if s.len() > 0 && is_space(s[0]) {
        trim_start(s.drop_first())
    } else {
        s
    }
}

/// Characters dropped from the back by trimming.
pub open spec fn trim_end(s: Seq<char>) -> Seq<char>
    decreases s.len(),
{
    if s.len() > 0 && is_space(s.last()) {
        trim_end(s.drop_last())
    } else {
        s
    }
}

/// The text with leading and trailing whitespace removed.
pub open spec fn spec_trim(s: Seq<char>) -> Seq<char> {
    trim_end(trim_start(s))
}

/// Length of the whitespace-free word at the front of the text.
pub open spec fn word_len(s: Seq<char>) -> int
    decreases s.len(),
{
    if s.len() > 0 && !is_space(s[0]) && s[0] != '\n' {
        1 + word_len(s.drop_first())
    } else {
        0
    }
}

/// `word_len` stops at the first whitespace, or at the end.
pub proof fn lemma_word_len(s: Seq<char>)
    ensures
        0 <= word_len(s) <= s.len(),
        word_len(s) < s.len() ==> is_space(s[word_len(s)]) || s[word_len(s)] == '\n',
        forall|i: int|
            0 <= i < word_len(s) ==> !is_space(#[trigger] s[i]) && s[i] != '\n',
    decreases s.len(),
{
    if s.len() > 0 && !is_space(s[0]) && s[0] != '\n' {
        lemma_word_len(s.drop_first());
        assert(forall|i: int| 1 <= i < s.len() ==> s[i] == s.drop_first()[i - 1]);
    }
}

/// The whitespace-separated fields of a text.
pub open spec fn spec_fields(s: Seq<char>) -> Seq<Seq<char>>
    decreases s.len(),
    via spec_fields_decreases
{
    if s.len() == 0 {
        seq![]
    } else if is_space(s[0]) || s[0] == '\n' {
        spec_fields(s.drop_first())
    } else {
        seq![s.take(word_len(s))] + spec_fields(s.skip(word_len(s)))
    }
}

#[via_fn]
proof fn spec_fields_decreases(s: Seq<char>) {
    lemma_word_len(s);
}

/// ASCII upper-case letters folded to lower case; everything else as is.
pub open spec fn ascii_lower_char(c: char) -> char {
    if 'A' <= c && c <= 'Z' {
        (((c as u8) + 32) as u8) as char
    } else {
        c
    }
}

/// Character-wise ASCII case folding.
pub open spec fn ascii_lower(s: Seq<char>) -> Seq<char> {
    Seq::new(s.len(), |i: int| ascii_lower_char(s[i]))
}

/// The parts joined with the separator between consecutive parts.
pub open spec fn spec_join(parts: Seq<Seq<char>>, sep: Seq<char>) -> Seq<char>
    decreases parts.len(),
{
    if parts.len() == 0 {
        seq![]
    } else if parts.len() == 1 {
        parts[0]
    } else {
        parts[0] + sep + spec_join(parts.drop_first(), sep)
    }
}

/// The decimal digits of `n`, most significant first.
pub open spec fn spec_u64_digits(n: nat) -> Seq<char>
    decreases n,
{
    if n < 10 {
        seq![(('0' as u8) + (n as u8)) as char]
    } else {
        spec_u64_digits(n / 10) + seq![(('0' as u8) + ((n % 10) as u8)) as char]
    }
}

/// Relies on `String::push`: appends exactly the given character.
#[verifier::external_body]
pub fn string_push(s: &mut String, c: char)
    ensures
        final(s)@ == old(s)@ + seq![c],
{
    s.push(c);
}

/// Character-for-character string equality.
pub fn str_eq(a: &str, b: &str) -> (r: bool)
    ensures
        r == (a@ == b@),
{
    let alen = a.unicode_len();
    let blen = b.unicode_len();
    if alen != blen {
        proof {
            assert(a@ != b@);
        }
        return false;
    }
    let mut i: usize = 0;
    while i < alen
        invariant
            i <= alen,
            alen == a@.len(),
            alen == b@.len(),
            forall|j: int| 0 <= j < i ==> a@[j] == b@[j],
        decreases alen - i,
    {
        if a.get_char(i) != b.get_char(i) {
            proof {
                assert(a@ != b@);
            }
            return false;
        }
        i = i + 1;
    }
    proof {
        assert(a@ =~= b@);
    }
    true
}

/// The text with leading and trailing whitespace removed.
pub fn trim_str<'a>(s: &'a str) -> (r: &'a str)
    ensures
        r@ == spec_trim(s@),
{
    let len = s.unicode_len();
    let mut i: usize = 0;
    proof {
        assert(s@.skip(0) =~= s@);
    }
    while i < len && is_space_char(s.get_char(i))
        invariant
            i <= len,
            len == s@.len(),
            trim_start(s@) == trim_start(s@.skip(i as int)),
        decreases len - i,
    {
        proof {
            assert(s@.skip(i as int).drop_first() =~= s@.skip(i as int + 1));
        }
        i = i + 1;
    }
    let ghost u = s@.skip(i as int);
    proof {
        assert(trim_start(s@) == u);
    }
    let mut j: usize = len;
    proof {
        assert(u.take(len - i as int) =~= u);
    }
    while j > i && is_space_char(s.get_char(j - 1))
        invariant
            i <= j <= len,
            len == s@.len(),
            trim_start(s@) == u,
            u == s@.skip(i as int),
            trim_end(u) == trim_end(u.take(j - i as int)),
        decreases j,
    {
        proof {
            assert(u.take(j - i as int).last() == s@[j - 1]);
            assert(u.take(j - i as int).drop_last() =~= u.take(j - 1 - i as int));
        }
        j = j - 1;
    }
    proof {
        if j > i {
            assert(u.take(j - i as int).last() == s@[j - 1]);
        }
        assert(trim_end(u.take(j - i as int)) == u.take(j - i as int));
    }
    let r = s.substring_char(i, j);
    proof {
        assert(r@ =~= u.take(j - i as int));
    }
    r
}

/// Whether the character counts as whitespace.
pub fn is_space_char(c: char) -> (r: bool)
    ensures
        r == is_space(c),
{
    c == ' ' || c == '\t' || c == '\r' || c == '\n'
}

/// Like `lemma_len_until_concat`, for words: a run of word characters
/// followed by whitespace (or nothing) is the word at the front.
pub proof fn lemma_word_len_concat(p: Seq<char>, r: Seq<char>)
    requires
        forall|i: int|
            0 <= i < p.len() ==> !is_space(#[trigger] p[i]) && p[i] != '\n',
        r.len() > 0 ==> is_space(r[0]) || r[0] == '\n',
    ensures
        word_len(p + r) == p.len(),
    decreases p.len(),
{
    if p.len() == 0 {
        assert(p + r =~= r);
    } else {
        assert((p + r).drop_first() =~= p.drop_first() + r);
        lemma_word_len_concat(p.drop_first(), r);
    }
}

/// The lines of the text, as `spec_lines` describes them.
pub fn split_lines(s: &str) -> (r: Vec<String>)
    ensures
        r.deep_view() == spec_lines(s@),
{
    let len = s.unicode_len();
    let mut done: Vec<String> = Vec::new();
    let mut cur = String::new();
    let mut i: usize = 0;
    proof {
        assert(cur@ + s@.skip(0) =~= s@);
        assert(done.deep_view() + spec_lines(s@) =~= spec_lines(s@));
    }
    while i < len
        invariant
            i <= len,
            len == s@.len(),
            forall|k: int| 0 <= k < cur@.len() ==> cur@[k] != '\n',
            spec_lines(s@) == done.deep_view() + spec_lines(cur@ + s@.skip(i as int)),
        decreases len - i,
    {
        let ghost dv = done.deep_view();
        let ghost pc = cur@;
        let ghost u = pc + s@.skip(i as int);
        let c = s.get_char(i);
        if c == '\n' {
            proof {
                assert(s@.skip(i as int)[0] == '\n');
                lemma_len_until_concat(pc, s@.skip(i as int), '\n');
                assert(u.len() > pc.len());
                assert(u.take(pc.len() as int) =~= pc);
                assert(u.skip(pc.len() as int + 1) =~= s@.skip(i as int + 1));
            }
            done.push(cur);
            cur = String::new();
            proof {
                assert(done.deep_view() =~= dv + seq![pc]);
                assert(cur@ + s@.skip(i as int + 1) =~= s@.skip(i as int + 1));
                assert(done.deep_view() + spec_lines(s@.skip(i as int + 1)) =~= dv + (seq![
                    u.take(pc.len() as int),
                ] + spec_lines(u.skip(pc.len() as int + 1))));
            }
        } else {
            string_push(&mut cur, c);
            proof {
                assert(cur@ + s@.skip(i as int + 1) =~= u);
            }
        }
        i = i + 1;
    }
    proof {
        assert(cur@ + s@.skip(len as int) =~= cur@);
    }
    if cur.as_str().unicode_len() > 0 {
        proof {
            lemma_len_until_concat(cur@, Seq::<char>::empty(), '\n');
            assert(cur@ + Seq::<char>::empty() =~= cur@);
        }
        let ghost dv = done.deep_view();
        let ghost pc = cur@;
        done.push(cur);
        proof {
            assert(done.deep_view() =~= dv + seq![pc]);
            assert(spec_lines(pc) =~= seq![pc]);
        }
    }
    proof {
        assert(done.deep_view() =~= spec_lines(s@));
    }
    done
}

/// The whitespace-separated fields of the text, as `spec_fields` describes
/// them.
pub fn split_fields(s: &str) -> (r: Vec<String>)
    ensures
        r.deep_view() == spec_fields(s@),
{
    let len = s.unicode_len();
    let mut done: Vec<String> = Vec::new();
    let mut cur = String::new();
    let mut i: usize = 0;
    proof {
        assert(cur@ + s@.skip(0) =~= s@);
        assert(done.deep_view() + spec_fields(s@) =~= spec_fields(s@));
    }
    while i < len
        invariant
            i <= len,
            len == s@.len(),
            forall|k: int|
                0 <= k < cur@.len() ==> !is_space(#[trigger] cur@[k]) && cur@[k] != '\n',
            spec_fields(s@) == done.deep_view() + spec_fields(cur@ + s@.skip(i as int)),
        decreases len - i,
    {
        let ghost dv = done.deep_view();
        let ghost pc = cur@;
        let ghost u = pc + s@.skip(i as int);
        let c = s.get_char(i);
        if is_space_char(c) || c == '\n' {
            proof {
                assert(s@.skip(i as int)[0] == c);
                assert(s@.skip(i as int).drop_first() =~= s@.skip(i as int + 1));
            }
            if cur.as_str().unicode_len() > 0 {
                proof {
                    lemma_word_len_concat(pc, s@.skip(i as int));
                    assert(!is_space(u[0]) && u[0] != '\n');
                    assert(u.take(pc.len() as int) =~= pc);
                    assert(u.skip(pc.len() as int) =~= s@.skip(i as int));
                }
                done.push(cur);
                cur = String::new();
                proof {
                    assert(done.deep_view() =~= dv + seq![pc]);
                    assert(cur@ + s@.skip(i as int + 1) =~= s@.skip(i as int + 1));
                    assert(done.deep_view() + spec_fields(s@.skip(i as int + 1)) =~= dv + (seq![
                        u.take(pc.len() as int),
                    ] + spec_fields(u.skip(pc.len() as int))));
                }
            } else {
                proof {
                    assert(u =~= s@.skip(i as int));
                    assert(cur@ + s@.skip(i as int + 1) =~= s@.skip(i as int + 1));
                }
            }
        } else {
            string_push(&mut cur, c);
            proof {
                assert(cur@ + s@.skip(i as int + 1) =~= u);
            }
        }
        i = i + 1;
    }
    proof {
        assert(cur@ + s@.skip(len as int) =~= cur@);
    }
    if cur.as_str().unicode_len() > 0 {
        proof {
            lemma_word_len_concat(cur@, Seq::<char>::empty());
            assert(cur@ + Seq::<char>::empty() =~= cur@);
            assert(cur@.take(cur@.len() as int) =~= cur@);
            assert(spec_fields(cur@.skip(cur@.len() as int)) =~= Seq::<Seq<char>>::empty());
        }
        let ghost dv = done.deep_view();
        let ghost pc = cur@;
        done.push(cur);
        proof {
            assert(done.deep_view() =~= dv + seq![pc]);
            assert(spec_fields(pc) =~= seq![pc]);
        }
    }
    proof {
        assert(done.deep_view() =~= spec_fields(s@));
    }
    done
}

/// The text with every ASCII upper-case letter folded to lower case.
pub fn ascii_lower_string(s: &str) -> (r: String)
    ensures
        r@ == ascii_lower(s@),
{
    let len = s.unicode_len();
    let mut out = String::new();
    let mut i: usize = 0;
    while i < len
        invariant
            i <= len,
            len == s@.len(),
            out@ == ascii_lower(s@.take(i as int)),
        decreases len - i,
    {
        let c = s.get_char(i);
        if 'A' <= c && c <= 'Z' {
            string_push(&mut out, ((c as u8) + 32) as char);
        } else {
            string_push(&mut out, c);
        }
        proof {
            assert(out@ =~= ascii_lower(s@.take(i as int + 1)));
        }
        i = i + 1;
    }
    proof {
        assert(s@.take(len as int) =~= s@);
    }
    out
}

/// Joining after appending one more part appends a separator and the part.
pub proof fn lemma_join_push(parts: Seq<Seq<char>>, sep: Seq<char>, p: Seq<char>)
    requires
        parts.len() > 0,
    ensures
        spec_join(parts.push(p), sep) == spec_join(parts, sep) + sep + p,
    decreases parts.len(),
{
    if parts.len() == 1 {
        assert(parts.push(p)[0] == parts[0]);
        assert(parts.push(p).drop_first() =~= seq![p]);
        assert(spec_join(seq![p], sep) == p);
    } else {
        assert(parts.push(p).drop_first() =~= parts.drop_first().push(p));
        lemma_join_push(parts.drop_first(), sep, p);
        assert(parts.push(p)[0] == parts[0]);
    }
}

/// The parts joined with the separator, as `spec_join` describes.
pub fn join_strings(parts: &Vec<String>, sep: &str) -> (r: String)
    ensures
        r@ == spec_join(parts.deep_view(), sep@),
{
    let mut out = String::new();
    let mut k: usize = 0;
    let n = parts.len();
    proof {
        assert(parts.deep_view().take(0) =~= Seq::<Seq<char>>::empty());
    }
    while k < n
        invariant
            k <= n,
            n == parts@.len(),
            parts.deep_view().len() == n,
            out@ == spec_join(parts.deep_view().take(k as int), sep@),
        decreases n - k,
    {
        let ghost dv = parts.deep_view();
        if k > 0 {
            out.append(sep);
            proof {
                lemma_join_push(dv.take(k as int), sep@, dv[k as int]);
            }
        } else {
            proof {
                assert(spec_join(dv.take(1), sep@) == dv.take(1)[0]);
            }
        }
        out.append(parts[k].as_str());
        proof {
            assert(dv.take(k as int).push(dv[k as int]) =~= dv.take(k as int + 1));
            assert(dv[k as int] == parts@[k as int]@);
        }
        k = k + 1;
    }
    proof {
        assert(parts.deep_view().take(n as int) =~= parts.deep_view());
    }
    out
}

/// Index of the first occurrence of `c`, or the length when `c` does not
/// occur, as `len_until` describes.
pub fn find_char(s: &str, c: char) -> (i: usize)
    ensures
        i == len_until(s@, c),
        i <= s@.len(),
{
    let len = s.unicode_len();
    let mut i: usize = 0;
    proof {
        assert(s@.skip(0) =~= s@);
    }
    while i < len && s.get_char(i) != c
        invariant
            i <= len,
            len == s@.len(),
            len_until(s@, c) == i + len_until(s@.skip(i as int), c),
        decreases len - i,
    {
        proof {
            assert(s@.skip(i as int).drop_first() =~= s@.skip(i as int + 1));
        }
        i = i + 1;
    }
    proof {
        lemma_len_until(s@.skip(i as int), c);
        if i < len {
            assert(s@.skip(i as int)[0] == c);
        }
    }
    i
}

/// True when `needle` occurs somewhere in `hay` as a contiguous run.
pub open spec fn spec_contains(hay: Seq<char>, needle: Seq<char>) -> bool {
    exists|i: int|
        0 <= i <= hay.len() - needle.len() && #[trigger] hay.subrange(i, i + needle.len())
            == needle
}

/// Whether `needle` occurs somewhere in `hay`.
pub fn contains_str(hay: &str, needle: &str) -> (r: bool)
    ensures
        r == spec_contains(hay@, needle@),
{
    let hlen = hay.unicode_len();
    let nlen = needle.unicode_len();
    if nlen > hlen {
        proof {
            assert(!spec_contains(hay@, needle@));
        }
        return false;
    }
    if nlen == 0 {
        proof {
            assert(hay@.subrange(0, 0 + needle@.len() as int) =~= needle@);
        }
        return true;
    }
    let last = hlen - nlen;
    let mut i: usize = 0;
    while i <= last
        invariant
            i <= last + 1,
            1 <= nlen,
            last == hlen - nlen,
            hlen == hay@.len(),
            nlen == needle@.len(),
            forall|j: int|
                0 <= j < i ==> #[trigger] hay@.subrange(j, j + needle@.len()) != needle@,
        decreases last - i + 1,
    {
        let cand = hay.substring_char(i, i + nlen);
        if str_eq(cand, needle) {
            proof {
                assert(hay@.subrange(i as int, i as int + needle@.len()) == needle@);
            }
            return true;
        }
        i = i + 1;
    }
    proof {
        assert(!spec_contains(hay@, needle@));
    }
    false
}

/// Appends one owned copy of the text to an argument vector.
pub fn push_string(v: &mut Vec<String>, s: &str)
    ensures
        final(v).deep_view() == old(v).deep_view().push(s@),
{
    let ghost dv = v.deep_view();
    v.push(String::from_str(s));
    proof {
        assert(v.deep_view() =~= dv.push(s@));
    }
}

/// The decimal rendering of `n`, as `spec_u64_digits` describes.
pub fn u64_to_string(n: u64) -> (r: String)
    ensures
        r@ == spec_u64_digits(n as nat),
    decreases n,
{
    if n < 10 {
        let mut s = String::new();
        string_push(&mut s, (48 + (n as u8)) as char);
        proof {
            assert(s@ =~= spec_u64_digits(n as nat));
        }
        s
    } else {
        let mut s = u64_to_string(n / 10);
        string_push(&mut s, (48 + ((n % 10) as u8)) as char);
        proof {
            assert(s@ =~= spec_u64_digits(n as nat));
        }
        s
    }
}

} // verus!
