//! Text helpers: decimal rendering, whitespace handling, splitting and
//! joining, each stated over `Seq<char>`.

use vstd::prelude::*;

verus! {

/// The character of a decimal digit.
pub open spec fn digit_char(d: nat) -> char {
    (d + 48) as char
}

/// Decimal text of a natural number, without sign or leading zeros.
pub open spec fn nat_text(n: nat) -> Seq<char>
    decreases n,
{
    if n < 10 {
        seq![digit_char(n)]
    } else {
        nat_text(n / 10).push(digit_char(n % 10))
    }
}

/// Decimal text of an integer, as `{}` prints it.
pub open spec fn int_text(n: int) -> Seq<char> {
    if n < 0 {
        seq!['-'] + nat_text((-n) as nat)
    } else {
        nat_text(n as nat)
    }
}

/// Appends one character to a string (`String::push`).
#[verifier::external_body]
pub(crate) fn push_char(s: &mut String, c: char)
    ensures
        final(s)@ == old(s)@.push(c),
{
    s.push(c);
}

fn digit(d: u64) -> (c: char)
    requires
        d < 10,
    ensures
        c == digit_char(d as nat),
{
    let b: u8 = d as u8 + 48;
    b as char
}

/// Appends the decimal text of `n` to `out`.
pub fn push_u64(out: &mut String, n: u64)
    ensures
        final(out)@ == old(out)@ + nat_text(n as nat),
    decreases n,
{
    if n >= 10 {
        push_u64(out, n / 10);
    }
    push_char(out, digit(n % 10));
    assert(out@ =~= old(out)@ + nat_text(n as nat));
}


/// Appends the decimal text of `n` to `out`, with a minus sign when negative.
pub fn push_i64(out: &mut String, n: i64)
    ensures
        final(out)@ == old(out)@ + int_text(n as int),
{
    if n < 0 {
        push_char(out, '-');
        let m: u64 = if n == i64::MIN {
            9223372036854775808u64
        } else {
            (-n) as u64
        };
        push_u64(out, m);
        assert(out@ =~= old(out)@ + int_text(n as int));
    } else {
        push_u64(out, n as u64);
    }
}

/// Decimal text of `n` zero-padded to two places, as `{:02}` prints it.
pub open spec fn pad2_text(n: int) -> Seq<char> {
    if 0 <= n < 10 {
        seq!['0'] + nat_text(n as nat)
    } else {
        int_text(n)
    }
}

/// Appends `n` zero-padded to two places.
pub fn push_pad2(out: &mut String, n: i64)
    ensures
        final(out)@ == old(out)@ + pad2_text(n as int),
{
    if 0 <= n && n < 10 {
        push_char(out, '0');
        push_u64(out, n as u64);
        assert(out@ =~= old(out)@ + pad2_text(n as int));
    } else {
        push_i64(out, n);
    }
}

/// A string holding the decimal text of `n`.
pub fn u64_text(n: u64) -> (s: String)
    ensures
        s@ == nat_text(n as nat),
{
    let mut s = String::new();
    push_u64(&mut s, n);
    assert(s@ =~= nat_text(n as nat));
    s
}

/// Unicode `White_Space`, the set that `char::is_whitespace` tests.
pub open spec fn is_ws(c: char) -> bool {
    let u = c as u32;
    ||| 0x09 <= u <= 0x0d
    ||| u == 0x20
    ||| u == 0x85
    ||| u == 0xa0
    ||| u == 0x1680
    ||| 0x2000 <= u <= 0x200a
    ||| u == 0x2028
    ||| u == 0x2029
    ||| u == 0x202f
    ||| u == 0x205f
    ||| u == 0x3000
}

/// Executable test for [`is_ws`].
pub fn is_whitespace(c: char) -> (b: bool)
    ensures
        b == is_ws(c),
{
    let u = c as u32;
    (0x09 <= u && u <= 0x0d) || u == 0x20 || u == 0x85 || u == 0xa0 || u == 0x1680 || (0x2000
        <= u && u <= 0x200a) || u == 0x2028 || u == 0x2029 || u == 0x202f || u == 0x205f || u
        == 0x3000
}

/// `s` without leading whitespace.
pub open spec fn trim_start(s: Seq<char>) -> Seq<char>
    decreases s.len(),
{
    if s.len() > 0 && is_ws(s[0]) {
        trim_start(s.drop_first())
    } else {
        s
    }
}

/// `s` without trailing whitespace.
pub open spec fn trim_end(s: Seq<char>) -> Seq<char>
    decreases s.len(),
{
    if s.len() > 0 && is_ws(s.last()) {
        trim_end(s.drop_last())
    } else {
        s
    }
}

/// `s` without whitespace at either end, as `str::trim` gives it.
pub open spec fn trim(s: Seq<char>) -> Seq<char> {
    trim_end(trim_start(s))
}

/// The text of `s` between the char indices `from` and `to`.
fn substring(s: &str, from: usize, to: usize) -> (r: String)
    requires
        from <= to <= s@.len(),
    ensures
        r@ == s@.subrange(from as int, to as int),
{
    String::from_str(s.substring_char(from, to))
}

proof fn lemma_trim_start_skip(s: Seq<char>, i: int)
    requires
        0 <= i <= s.len(),
        forall|j: int| 0 <= j < i ==> is_ws(#[trigger] s[j]),
    ensures
        trim_start(s) == trim_start(s.skip(i)),
    decreases i,
{
    if i > 0 {
        assert(is_ws(s[0]));
        lemma_trim_start_skip(s.drop_first(), i - 1);
        assert(s.drop_first().skip(i - 1) =~= s.skip(i));
    } else {
        assert(s.skip(0) =~= s);
    }
}

proof fn lemma_trim_end_take(s: Seq<char>, k: int)
    requires
        0 <= k <= s.len(),
        forall|j: int| k <= j < s.len() ==> is_ws(#[trigger] s[j]),
    ensures
        trim_end(s) == trim_end(s.take(k)),
    decreases s.len() - k,
{
    if k < s.len() {
        assert(is_ws(s.last()));
        lemma_trim_end_take(s.drop_last(), k);
        assert(s.drop_last().take(k) =~= s.take(k));
    } else {
        assert(s.take(k) =~= s);
    }
}

/// `s` with the whitespace at both ends removed (`str::trim`).
pub fn trim_text(s: &str) -> (r: String)
    ensures
        r@ == trim(s@),
{
    let n = s.unicode_len();
    let mut i: usize = 0;
    while i < n && is_whitespace(s.get_char(i))
        invariant
            n == s@.len(),
            i <= n,
            forall|j: int| 0 <= j < i ==> is_ws(#[trigger] s@[j]),
        decreases n - i,
    {
        i = i + 1;
    }
    proof {
        lemma_trim_start_skip(s@, i as int);
    }
    let ghost t = s@.skip(i as int);
    assert(i < n ==> !is_ws(t[0]));
    assert(trim_start(s@) == t);
    let mut k: usize = n;
    while k > i && is_whitespace(s.get_char(k - 1))
        invariant
            n == s@.len(),
            i <= k <= n,
            forall|j: int| k <= j < n ==> is_ws(#[trigger] s@[j]),
        decreases k - i,
    {
        k = k - 1;
    }
    proof {
        lemma_trim_end_take(t, k - i);
        let u = t.take(k - i);
        assert(u =~= s@.subrange(i as int, k as int));
        assert(k > i ==> !is_ws(u.last()));
    }
    substring(s, i, k)
}


/// Scan state of whitespace splitting: the words completed so far and the
/// word being read.
pub open spec fn words_scan(s: Seq<char>) -> (Seq<Seq<char>>, Seq<char>)
    decreases s.len(),
{
    if s.len() == 0 {
        (seq![], seq![])
    } else {
        let (done, cur) = words_scan(s.drop_last());
        let c = s.last();
        if is_ws(c) {
            if cur.len() > 0 {
                (done.push(cur), seq![])
            } else {
                (done, seq![])
            }
        } else {
            (done, cur.push(c))
        }
    }
}

/// The maximal runs of non-whitespace characters of `s`, in order, as
/// `str::split_whitespace` yields them.
pub open spec fn words(s: Seq<char>) -> Seq<Seq<char>> {
    let (done, cur) = words_scan(s);
    if cur.len() > 0 {
        done.push(cur)
    } else {
        done
    }
}

/// The views of a vector of strings.
pub open spec fn views(v: Seq<String>) -> Seq<Seq<char>> {
    v.map_values(|w: String| w@)
}

/// Splits `s` at whitespace, dropping empty pieces (`str::split_whitespace`).
pub fn split_words(s: &str) -> (r: Vec<String>)
    ensures
        views(r@) == words(s@),
{
    let n = s.unicode_len();
    let mut done: Vec<String> = Vec::new();
    let mut cur = String::new();
    let mut i: usize = 0;
    while i < n
        invariant
            n == s@.len(),
            i <= n,
            (views(done@), cur@) == words_scan(s@.take(i as int)),
        decreases n - i,
    {
        let c = s.get_char(i);
        let ghost pre = s@.take(i as int);
        assert(s@.take(i + 1).drop_last() =~= pre);
        if is_whitespace(c) {
            if cur.unicode_len() > 0 {
                let w = cur;
                done.push(w);
                cur = String::new();
                assert(views(done@) =~= words_scan(pre).0.push(w@));
            }
        } else {
            push_char(&mut cur, c);
        }
        i = i + 1;
    }
    assert(s@.take(n as int) =~= s@);
    if cur.unicode_len() > 0 {
        let ghost d = views(done@);
        done.push(cur);
        assert(views(done@) =~= d.push(words_scan(s@).1));
    }
    done
}

/// Index of the first `c` in `s`, or `s.len()` when there is none.
pub open spec fn index_of(s: Seq<char>, c: char) -> int
    decreases s.len(),
{
    if s.len() == 0 {
        0
    } else if s[0] == c {
        0
    } else {
        1 + index_of(s.drop_first(), c)
    }
}

pub proof fn lemma_index_of(s: Seq<char>, c: char)
    ensures
        0 <= index_of(s, c) <= s.len(),
        index_of(s, c) < s.len() ==> s[index_of(s, c)] == c,
        forall|j: int| 0 <= j < index_of(s, c) ==> s[j] != c,
    decreases s.len(),
{
    if s.len() > 0 && s[0] != c {
        lemma_index_of(s.drop_first(), c);
        assert forall|j: int| 0 <= j < index_of(s, c) implies s[j] != c by {
            if j > 0 {
                assert(s[j] == s.drop_first()[j - 1]);
            }
        }
    }
}

/// Finds the first `c` in `s`, as a char index.
pub fn find_char(s: &str, c: char) -> (i: usize)
    ensures
        i == index_of(s@, c),
{
    proof {
        lemma_index_of(s@, c);
    }
    let n = s.unicode_len();
    let mut i: usize = 0;
    while i < n && s.get_char(i) != c
        invariant
            n == s@.len(),
            i <= n,
            forall|j: int| 0 <= j < i ==> s@[j] != c,
            0 <= index_of(s@, c) <= s@.len(),
            index_of(s@, c) < s@.len() ==> s@[index_of(s@, c)] == c,
            forall|j: int| 0 <= j < index_of(s@, c) ==> s@[j] != c,
        decreases n - i,
    {
        i = i + 1;
    }
    i
}

/// The part of `s` before its first `c`, and the part after it (empty when
/// `s` holds no `c`): the two pieces of `s.splitn(2, c)`.
pub open spec fn split_once(s: Seq<char>, c: char) -> (Seq<char>, Seq<char>) {
    let i = index_of(s, c);
    if i < s.len() {
        (s.take(i), s.skip(i + 1))
    } else {
        (s, seq![])
    }
}

/// Splits `s` at its first `c` (`str::splitn(2, c)`, with a missing second
/// piece read as empty).
pub fn split_once_char(s: &str, c: char) -> (r: (String, String))
    ensures
        (r.0@, r.1@) == split_once(s@, c),
{
    proof {
        lemma_index_of(s@, c);
    }
    let n = s.unicode_len();
    let i = find_char(s, c);
    if i < n {
        (substring(s, 0, i), substring(s, i + 1, n))
    } else {
        (substring(s, 0, n), String::new())
    }
}

/// Whether `s` begins with `p`.
pub open spec fn starts_with(s: Seq<char>, p: Seq<char>) -> bool {
    p.len() <= s.len() && s.take(p.len() as int) == p
}

/// Whether `p` occurs in `s` at char index `i`.
pub open spec fn occurs_at(s: Seq<char>, p: Seq<char>, i: int) -> bool {
    0 <= i && i + p.len() <= s.len() && s.subrange(i, i + p.len()) == p
}

/// Tests [`occurs_at`].
fn occurs_at_exec(s: &str, p: &str, i: usize) -> (b: bool)
    requires
        i <= s@.len(),
    ensures
        b == occurs_at(s@, p@, i as int),
{
    let n = s.unicode_len();
    let m = p.unicode_len();
    if m > n - i {
        return false;
    }
    let mut j: usize = 0;
    while j < m
        invariant
            n == s@.len(),
            m == p@.len(),
            i + m <= n,
            j <= m,
            forall|k: int| 0 <= k < j ==> s@[i + k] == p@[k],
        decreases m - j,
    {
        if s.get_char(i + j) != p.get_char(j) {
            assert(s@.subrange(i as int, i + m)[j as int] != p@[j as int]);
            return false;
        }
        j = j + 1;
    }
    assert(s@.subrange(i as int, i + m) =~= p@);
    true
}

/// Whether `s` begins with `p` (`str::starts_with` for a string pattern).
pub fn starts_with_text(s: &str, p: &str) -> (b: bool)
    ensures
        b == starts_with(s@, p@),
{
    let r = occurs_at_exec(s, p, 0);
    proof {
        if p@.len() <= s@.len() {
            assert(s@.subrange(0, p@.len() as int) =~= s@.take(p@.len() as int));
        }
    }
    r
}

/// The text of `s` from char index `from` to its end.
pub fn suffix_from(s: &str, from: usize) -> (r: String)
    requires
        from <= s@.len(),
    ensures
        r@ == s@.skip(from as int),
{
    let n = s.unicode_len();
    let r = substring(s, from, n);
    assert(r@ =~= s@.skip(from as int));
    r
}

/// The pieces of `t` between the occurrences of `sep`, scanning from char
/// index `i` for the next occurrence, with the current piece starting at
/// `start`: each occurrence found ends a piece and scanning goes on after
/// it; the rest of `t` is the last piece.
pub open spec fn split_scan(t: Seq<char>, sep: Seq<char>, start: int, i: int) -> Seq<Seq<char>>
    decreases t.len() - i,
{
    if sep.len() == 0 || i < 0 || i + sep.len() > t.len() {
        seq![t.subrange(start, t.len() as int)]
    } else if occurs_at(t, sep, i) {
        seq![t.subrange(start, i)] + split_scan(t, sep, i + sep.len(), i + sep.len())
    } else {
        split_scan(t, sep, start, i + 1)
    }
}

/// `t` split at each occurrence of the non-empty `sep`, found from left to
/// right without overlap (`str::split` with a string pattern).
pub open spec fn split_text(t: Seq<char>, sep: Seq<char>) -> Seq<Seq<char>> {
    split_scan(t, sep, 0, 0)
}

/// `parts` joined with `sep` between neighbours (`[_]::join`).
pub open spec fn join(parts: Seq<Seq<char>>, sep: Seq<char>) -> Seq<char>
    decreases parts.len(),
{
    if parts.len() == 0 {
        seq![]
    } else if parts.len() == 1 {
        parts[0]
    } else {
        join(parts.drop_last(), sep) + sep + parts.last()
    }
}

/// The lower-case form of `s` as `str::to_lowercase` computes it (Unicode
/// case mapping, independent of locale).
pub uninterp spec fn lowercase(s: Seq<char>) -> Seq<char>;

/// Lower-cases `s` with `str::to_lowercase`; the result is named
/// [`lowercase`] of the input.
#[verifier::external_body]
pub(crate) fn to_lowercase(s: &str) -> (r: String)
    ensures
        r@ == lowercase(s@),
{
    s.to_lowercase()
}


proof fn lemma_words_scan_clean(s: Seq<char>)
    ensures
        forall|i: int| 0 <= i < words_scan(s).0.len() ==> (#[trigger] words_scan(s).0[i]).len() > 0,
        forall|i: int, j: int|
            0 <= i < words_scan(s).0.len() && 0 <= j < words_scan(s).0[i].len() ==> !is_ws(
                #[trigger] words_scan(s).0[i][j],
            ),
        forall|j: int| 0 <= j < words_scan(s).1.len() ==> !is_ws(#[trigger] words_scan(s).1[j]),
    decreases s.len(),
{
    if s.len() > 0 {
        let p = s.drop_last();
        lemma_words_scan_clean(p);
        let (done, cur) = words_scan(p);
        let c = s.last();
        let (done2, cur2) = words_scan(s);
        if is_ws(c) {
            assert(cur2.len() == 0);
            if cur.len() > 0 {
                assert(done2 == done.push(cur));
                assert forall|i: int| 0 <= i < done2.len() implies (#[trigger] done2[i]).len() > 0 by {
                    if i < done.len() {
                        assert(done2[i] == done[i]);
                    }
                }
                assert forall|i: int, j: int| 0 <= i < done2.len() && 0 <= j < done2[i].len() implies !is_ws(#[trigger] done2[i][j]) by {
                    if i < done.len() {
                        assert(done2[i] == done[i]);
                        assert(done[i][j] == done2[i][j]);
                    } else {
                        assert(done2[i] == cur);
                        assert(cur[j] == done2[i][j]);
                    }
                }
            } else {
                assert(done2 == done);
            }
        } else {
            assert(done2 == done);
            assert(cur2 == cur.push(c));
            assert forall|j: int| 0 <= j < cur2.len() implies !is_ws(#[trigger] cur2[j]) by {
                if j < cur.len() {
                    assert(cur2[j] == cur[j]);
                }
            }
        }
    }
}

/// The words that whitespace splitting yields are never empty and hold no
/// whitespace.
pub proof fn law_words_clean(s: Seq<char>)
    ensures
        forall|i: int| 0 <= i < words(s).len() ==> (#[trigger] words(s)[i]).len() > 0,
        forall|i: int, j: int|
            0 <= i < words(s).len() && 0 <= j < words(s)[i].len() ==> !is_ws(#[trigger] words(s)[i][j]),
{
    lemma_words_scan_clean(s);
}

} // verus!
