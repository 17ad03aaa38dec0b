//! Character-level text operations shared by the rest of the library:
//! Unicode whitespace, word splitting, trimming, joining, substring
//! replacement and UTF-8 byte lengths, each with a specification over
//! `Seq<char>`.
use vstd::prelude::*;

verus! {

broadcast use vstd::string::group_string_axioms;

// ---------------------------------------------------------------------------
// Whitespace
// ---------------------------------------------------------------------------

/// The Unicode `White_Space` property (the definition that `str::trim` and
/// `str::split_whitespace` use).
pub open spec fn is_white_space(c: char) -> bool {
    let u = c as u32;
    ||| 0x09 <= u <= 0x0D
    ||| u == 0x20
    ||| u == 0x85
    ||| u == 0xA0
    ||| u == 0x1680
    ||| 0x2000 <= u <= 0x200A
    ||| u == 0x2028
    ||| u == 0x2029
    ||| u == 0x202F
    ||| u == 0x205F
    ||| u == 0x3000
}

/// Whether `c` has the Unicode `White_Space` property.
pub fn is_whitespace(c: char) -> (r: bool)
    ensures
        r == is_white_space(c),
{
    let u = c as u32;
    (0x09 <= u && u <= 0x0D) || u == 0x20 || u == 0x85 || u == 0xA0 || u == 0x1680 || (0x2000
        <= u && u <= 0x200A) || u == 0x2028 || u == 0x2029 || u == 0x202F || u == 0x205F || u
        == 0x3000
}

/// No character of `s` is whitespace.
pub open spec fn no_white_space(s: Seq<char>) -> bool {
    forall|i: int| 0 <= i < s.len() ==> !is_white_space(#[trigger] s[i])
}

// ---------------------------------------------------------------------------
// Conversions between `str`/`String` and `Vec<char>`
// ---------------------------------------------------------------------------

/// The characters of `s`, in order.
pub fn chars_of(s: &str) -> (r: Vec<char>)
    ensures
        r@ == s@,
{
    let mut r: Vec<char> = Vec::new();
    for c in it: s.chars()
        invariant
            r@ == it.seq().take(it.index() as int),
            it.seq() == s@,
    {
        r.push(c);
    }
    r
}

/// Appends one character to a `String` (std's `String::push`).
#[verifier::external_body]
fn push_char(s: &mut String, c: char)
    ensures
        final(s)@ == old(s)@.push(c),
{
    s.push(c);
}

/// The `String` whose characters are `cs`.
pub fn string_of(cs: &Vec<char>) -> (r: String)
    ensures
        r@ == cs@,
{
    let mut r = String::new();
    let mut i: usize = 0;
    while i < cs.len()
        invariant
            i <= cs.len(),
            r@ == cs@.take(i as int),
        decreases cs.len() - i,
    {
        push_char(&mut r, cs[i]);
        i = i + 1;
        assert(r@ =~= cs@.take(i as int));
    }
    assert(cs@.take(cs.len() as int) =~= cs@);
    r
}

/// Appends all characters of `src` to `dst`.
pub fn extend_chars(dst: &mut Vec<char>, src: &Vec<char>)
    ensures
        final(dst)@ == old(dst)@ + src@,
{
    let ghost start = dst@;
    let mut i: usize = 0;
    while i < src.len()
        invariant
            i <= src.len(),
            dst@ == start + src@.take(i as int),
        decreases src.len() - i,
    {
        dst.push(src[i]);
        i = i + 1;
        assert(dst@ =~= start + src@.take(i as int));
    }
    assert(src@.take(src.len() as int) =~= src@);
}

/// Appends all characters of `src` to `dst`.
pub fn extend_str(dst: &mut Vec<char>, src: &str)
    ensures
        final(dst)@ == old(dst)@ + src@,
{
    let cs = chars_of(src);
    extend_chars(dst, &cs);
}

// ---------------------------------------------------------------------------
// Words (`str::split_whitespace`)
// ---------------------------------------------------------------------------

/// Left-to-right scan that splits on whitespace: the words completed so far
/// and the word being read.
pub open spec fn word_scan(s: Seq<char>) -> (Seq<Seq<char>>, Seq<char>)
    decreases s.len(),
{
    if s.len() == 0 {
        (seq![], seq![])
    } else {
        let (done, cur) = word_scan(s.drop_last());
        let c = s.last();
        if is_white_space(c) {
            if cur.len() == 0 {
                (done, cur)
            } else {
                (done.push(cur), seq![])
            }
        } else {
            (done, cur.push(c))
        }
    }
}

/// The maximal runs of non-whitespace characters of `s`, in order: what
/// `str::split_whitespace` yields.
pub open spec fn words(s: Seq<char>) -> Seq<Seq<char>> {
    let (done, cur) = word_scan(s);
    if cur.len() == 0 {
        done
    } else {
        done.push(cur)
    }
}

/// Every element of `ws` is a non-empty run without whitespace.
pub open spec fn proper_words(ws: Seq<Seq<char>>) -> bool {
    forall|i: int|
        0 <= i < ws.len() ==> (#[trigger] ws[i]).len() > 0 && no_white_space(ws[i])
}

proof fn lemma_word_scan_proper(s: Seq<char>)
    ensures
        proper_words(word_scan(s).0),
        no_white_space(word_scan(s).1),
    decreases s.len(),
{
    if s.len() > 0 {
        lemma_word_scan_proper(s.drop_last());
        let (done, cur) = word_scan(s.drop_last());
        assert(no_white_space(cur.push(s.last())) || is_white_space(s.last()));
    }
}

/// The words of any text are non-empty and hold no whitespace.
pub proof fn lemma_words_proper(s: Seq<char>)
    ensures
        proper_words(words(s)),
{
    lemma_word_scan_proper(s);
}

/// The words of `s`, each as its own character vector.
pub fn split_words(s: &Vec<char>) -> (r: Vec<Vec<char>>)
    ensures
        r.deep_view() == words(s@),
{
    let mut done: Vec<Vec<char>> = Vec::new();
    let mut cur: Vec<char> = Vec::new();
    let mut i: usize = 0;
    while i < s.len()
        invariant
            i <= s.len(),
            (done.deep_view(), cur@) == word_scan(s@.take(i as int)),
        decreases s.len() - i,
    {
        let c = s[i];
        assert(s@.take(i + 1).drop_last() =~= s@.take(i as int));
        if is_whitespace(c) {
            if cur.len() > 0 {
                let ghost d = done.deep_view();
                let ghost wv = cur@;
                assert(cur.deep_view() =~= cur@);
                let w = cur;
                cur = Vec::new();
                done.push(w);
                assert(done.deep_view() =~= d.push(wv));
            }
        } else {
            cur.push(c);
        }
        i = i + 1;
    }
    assert(s@.take(s.len() as int) =~= s@);
    if cur.len() > 0 {
        let ghost d = done.deep_view();
        let ghost wv = cur@;
        assert(cur.deep_view() =~= cur@);
        done.push(cur);
        assert(done.deep_view() =~= d.push(wv));
    }
    done
}

// ---------------------------------------------------------------------------
// Joining
// ---------------------------------------------------------------------------

/// The elements of `ws` with `sep` between consecutive ones.
pub open spec fn join(ws: Seq<Seq<char>>, sep: Seq<char>) -> Seq<char>
    decreases ws.len(),
{
    if ws.len() == 0 {
        seq![]
    } else if ws.len() == 1 {
        ws[0]
    } else {
        join(ws.drop_last(), sep) + sep + ws.last()
    }
}

/// `ws` joined with single spaces (`slice::join(" ")`).
pub fn join_with_space(ws: &Vec<Vec<char>>) -> (r: Vec<char>)
    ensures
        r@ == join(ws.deep_view(), seq![' ']),
{
    let mut r: Vec<char> = Vec::new();
    let mut i: usize = 0;
    while i < ws.len()
        invariant
            i <= ws.len(),
            r@ == join(ws.deep_view().take(i as int), seq![' ']),
        decreases ws.len() - i,
    {
        let ghost prev = r@;
        assert(ws.deep_view().take(i + 1).drop_last() =~= ws.deep_view().take(i as int));
        if i > 0 {
            r.push(' ');
        }
        extend_chars(&mut r, &ws[i]);
        i = i + 1;
        assert(r@ =~= join(ws.deep_view().take(i as int), seq![' ']));
    }
    assert(ws.deep_view().take(ws.len() as int) =~= ws.deep_view());
    r
}

/// No character of `s` is `x`.
pub open spec fn lacks(s: Seq<char>, x: char) -> bool {
    forall|i: int| 0 <= i < s.len() ==> s[i] != x
}

proof fn lemma_word_scan_lacks(s: Seq<char>, x: char)
    requires
        lacks(s, x),
    ensures
        forall|k: int|
            0 <= k < word_scan(s).0.len() ==> lacks(#[trigger] word_scan(s).0[k], x),
        lacks(word_scan(s).1, x),
    decreases s.len(),
{
    if s.len() > 0 {
        lemma_word_scan_lacks(s.drop_last(), x);
        assert(s.last() == s[s.len() - 1]);
    }
}

/// Words hold only characters of their text.
pub proof fn lemma_words_lack(s: Seq<char>, x: char)
    requires
        lacks(s, x),
    ensures
        forall|k: int| 0 <= k < words(s).len() ==> lacks(#[trigger] words(s)[k], x),
{
    lemma_word_scan_lacks(s, x);
}

/// A join holds only characters of its parts and separator.
pub proof fn lemma_join_lacks(ws: Seq<Seq<char>>, sep: Seq<char>, x: char)
    requires
        forall|k: int| 0 <= k < ws.len() ==> lacks(#[trigger] ws[k], x),
        lacks(sep, x),
    ensures
        lacks(join(ws, sep), x),
    decreases ws.len(),
{
    if ws.len() > 1 {
        lemma_join_lacks(ws.drop_last(), sep, x);
        assert(ws.last() == ws[ws.len() - 1]);
    } else if ws.len() == 1 {
        assert(lacks(ws[0], x));
    }
}

/// Appending characters without whitespace extends the word being read.
pub proof fn lemma_word_scan_append_word(s: Seq<char>, w: Seq<char>)
    requires
        no_white_space(w),
    ensures
        word_scan(s + w) == (word_scan(s).0, word_scan(s).1 + w),
    decreases w.len(),
{
    if w.len() == 0 {
        assert(s + w =~= s);
        assert(word_scan(s).1 + w =~= word_scan(s).1);
    } else {
        lemma_word_scan_append_word(s, w.drop_last());
        assert((s + w).drop_last() =~= s + w.drop_last());
        assert((s + w).last() == w.last());
        assert(!is_white_space(w[w.len() - 1]));
        assert(word_scan(s).1 + w.drop_last() + seq![w.last()] =~= word_scan(s).1 + w);
    }
}

/// Splitting proper words joined by single spaces gives the words back.
pub proof fn lemma_words_of_join(ws: Seq<Seq<char>>)
    requires
        proper_words(ws),
    ensures
        words(join(ws, seq![' '])) == ws,
        ws.len() > 0 ==> word_scan(join(ws, seq![' '])) == (ws.drop_last(), ws.last()),
    decreases ws.len(),
{
    if ws.len() == 0 {
        assert(join(ws, seq![' ']) =~= Seq::<char>::empty());
    } else if ws.len() == 1 {
        assert(no_white_space(ws[0]));
        lemma_word_scan_append_word(Seq::<char>::empty(), ws[0]);
        assert(Seq::<char>::empty() + ws[0] =~= ws[0]);
        assert(Seq::<char>::empty() + ws[0] =~= ws[0]);
        assert(ws.drop_last() =~= Seq::<Seq<char>>::empty());
        assert(ws.drop_last().push(ws.last()) =~= ws);
    } else {
        let prev = ws.drop_last();
        assert(proper_words(prev)) by {
            assert forall|i: int| 0 <= i < prev.len() implies (#[trigger] prev[i]).len() > 0
                && no_white_space(prev[i]) by {
                assert(prev[i] == ws[i]);
            }
        }
        lemma_words_of_join(prev);
        let j = join(prev, seq![' ']);
        let js = j + seq![' '];
        assert(js.drop_last() =~= j);
        assert(is_white_space(js.last()));
        assert(prev.last().len() > 0) by {
            assert(prev.last() == ws[ws.len() - 2]);
        }
        assert(word_scan(js) == (prev, Seq::<char>::empty())) by {
            assert(prev.drop_last().push(prev.last()) =~= prev);
        }
        assert(no_white_space(ws.last())) by {
            assert(ws.last() == ws[ws.len() - 1]);
        }
        lemma_word_scan_append_word(js, ws.last());
        assert(Seq::<char>::empty() + ws.last() =~= ws.last());
        assert(ws.last().len() > 0) by {
            assert(ws.last() == ws[ws.len() - 1]);
        }
        assert(prev.push(ws.last()) =~= ws);
    }
}

// ---------------------------------------------------------------------------
// Trimming (`str::trim`)
// ---------------------------------------------------------------------------

/// `s` without its leading whitespace.
pub open spec fn trim_start(s: Seq<char>) -> Seq<char>
    decreases s.len(),
{
    if s.len() > 0 && is_white_space(s[0]) {
        trim_start(s.drop_first())
    } else {
        s
    }
}

/// `s` without its trailing whitespace.
pub open spec fn trim_end(s: Seq<char>) -> Seq<char>
    decreases s.len(),
{
    if s.len() > 0 && is_white_space(s.last()) {
        trim_end(s.drop_last())
    } else {
        s
    }
}

/// `s` without leading and trailing whitespace.
pub open spec fn trim(s: Seq<char>) -> Seq<char> {
    trim_end(trim_start(s))
}

proof fn lemma_trim_start_skip(s: Seq<char>, k: int)
    requires
        0 <= k <= s.len(),
        forall|j: int| 0 <= j < k ==> is_white_space(#[trigger] s[j]),
    ensures
        trim_start(s) == trim_start(s.skip(k)),
    decreases k,
{
    if k > 0 {
        assert(s.drop_first().skip(k - 1) =~= s.skip(k));
        lemma_trim_start_skip(s.drop_first(), k - 1);
    } else {
        assert(s.skip(0) =~= s);
    }
}

proof fn lemma_trim_end_take(s: Seq<char>, k: int)
    requires
        0 <= k <= s.len(),
        forall|j: int| k <= j < s.len() ==> is_white_space(#[trigger] s[j]),
    ensures
        trim_end(s) == trim_end(s.take(k)),
    decreases s.len() - k,
{
    if k < s.len() {
        assert(s.drop_last().take(k) =~= s.take(k));
        lemma_trim_end_take(s.drop_last(), k);
    } else {
        assert(s.take(k) =~= s);
    }
}

/// The trimmed characters of `s`.
pub fn trim_chars(s: &Vec<char>) -> (r: Vec<char>)
    ensures
        r@ == trim(s@),
{
    let mut lo: usize = 0;
    while lo < s.len() && is_whitespace(s[lo])
        invariant
            lo <= s.len(),
            forall|j: int| 0 <= j < lo ==> is_white_space(#[trigger] s@[j]),
        decreases s.len() - lo,
    {
        lo = lo + 1;
    }
    proof {
        lemma_trim_start_skip(s@, lo as int);
    }
    let mut hi: usize = s.len();
    while hi > lo && is_whitespace(s[hi - 1])
        invariant
            lo <= hi <= s.len(),
            forall|j: int| hi <= j < s.len() ==> is_white_space(#[trigger] s@[j]),
        decreases hi,
    {
        hi = hi - 1;
    }
    let mut r: Vec<char> = Vec::new();
    let mut i: usize = lo;
    while i < hi
        invariant
            lo <= i <= hi,
            hi <= s.len(),
            r@ == s@.subrange(lo as int, i as int),
        decreases hi - i,
    {
        r.push(s[i]);
        i = i + 1;
        assert(r@ =~= s@.subrange(lo as int, i as int));
    }
    proof {
        let t = s@.skip(lo as int);
        assert(trim_start(t) == t);
        lemma_trim_end_take(t, hi - lo);
        assert(t.take(hi - lo) =~= s@.subrange(lo as int, hi as int));
        let u = t.take(hi - lo);
        if u.len() > 0 {
            assert(u.last() == s@[hi - 1]);
        }
    }
    r
}

// ---------------------------------------------------------------------------
// Prefixes and replacement (`str::starts_with`; `str::replace` with a non-empty pattern)
// ---------------------------------------------------------------------------

/// `s` begins with `p`.
pub open spec fn starts_with(s: Seq<char>, p: Seq<char>) -> bool {
    p.len() <= s.len() && s.take(p.len() as int) == p
}

/// Whether `s` begins with `p`.
pub fn has_prefix(s: &Vec<char>, p: &Vec<char>) -> (r: bool)
    ensures
        r == starts_with(s@, p@),
{
    if p.len() > s.len() {
        return false;
    }
    let mut i: usize = 0;
    while i < p.len()
        invariant
            i <= p.len() <= s.len(),
            forall|j: int| 0 <= j < i ==> s@[j] == p@[j],
        decreases p.len() - i,
    {
        if s[i] != p[i] {
            assert(s@.take(p.len() as int)[i as int] != p@[i as int]);
            return false;
        }
        i = i + 1;
    }
    assert(s@.take(p.len() as int) =~= p@);
    true
}

/// `s` with every non-overlapping occurrence of a non-empty `pat`, taken
/// left to right, replaced by `rep`: what `str::replace` gives for a
/// non-empty pattern. (An empty `pat` leaves `s` as it is here, unlike
/// `str::replace`; every pattern this library uses is non-empty.)
pub open spec fn replace_all(s: Seq<char>, pat: Seq<char>, rep: Seq<char>) -> Seq<char>
    decreases s.len(),
{
    if pat.len() == 0 || s.len() < pat.len() {
        s
    } else if s.take(pat.len() as int) == pat {
        rep + replace_all(s.skip(pat.len() as int), pat, rep)
    } else {
        seq![s[0]] + replace_all(s.drop_first(), pat, rep)
    }
}

/// Whether `pat` occurs in `s` at position `i`.
fn occurs_at(s: &Vec<char>, i: usize, pat: &Vec<char>) -> (r: bool)
    requires
        i <= s.len(),
    ensures
        r == starts_with(s@.skip(i as int), pat@),
{
    if pat.len() > s.len() - i {
        return false;
    }
    let mut j: usize = 0;
    while j < pat.len()
        invariant
            j <= pat.len(),
            i + pat.len() <= s.len(),
            forall|k: int| 0 <= k < j ==> s@[i + k] == pat@[k],
        decreases pat.len() - j,
    {
        if s[i + j] != pat[j] {
            assert(s@.skip(i as int).take(pat.len() as int)[j as int] != pat@[j as int]);
            return false;
        }
        j = j + 1;
    }
    assert(s@.skip(i as int).take(pat.len() as int) =~= pat@);
    true
}

/// `s` with every occurrence of the non-empty `pat` replaced by `rep`
/// (`str::replace` with a non-empty pattern).
pub fn replace_chars(s: &Vec<char>, pat: &Vec<char>, rep: &Vec<char>) -> (r: Vec<char>)
    requires
        pat.len() > 0,
    ensures
        r@ == replace_all(s@, pat@, rep@),
{
    let mut out: Vec<char> = Vec::new();
    let mut i: usize = 0;
    assert(s@.skip(0) =~= s@);
    assert(out@ + replace_all(s@, pat@, rep@) =~= replace_all(s@, pat@, rep@));
    while i < s.len()
        invariant
            i <= s.len(),
            pat.len() > 0,
            out@ + replace_all(s@.skip(i as int), pat@, rep@) == replace_all(s@, pat@, rep@),
        decreases s.len() - i,
    {
        let ghost rest = s@.skip(i as int);
        if occurs_at(s, i, pat) {
            extend_chars(&mut out, rep);
            assert(rest.skip(pat.len() as int) =~= s@.skip(i + pat.len()));
            assert(out@ + replace_all(s@.skip(i + pat.len()), pat@, rep@) =~= replace_all(
                s@,
                pat@,
                rep@,
            ));
            i = i + pat.len();
        } else {
            out.push(s[i]);
            assert(rest.drop_first() =~= s@.skip(i + 1));
            assert(rest[0] == s@[i as int]);
            assert(out@ + replace_all(s@.skip(i + 1), pat@, rep@) =~= replace_all(
                s@,
                pat@,
                rep@,
            ));
            i = i + 1;
        }
    }
    assert(s@.skip(s.len() as int) =~= Seq::<char>::empty());
    assert(out@ =~= replace_all(s@, pat@, rep@));
    out
}

/// A replacement that brings no `x` into a text without `x` leaves it
/// without `x`.
pub proof fn lemma_replace_all_lacks(s: Seq<char>, pat: Seq<char>, rep: Seq<char>, x: char)
    requires
        lacks(s, x),
        lacks(rep, x),
    ensures
        lacks(replace_all(s, pat, rep), x),
    decreases s.len(),
{
    if pat.len() == 0 || s.len() < pat.len() {
    } else if s.take(pat.len() as int) == pat {
        let rest = s.skip(pat.len() as int);
        assert(lacks(rest, x)) by {
            assert forall|i: int| 0 <= i < rest.len() implies rest[i] != x by {
                assert(rest[i] == s[i + pat.len()]);
            }
        }
        lemma_replace_all_lacks(rest, pat, rep, x);
    } else {
        let rest = s.drop_first();
        assert(lacks(rest, x)) by {
            assert forall|i: int| 0 <= i < rest.len() implies rest[i] != x by {
                assert(rest[i] == s[i + 1]);
            }
        }
        lemma_replace_all_lacks(rest, pat, rep, x);
        assert(s[0] != x);
    }
}

/// Replacing every `c` by text without `c` leaves no `c`.
pub proof fn lemma_replace_all_removes(s: Seq<char>, c: char, rep: Seq<char>)
    requires
        lacks(rep, c),
    ensures
        lacks(replace_all(s, seq![c], rep), c),
    decreases s.len(),
{
    if s.len() < 1 {
    } else if s.take(1) == seq![c] {
        lemma_replace_all_removes(s.skip(1), c, rep);
    } else {
        assert(s.take(1) =~= seq![s[0]]);
        lemma_replace_all_removes(s.drop_first(), c, rep);
    }
}

// ---------------------------------------------------------------------------
// Lowercase (`str::to_lowercase`)
// ---------------------------------------------------------------------------

/// The lowercase form of `s` under Unicode's `Lowercase` mapping, as
/// `str::to_lowercase` computes it.
pub uninterp spec fn lowercase(s: Seq<char>) -> Seq<char>;

/// `s.to_lowercase()`. The contract names the result (`lowercase`); the
/// Unicode case tables are not restated here.
#[verifier::external_body]
pub(crate) fn to_lowercase(s: &str) -> (r: String)
    ensures
        r@ == lowercase(s@),
{
    s.to_lowercase()
}

/// Whether the characters `s` are exactly those of `lit`.
pub fn same_text(s: &Vec<char>, lit: &str) -> (r: bool)
    ensures
        r == (s@ == lit@),
{
    let l = chars_of(lit);
    if s.len() != l.len() {
        return false;
    }
    let mut i: usize = 0;
    while i < s.len()
        invariant
            i <= s.len() == l.len(),
            l@ == lit@,
            forall|j: int| 0 <= j < i ==> s@[j] == l@[j],
        decreases s.len() - i,
    {
        if s[i] != l[i] {
            assert(s@[i as int] != l@[i as int]);
            return false;
        }
        i = i + 1;
    }
    assert(s@ =~= l@);
    true
}

// ---------------------------------------------------------------------------
// UTF-8 byte lengths (`str::len`)
// ---------------------------------------------------------------------------

/// Number of bytes of the UTF-8 encoding of `c`.
pub open spec fn utf8_width(c: char) -> nat {
    let u = c as u32;
    if u < 0x80 {
        1
    } else if u < 0x800 {
        2
    } else if u < 0x10000 {
        3
    } else {
        4
    }
}

/// Number of bytes of the UTF-8 encoding of `s`.
pub open spec fn byte_len(s: Seq<char>) -> nat
    decreases s.len(),
{
    if s.len() == 0 {
        0
    } else {
        byte_len(s.drop_last()) + utf8_width(s.last())
    }
}

/// Byte lengths add up over concatenation.
pub proof fn lemma_byte_len_concat(a: Seq<char>, b: Seq<char>)
    ensures
        byte_len(a + b) == byte_len(a) + byte_len(b),
    decreases b.len(),
{
    if b.len() > 0 {
        assert((a + b).drop_last() =~= a + b.drop_last());
        lemma_byte_len_concat(a, b.drop_last());
    } else {
        assert(a + b =~= a);
    }
}

proof fn lemma_encode_utf8_concat(a: Seq<char>, b: Seq<char>)
    ensures
        vstd::utf8::encode_utf8(a + b) == vstd::utf8::encode_utf8(a) + vstd::utf8::encode_utf8(b),
    decreases a.len(),
{
    if a.len() == 0 {
        assert(a + b =~= b);
        assert(vstd::utf8::encode_utf8(a) =~= Seq::<u8>::empty());
        assert(Seq::<u8>::empty() + vstd::utf8::encode_utf8(b) =~= vstd::utf8::encode_utf8(b));
    } else {
        assert((a + b).drop_first() =~= a.drop_first() + b);
        assert((a + b)[0] == a[0]);
        lemma_encode_utf8_concat(a.drop_first(), b);
        assert(vstd::utf8::encode_utf8(a + b) =~= vstd::utf8::encode_utf8(a)
            + vstd::utf8::encode_utf8(b));
    }
}

/// The byte length used here is the length of the UTF-8 encoding: the
/// number that `str::len` returns.
pub proof fn law_byte_len_is_utf8_length(s: Seq<char>)
    ensures
        byte_len(s) == vstd::utf8::encode_utf8(s).len(),
    decreases s.len(),
{
    if s.len() > 0 {
        let c = s.last();
        law_byte_len_is_utf8_length(s.drop_last());
        assert(s =~= s.drop_last() + seq![c]);
        lemma_encode_utf8_concat(s.drop_last(), seq![c]);
        assert(seq![c].drop_first() =~= Seq::<char>::empty());
        assert(vstd::utf8::encode_utf8(seq![c]) =~= vstd::utf8::encode_scalar(c as u32)
            + vstd::utf8::encode_utf8(Seq::<char>::empty()));
        vstd::utf8::char_is_scalar(c);
    }
}

/// A character takes at most four bytes.
pub proof fn lemma_byte_len_at_most(s: Seq<char>)
    ensures
        byte_len(s) <= 4 * s.len(),
    decreases s.len(),
{
    if s.len() > 0 {
        lemma_byte_len_at_most(s.drop_last());
    }
}

/// Number of bytes of the UTF-8 encoding of `c`.
pub fn char_width(c: char) -> (r: usize)
    ensures
        r == utf8_width(c),
{
    let u = c as u32;
    if u < 0x80 {
        1
    } else if u < 0x800 {
        2
    } else if u < 0x10000 {
        3
    } else {
        4
    }
}

/// Number of bytes of the UTF-8 encoding of `s`.
pub fn byte_count(s: &Vec<char>) -> (r: u128)
    ensures
        r == byte_len(s@),
{
    let mut n: u128 = 0;
    let mut i: usize = 0;
    while i < s.len()
        invariant
            i <= s.len(),
            n == byte_len(s@.take(i as int)),
            n <= 4 * i,
        decreases s.len() - i,
    {
        assert(s@.take(i + 1).drop_last() =~= s@.take(i as int));
        n = n + char_width(s[i]) as u128;
        i = i + 1;
    }
    assert(s@.take(s.len() as int) =~= s@);
    n
}

} // verus!
