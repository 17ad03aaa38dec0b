//! Preparing text for speech synthesis: cleaning markdown and technical
//! symbols, and splitting into chunks small enough for the speech service.
use vstd::prelude::*;
use vstd::string::StringExecFns;
use crate::text::{
    byte_count, byte_len, chars_of, extend_chars, has_prefix, join, join_with_space,
    lemma_byte_len_at_most, lemma_byte_len_concat, replace_all, utf8_width,
    lacks, lemma_join_lacks, lemma_replace_all_lacks, lemma_replace_all_removes, lemma_words_lack,
    lemma_words_of_join, lemma_words_proper, proper_words, no_white_space, replace_chars, split_words, starts_with, string_of, words,
};

verus! {

broadcast use vstd::string::group_string_axioms;

// ---------------------------------------------------------------------------
// Cleaning
// ---------------------------------------------------------------------------

/// Markdown symbols that would otherwise be read aloud.
pub open spec fn is_markup(c: char) -> bool {
    c == '*' || c == '#' || c == '`' || c == '_' || c == '~' || c == '|' || c == '>' || c
        == '<' || c == '[' || c == ']'
}

/// `s` with every markdown symbol replaced by a space.
pub open spec fn strip_markup(s: Seq<char>) -> Seq<char> {
    s.map_values(|c: char| if is_markup(c) { ' ' } else { c })
}

/// Technical abbreviations replaced by spoken Spanish words, in this order:
/// `%cpu`, `%mem`, `%`, `pid:`, `pid `.
pub open spec fn spoken_terms(s: Seq<char>) -> Seq<char> {
    let t1 = replace_all(s, "%cpu"@, "porcentaje de procesador"@);
    let t2 = replace_all(t1, "%mem"@, "porcentaje de memoria"@);
    let t3 = replace_all(t2, "%"@, " por ciento "@);
    let t4 = replace_all(t3, "pid:"@, "proceso "@);
    replace_all(t4, "pid "@, "proceso "@)
}

/// A word that is a web link.
pub open spec fn is_link(w: Seq<char>) -> bool {
    starts_with(w, "http://"@) || starts_with(w, "https://"@)
}

/// The words of `ws` that are not links, in order.
pub open spec fn spoken_words(ws: Seq<Seq<char>>) -> Seq<Seq<char>>
    decreases ws.len(),
{
    if ws.len() == 0 {
        seq![]
    } else if is_link(ws.last()) {
        spoken_words(ws.drop_last())
    } else {
        spoken_words(ws.drop_last()).push(ws.last())
    }
}

/// The text that speech synthesis receives for `raw`: markup removed,
/// abbreviations spelled out, links dropped, words separated by one space.
pub open spec fn speech_text(raw: Seq<char>) -> Seq<char> {
    join(spoken_words(words(spoken_terms(strip_markup(raw)))), seq![' '])
}

fn is_markup_char(c: char) -> (r: bool)
    ensures
        r == is_markup(c),
{
    c == '*' || c == '#' || c == '`' || c == '_' || c == '~' || c == '|' || c == '>' || c == '<'
        || c == '[' || c == ']'
}

fn strip_markup_chars(s: &Vec<char>) -> (r: Vec<char>)
    ensures
        r@ == strip_markup(s@),
{
    let mut r: Vec<char> = Vec::new();
    let mut i: usize = 0;
    while i < s.len()
        invariant
            i <= s.len(),
            r@ == strip_markup(s@.take(i as int)),
        decreases s.len() - i,
    {
        let c = s[i];
        if is_markup_char(c) {
            r.push(' ');
        } else {
            r.push(c);
        }
        i = i + 1;
        assert(r@ =~= strip_markup(s@.take(i as int)));
    }
    assert(s@.take(s.len() as int) =~= s@);
    r
}

fn replace_literal(s: &Vec<char>, pat: &str, rep: &str) -> (r: Vec<char>)
    requires
        pat@.len() > 0,
    ensures
        r@ == replace_all(s@, pat@, rep@),
{
    let p = chars_of(pat);
    let q = chars_of(rep);
    replace_chars(s, &p, &q)
}

fn spoken_terms_chars(s: &Vec<char>) -> (r: Vec<char>)
    ensures
        r@ == spoken_terms(s@),
{
    proof {
        reveal_strlit("%cpu");
        reveal_strlit("%mem");
        reveal_strlit("%");
        reveal_strlit("pid:");
        reveal_strlit("pid ");
    }
    let t1 = replace_literal(s, "%cpu", "porcentaje de procesador");
    let t2 = replace_literal(&t1, "%mem", "porcentaje de memoria");
    let t3 = replace_literal(&t2, "%", " por ciento ");
    let t4 = replace_literal(&t3, "pid:", "proceso ");
    replace_literal(&t4, "pid ", "proceso ")
}

fn keep_spoken_words(ws: Vec<Vec<char>>) -> (r: Vec<Vec<char>>)
    ensures
        r.deep_view() == spoken_words(ws.deep_view()),
{
    let http = chars_of("http://");
    let https = chars_of("https://");
    let mut r: Vec<Vec<char>> = Vec::new();
    let mut i: usize = 0;
    while i < ws.len()
        invariant
            i <= ws.len(),
            http@ == "http://"@,
            https@ == "https://"@,
            r.deep_view() == spoken_words(ws.deep_view().take(i as int)),
        decreases ws.len() - i,
    {
        let ghost prev = r.deep_view();
        assert(ws.deep_view().take(i + 1).drop_last() =~= ws.deep_view().take(i as int));
        assert(ws.deep_view()[i as int] == ws[i as int]@);
        if !has_prefix(&ws[i], &http) && !has_prefix(&ws[i], &https) {
            let w = ws[i].clone();
            assert(w.deep_view() =~= w@);
            r.push(w);
            assert(r.deep_view() =~= prev.push(ws[i as int]@));
        }
        i = i + 1;
    }
    assert(ws.deep_view().take(ws.len() as int) =~= ws.deep_view());
    r
}

/// Cleans markdown and technical symbols from text so it sounds natural when
/// spoken: markup symbols become spaces, `%cpu`, `%mem`, `%`, `pid:` and
/// `pid ` become words, links are dropped and the remaining words are joined
/// with single spaces.
pub fn clean_text_for_speech(raw: &str) -> (r: String)
    ensures
        r@ == speech_text(raw@),
{
    let cs = chars_of(raw);
    let stripped = strip_markup_chars(&cs);
    let spoken = spoken_terms_chars(&stripped);
    let ws = split_words(&spoken);
    let kept = keep_spoken_words(ws);
    let joined = join_with_space(&kept);
    string_of(&joined)
}

proof fn lemma_spoken_words_lack(ws: Seq<Seq<char>>, x: char)
    requires
        forall|k: int| 0 <= k < ws.len() ==> lacks(#[trigger] ws[k], x),
    ensures
        forall|k: int|
            0 <= k < spoken_words(ws).len() ==> lacks(#[trigger] spoken_words(ws)[k], x),
    decreases ws.len(),
{
    if ws.len() > 0 {
        let prev = ws.drop_last();
        assert forall|k: int| 0 <= k < prev.len() implies lacks(#[trigger] prev[k], x) by {
            assert(prev[k] == ws[k]);
        }
        lemma_spoken_words_lack(prev, x);
        assert(ws.last() == ws[ws.len() - 1]);
        let sw = spoken_words(ws);
        assert forall|k: int| 0 <= k < sw.len() implies lacks(#[trigger] sw[k], x) by {
            if k < spoken_words(prev).len() {
                assert(sw[k] == spoken_words(prev)[k]);
            }
        }
    }
}

proof fn lemma_spoken_words_proper(ws: Seq<Seq<char>>)
    requires
        proper_words(ws),
    ensures
        proper_words(spoken_words(ws)),
        forall|k: int|
            0 <= k < spoken_words(ws).len() ==> !is_link(#[trigger] spoken_words(ws)[k]),
    decreases ws.len(),
{
    if ws.len() > 0 {
        assert(proper_words(ws.drop_last())) by {
            assert forall|i: int| 0 <= i < ws.drop_last().len() implies (
            #[trigger] ws.drop_last()[i]).len() > 0 && no_white_space(ws.drop_last()[i]) by {
                assert(ws.drop_last()[i] == ws[i]);
            }
        }
        lemma_spoken_words_proper(ws.drop_last());
        assert(ws.last() == ws[ws.len() - 1]);
    }
}

proof fn lemma_speech_text_lacks(raw: Seq<char>, x: char)
    requires
        is_markup(x) || x == '%',
    ensures
        lacks(speech_text(raw), x),
{
    reveal_strlit("%cpu");
    reveal_strlit("%mem");
    reveal_strlit("%");
    reveal_strlit("pid:");
    reveal_strlit("pid ");
    reveal_strlit("porcentaje de procesador");
    reveal_strlit("porcentaje de memoria");
    reveal_strlit(" por ciento ");
    reveal_strlit("proceso ");
    let t0 = strip_markup(raw);
    let t1 = replace_all(t0, "%cpu"@, "porcentaje de procesador"@);
    let t2 = replace_all(t1, "%mem"@, "porcentaje de memoria"@);
    let t3 = replace_all(t2, "%"@, " por ciento "@);
    let t4 = replace_all(t3, "pid:"@, "proceso "@);
    let t5 = replace_all(t4, "pid "@, "proceso "@);
    assert(lacks("porcentaje de procesador"@, x));
    assert(lacks("porcentaje de memoria"@, x));
    assert(lacks(" por ciento "@, x));
    assert(lacks("proceso "@, x));
    if is_markup(x) {
        assert(lacks(t0, x));
        lemma_replace_all_lacks(t0, "%cpu"@, "porcentaje de procesador"@, x);
        lemma_replace_all_lacks(t1, "%mem"@, "porcentaje de memoria"@, x);
        lemma_replace_all_lacks(t2, "%"@, " por ciento "@, x);
    } else {
        assert("%"@ =~= seq!['%']);
        lemma_replace_all_removes(t2, '%', " por ciento "@);
    }
    lemma_replace_all_lacks(t3, "pid:"@, "proceso "@, x);
    lemma_replace_all_lacks(t4, "pid "@, "proceso "@, x);
    assert(t5 == spoken_terms(t0));
    lemma_words_lack(t5, x);
    lemma_spoken_words_lack(words(t5), x);
    lemma_join_lacks(spoken_words(words(t5)), seq![' '], x);
}

/// The text prepared for speech holds no markdown symbol and no `%`.
pub proof fn law_speech_text_has_no_symbols(raw: Seq<char>)
    ensures
        forall|i: int|
            0 <= i < speech_text(raw).len() ==> !is_markup(#[trigger] speech_text(raw)[i])
                && speech_text(raw)[i] != '%',
{
    let t = speech_text(raw);
    assert forall|i: int| 0 <= i < t.len() implies !is_markup(#[trigger] t[i]) && t[i] != '%' by {
        let x = t[i];
        if is_markup(x) || x == '%' {
            lemma_speech_text_lacks(raw, x);
        }
    }
}

/// The text prepared for speech is its own words, none of them a link,
/// separated by single spaces.
pub proof fn law_speech_text_is_spaced_words(raw: Seq<char>)
    ensures
        words(speech_text(raw)) == spoken_words(words(spoken_terms(strip_markup(raw)))),
        speech_text(raw) == join(words(speech_text(raw)), seq![' ']),
        forall|k: int|
            0 <= k < words(speech_text(raw)).len() ==> !is_link(
                #[trigger] words(speech_text(raw))[k],
            ),
{
    let ws = words(spoken_terms(strip_markup(raw)));
    lemma_words_proper(spoken_terms(strip_markup(raw)));
    lemma_spoken_words_proper(ws);
    lemma_words_of_join(spoken_words(ws));
}

// ---------------------------------------------------------------------------
// Chunking
// ---------------------------------------------------------------------------

/// Greedy left-to-right packing of words into chunks: a word joins the
/// current chunk (after one space) while the chunk stays within `max_len`
/// bytes; otherwise the chunk is closed and the word starts the next one.
pub open spec fn chunk_scan(ws: Seq<Seq<char>>, max_len: nat) -> (Seq<Seq<char>>, Seq<char>)
    decreases ws.len(),
{
    if ws.len() == 0 {
        (seq![], seq![])
    } else {
        let (done, cur) = chunk_scan(ws.drop_last(), max_len);
        let w = ws.last();
        if cur.len() == 0 {
            (done, w)
        } else if byte_len(cur) + 1 + byte_len(w) <= max_len {
            (done, cur + seq![' '] + w)
        } else {
            (done.push(cur), w)
        }
    }
}

/// The chunks of `text` for a limit of `max_len` bytes.
pub open spec fn chunks_of(text: Seq<char>, max_len: nat) -> Seq<Seq<char>> {
    let (done, cur) = chunk_scan(words(text), max_len);
    if cur.len() == 0 {
        done
    } else {
        done.push(cur)
    }
}

/// A chunk is non-empty, and within the limit unless it is a single word.
pub open spec fn fits_chunk(c: Seq<char>, max_len: nat) -> bool {
    c.len() > 0 && (byte_len(c) <= max_len || no_white_space(c))
}

proof fn lemma_join_push(xs: Seq<Seq<char>>, y: Seq<char>)
    ensures
        join(xs.push(y), seq![' ']) == if xs.len() == 0 {
            y
        } else {
            join(xs, seq![' ']) + seq![' '] + y
        },
{
    assert(xs.push(y).drop_last() =~= xs);
    if xs.len() == 0 {
        assert(xs.push(y)[0] == y);
    }
}

proof fn lemma_chunk_scan(ws: Seq<Seq<char>>, max_len: nat)
    requires
        proper_words(ws),
    ensures
        ws.len() == 0 ==> chunk_scan(ws, max_len) == (Seq::<Seq<char>>::empty(), Seq::<char>::empty()),
        ws.len() > 0 ==> {
            let (done, cur) = chunk_scan(ws, max_len);
            &&& join(done.push(cur), seq![' ']) == join(ws, seq![' '])
            &&& forall|k: int| 0 <= k < done.len() ==> fits_chunk(#[trigger] done[k], max_len)
            &&& fits_chunk(cur, max_len)
        },
    decreases ws.len(),
{
    if ws.len() > 0 {
        let prev = ws.drop_last();
        assert(proper_words(prev)) by {
            assert forall|i: int| 0 <= i < prev.len() implies (#[trigger] prev[i]).len() > 0
                && no_white_space(prev[i]) by {
                assert(prev[i] == ws[i]);
            }
        }
        lemma_chunk_scan(prev, max_len);
        let (done, cur) = chunk_scan(prev, max_len);
        let w = ws.last();
        assert(w == ws[ws.len() - 1]);
        assert(fits_chunk(w, max_len));
        if prev.len() == 0 {
            lemma_join_push(Seq::<Seq<char>>::empty(), w);
            assert(ws =~= seq![w]);
        } else {
            assert(ws =~= prev.push(w));
            lemma_join_push(prev, w);
            lemma_join_push(done, cur);
            if byte_len(cur) + 1 + byte_len(w) <= max_len {
                let merged = cur + seq![' '] + w;
                lemma_join_push(done, merged);
                lemma_byte_len_concat(cur, seq![' ']);
                lemma_byte_len_concat(cur + seq![' '], w);
                assert(byte_len(seq![' ']) == 1) by {
                    assert(seq![' '].drop_last() =~= Seq::<char>::empty());
                    assert(seq![' '].last() == ' ');
                    assert(byte_len(Seq::<char>::empty()) == 0);
                }
                if done.len() == 0 {
                    assert(join(done.push(merged), seq![' ']) =~= join(ws, seq![' ']));
                } else {
                    assert(join(done.push(merged), seq![' ']) =~= join(ws, seq![' ']));
                }
            } else {
                let closed = done.push(cur);
                lemma_join_push(closed, w);
                assert forall|k: int| 0 <= k < closed.len() implies fits_chunk(
                    #[trigger] closed[k],
                    max_len,
                ) by {
                    if k < done.len() {
                        assert(closed[k] == done[k]);
                    }
                }
            }
        }
    }
}

/// The chunks of a text cover exactly its words: joined by single spaces
/// they are its words joined by single spaces. Every chunk is non-empty,
/// and a chunk longer than `max_len` bytes is a single word.
pub proof fn law_chunks_cover_words(text: Seq<char>, max_len: nat)
    ensures
        join(chunks_of(text, max_len), seq![' ']) == join(words(text), seq![' ']),
        forall|k: int|
            0 <= k < chunks_of(text, max_len).len() ==> fits_chunk(
                #[trigger] chunks_of(text, max_len)[k],
                max_len,
            ),
{
    lemma_words_proper(text);
    lemma_chunk_scan(words(text), max_len);
    let (done, cur) = chunk_scan(words(text), max_len);
    if words(text).len() == 0 {
        assert(chunks_of(text, max_len) =~= Seq::<Seq<char>>::empty());
    } else {
        let cs = done.push(cur);
        assert forall|k: int| 0 <= k < cs.len() implies fits_chunk(#[trigger] cs[k], max_len) by {
            if k < done.len() {
                assert(cs[k] == done[k]);
            }
        }
    }
}

/// Splits text into chunks of at most `max_len` bytes on word boundaries
/// (a single word longer than `max_len` forms a chunk of its own).
pub fn split_into_chunks(text: &str, max_len: usize) -> (r: Vec<String>)
    ensures
        r.deep_view() == chunks_of(text@, max_len as nat),
{
    let cs = chars_of(text);
    let ws = split_words(&cs);
    let ghost wv = ws.deep_view();
    let mut done: Vec<String> = Vec::new();
    let mut cur: Vec<char> = Vec::new();
    let mut cur_bytes: u128 = 0;
    let mut i: usize = 0;
    while i < ws.len()
        invariant
            i <= ws.len(),
            wv == ws.deep_view(),
            wv == words(text@),
            (done.deep_view(), cur@) == chunk_scan(wv.take(i as int), max_len as nat),
            cur_bytes == byte_len(cur@),
            cur_bytes <= 4 * cur@.len(),
        decreases ws.len() - i,
    {
        assert(wv.take(i + 1).drop_last() =~= wv.take(i as int));
        assert(wv[i as int] == ws[i as int]@);
        let w = &ws[i];
        let w_bytes = byte_count(w);
        proof {
            lemma_byte_len_at_most(w@);
        }
        let w_len = w.len();
        let cur_len = cur.len();
        assert(w_bytes <= 4 * w_len && cur_bytes <= 4 * cur_len);
        if cur.len() == 0 {
            cur = w.clone();
            cur_bytes = w_bytes;
        } else if cur_bytes + 1 + w_bytes <= max_len as u128 {
            let ghost before = cur@;
            cur.push(' ');
            extend_chars(&mut cur, w);
            proof {
                lemma_byte_len_concat(before, seq![' ']);
                lemma_byte_len_concat(before + seq![' '], w@);
                assert(byte_len(seq![' ']) == 1) by {
                    assert(seq![' '].drop_last() =~= Seq::<char>::empty());
                    assert(seq![' '].last() == ' ');
                    assert(utf8_width(' ') == 1);
                    assert(byte_len(Seq::<char>::empty()) == 0);
                }
                assert(cur@ =~= before + seq![' '] + w@);
            }
            cur_bytes = cur_bytes + 1 + w_bytes;
            assert(cur_bytes <= 4 * cur@.len());
        } else {
            let ghost d = done.deep_view();
            let chunk = string_of(&cur);
            done.push(chunk);
            assert(done.deep_view() =~= d.push(cur@));
            cur = w.clone();
            cur_bytes = w_bytes;
        }
        i = i + 1;
    }
    assert(wv.take(ws.len() as int) =~= wv);
    if cur.len() > 0 {
        let ghost d = done.deep_view();
        let chunk = string_of(&cur);
        done.push(chunk);
        assert(done.deep_view() =~= d.push(cur@));
    }
    done
}

// ---------------------------------------------------------------------------
// Requests to the speech service
// ---------------------------------------------------------------------------

/// Bytes that the `application/x-www-form-urlencoded` byte serializer
/// leaves unchanged: `*`, `-`, `.`, `_` and ASCII letters and digits.
pub open spec fn form_unchanged(b: u8) -> bool {
    b == 0x2A || b == 0x2D || b == 0x2E || (0x30 <= b <= 0x39) || (0x41 <= b <= 0x5A) || b
        == 0x5F || (0x61 <= b <= 0x7A)
}

/// The uppercase hexadecimal digit for `n` (0..=15).
pub open spec fn hex_digit(n: u8) -> char {
    if n < 10 {
        (n + 48) as char
    } else {
        (n + 55) as char
    }
}

/// How one byte is written: unchanged, `+` for a space, `%XY` otherwise.
pub open spec fn form_byte(b: u8) -> Seq<char> {
    if form_unchanged(b) {
        seq![b as char]
    } else if b == 0x20 {
        seq!['+']
    } else {
        seq!['%', hex_digit(b / 16), hex_digit(b % 16)]
    }
}

/// The `application/x-www-form-urlencoded` serialization of `bytes`.
pub open spec fn form_encoded(bytes: Seq<u8>) -> Seq<char>
    decreases bytes.len(),
{
    if bytes.len() == 0 {
        seq![]
    } else {
        form_encoded(bytes.drop_last()) + form_byte(bytes.last())
    }
}

/// `form_urlencoded::byte_serialize`, collected into a `String`. Its source
/// writes each byte as [`form_byte`] says, which is what the contract
/// states.
#[verifier::external_body]
fn form_urlencode(bytes: &[u8]) -> (r: String)
    ensures
        r@ == form_encoded(bytes@),
{
    form_urlencoded::byte_serialize(bytes).collect()
}

/// The address of the speech service, before the URL-encoded text.
pub const TTS_URL_PREFIX: &'static str =
    "https://translate.google.com/translate_tts?ie=UTF-8&tl=es&client=tw-ob&q=";

/// The error for a text with nothing to say.
pub const EMPTY_SPEECH_TEXT: &'static str = "Texto vacío para síntesis de voz";

/// The error when the service gave no audio at all.
pub const NO_AUDIO: &'static str = "No se pudo generar audio de voz";

/// At most this many characters of cleaned text are spoken.
pub const MAX_SPEECH_CHARS: usize = 400;

/// Chunks sent to the speech service hold at most this many bytes.
pub const SPEECH_CHUNK_BYTES: usize = 140;

/// The request URL for one chunk of text.
pub open spec fn speech_url(chunk: Seq<char>) -> Seq<char> {
    TTS_URL_PREFIX@ + form_encoded(vstd::utf8::encode_utf8(chunk))
}

/// The request URLs for `chunks`, in order.
pub open spec fn speech_urls_of(chunks: Seq<Seq<char>>) -> Seq<Seq<char>> {
    chunks.map_values(|c: Seq<char>| speech_url(c))
}

/// The requests that synthesize `raw`: its cleaned text, cut to its first
/// 400 characters, in chunks of at most 140 bytes, one URL each; an error
/// when the cleaned text is empty.
pub open spec fn speech_requests(raw: Seq<char>) -> Result<Seq<Seq<char>>, Seq<char>> {
    let cleaned = speech_text(raw);
    if cleaned.len() == 0 {
        Err(EMPTY_SPEECH_TEXT@)
    } else {
        let spoken = if cleaned.len() > MAX_SPEECH_CHARS {
            cleaned.take(MAX_SPEECH_CHARS as int)
        } else {
            cleaned
        };
        Ok(speech_urls_of(chunks_of(spoken, SPEECH_CHUNK_BYTES as nat)))
    }
}

/// The URLs to fetch to synthesize `raw`, as [`speech_requests`] says.
pub fn speech_request_urls(raw: &str) -> (r: Result<Vec<String>, String>)
    ensures
        match (r, speech_requests(raw@)) {
            (Ok(urls), Ok(s)) => urls.deep_view() == s,
            (Err(e), Err(s)) => e@ == s,
            _ => false,
        },
{
    let cleaned = clean_text_for_speech(raw);
    let cs = chars_of(cleaned.as_str());
    if cs.len() == 0 {
        return Err(String::from_str(EMPTY_SPEECH_TEXT));
    }
    let mut spoken: Vec<char> = Vec::new();
    let mut i: usize = 0;
    while i < cs.len() && i < MAX_SPEECH_CHARS
        invariant
            i <= cs.len(),
            i <= MAX_SPEECH_CHARS,
            spoken@ == cs@.take(i as int),
        decreases cs.len() - i,
    {
        spoken.push(cs[i]);
        i = i + 1;
        assert(spoken@ =~= cs@.take(i as int));
    }
    if cs.len() <= MAX_SPEECH_CHARS {
        assert(cs@.take(cs.len() as int) =~= cs@);
    }
    let spoken_text = string_of(&spoken);
    let chunks = split_into_chunks(spoken_text.as_str(), SPEECH_CHUNK_BYTES);
    let ghost cv = chunks.deep_view();
    let mut urls: Vec<String> = Vec::new();
    let mut k: usize = 0;
    while k < chunks.len()
        invariant
            k <= chunks.len(),
            cv == chunks.deep_view(),
            urls.deep_view() == speech_urls_of(cv.take(k as int)),
        decreases chunks.len() - k,
    {
        let ghost prev = urls.deep_view();
        let chunk: &str = chunks[k].as_str();
        let bytes = chunk.as_bytes();
        assert(bytes@ == vstd::utf8::encode_utf8(chunk@));
        let encoded = form_urlencode(bytes);
        let mut url = String::from_str(TTS_URL_PREFIX);
        url.append(encoded.as_str());
        assert(cv[k as int] == chunks[k as int]@);
        assert(url@ == speech_url(cv[k as int]));
        urls.push(url);
        assert(urls.deep_view() =~= prev.push(speech_url(cv[k as int])));
        assert(cv.take(k + 1) =~= cv.take(k as int).push(cv[k as int]));
        k = k + 1;
        assert(urls.deep_view() =~= speech_urls_of(cv.take(k as int)));
    }
    assert(cv.take(chunks.len() as int) =~= cv);
    Ok(urls)
}

/// The pieces of `parts` one after another.
pub open spec fn concatenation(parts: Seq<Seq<u8>>) -> Seq<u8>
    decreases parts.len(),
{
    if parts.len() == 0 {
        seq![]
    } else {
        concatenation(parts.drop_last()) + parts.last()
    }
}

/// A failed call to the speech service, with the failure's description.
pub enum TtsFailure {
    /// The request could not be sent.
    Connect(String),
    /// The service answered with an unsuccessful status (its rendering).
    Status(String),
    /// The audio could not be downloaded.
    Download(String),
}

/// The error message for a failed call to the speech service.
pub open spec fn tts_failure_text(failure: TtsFailure) -> Seq<char> {
    match failure {
        TtsFailure::Connect(e) => "Error conectando con servicio TTS: "@ + e@,
        TtsFailure::Status(s) => "Servicio TTS devolvió status "@ + s@,
        TtsFailure::Download(e) => "Error descargando audio TTS: "@ + e@,
    }
}

/// The error message for a failed call to the speech service.
pub fn tts_error_text(failure: &TtsFailure) -> (r: String)
    ensures
        r@ == tts_failure_text(*failure),
{
    let (prefix, detail) = match failure {
        TtsFailure::Connect(e) => ("Error conectando con servicio TTS: ", e),
        TtsFailure::Status(s) => ("Servicio TTS devolvió status ", s),
        TtsFailure::Download(e) => ("Error descargando audio TTS: ", e),
    };
    let mut r = String::from_str(prefix);
    r.append(detail.as_str());
    r
}

/// The first failure among `replies`, in order.
pub open spec fn first_failure(replies: Seq<Result<Vec<u8>, TtsFailure>>) -> Option<TtsFailure>
    decreases replies.len(),
{
    if replies.len() == 0 {
        None
    } else {
        match first_failure(replies.drop_last()) {
            Some(f) => Some(f),
            None => match replies.last() {
                Err(f) => Some(f),
                Ok(_) => None,
            },
        }
    }
}

proof fn lemma_first_failure_prefix(replies: Seq<Result<Vec<u8>, TtsFailure>>, k: int)
    requires
        0 <= k <= replies.len(),
        first_failure(replies.take(k)) is Some,
    ensures
        first_failure(replies) == first_failure(replies.take(k)),
    decreases replies.len() - k,
{
    if k < replies.len() {
        assert(replies.drop_last().take(k) =~= replies.take(k));
        lemma_first_failure_prefix(replies.drop_last(), k);
    } else {
        assert(replies.take(k) =~= replies);
    }
}

/// The audio of each reply (none for a failed one).
pub open spec fn reply_audio(replies: Seq<Result<Vec<u8>, TtsFailure>>) -> Seq<Seq<u8>> {
    Seq::new(
        replies.len(),
        |i: int|
            match replies[i] {
                Ok(a) => a@,
                Err(_) => seq![],
            },
    )
}

/// What to do next while synthesizing speech.
pub enum SpeechStep {
    /// Request this URL and add its reply to the replies so far.
    Fetch(String),
    /// Synthesis is over, with this result.
    Done(Result<Vec<u8>, String>),
}

/// The next step of synthesis for the request `urls`, given the replies so
/// far (one per URL, in order): the first failure ends it with its message;
/// while URLs are left, the next one is requested; once every URL has
/// answered, the audio is the replies' audio one after another, or an
/// error when there is none at all.
pub open spec fn speech_step_is(
    urls: Seq<Seq<char>>,
    replies: Seq<Result<Vec<u8>, TtsFailure>>,
    step: SpeechStep,
) -> bool {
    match first_failure(replies) {
        Some(f) => step matches SpeechStep::Done(Err(e)) && e@ == tts_failure_text(f),
        None => if replies.len() < urls.len() {
            step matches SpeechStep::Fetch(u) && u@ == urls[replies.len() as int]
        } else {
            let audio = concatenation(reply_audio(replies));
            if audio.len() == 0 {
                step matches SpeechStep::Done(Err(e)) && e@ == NO_AUDIO@
            } else {
                step matches SpeechStep::Done(Ok(a)) && a@ == audio
            }
        },
    }
}

/// Decides the next step of synthesis, as [`speech_step_is`] says.
pub fn speech_step(urls: &Vec<String>, replies: &Vec<Result<Vec<u8>, TtsFailure>>) -> (r:
    SpeechStep)
    ensures
        speech_step_is(urls.deep_view(), replies@, r),
{
    let mut all: Vec<u8> = Vec::new();
    let mut i: usize = 0;
    while i < replies.len()
        invariant
            i <= replies.len(),
            first_failure(replies@.take(i as int)) is None,
            all@ == concatenation(reply_audio(replies@.take(i as int))),
        decreases replies.len() - i,
    {
        assert(replies@.take(i + 1).drop_last() =~= replies@.take(i as int));
        assert(reply_audio(replies@.take(i + 1)).drop_last() =~= reply_audio(
            replies@.take(i as int),
        ));
        match &replies[i] {
            Err(f) => {
                proof {
                    lemma_first_failure_prefix(replies@, i + 1);
                }
                let e = tts_error_text(f);
                return SpeechStep::Done(Err(e));
            },
            Ok(part) => {
                let mut j: usize = 0;
                let ghost start = all@;
                while j < part.len()
                    invariant
                        j <= part.len(),
                        all@ == start + part@.take(j as int),
                    decreases part.len() - j,
                {
                    all.push(part[j]);
                    j = j + 1;
                    assert(all@ =~= start + part@.take(j as int));
                }
                assert(part@.take(part.len() as int) =~= part@);
                assert(reply_audio(replies@.take(i + 1)).last() == part@);
            },
        }
        i = i + 1;
    }
    assert(replies@.take(replies.len() as int) =~= replies@);
    if replies.len() < urls.len() {
        assert(urls.deep_view()[replies.len() as int] == urls[replies.len() as int]@);
        return SpeechStep::Fetch(urls[replies.len()].clone());
    }
    if all.len() == 0 {
        return SpeechStep::Done(Err(String::from_str(NO_AUDIO)));
    }
    SpeechStep::Done(Ok(all))
}

} // verus!
