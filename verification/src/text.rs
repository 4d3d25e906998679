//! Character-level text handling: whitespace, ASCII case, whitespace
//! normalisation and the lookup key of a correction rule.
use vstd::prelude::*;
use vstd::utf8::is_ascii_chars;

verus! {

// ---------------------------------------------------------------------------
// Character classes
// ---------------------------------------------------------------------------

/// The Unicode `White_Space` property, the notion of whitespace that Rust's
/// `char::is_whitespace` and `str::split_whitespace` use.
pub open spec fn is_white_space(c: char) -> bool {
    let u = c as u32;
    ||| 0x09 <= u <= 0x0D
    ||| u == 0x20
    ||| u == 0x85
    ||| u == 0xA0
    ||| u == 0x1680
    ||| 0x2000 <= u <= 0x200A
    ||| u == 0x2028
    ||| u == 0x2029
    ||| u == 0x202F
    ||| u == 0x205F
    ||| u == 0x3000
}

/// Whether `c` has the Unicode `White_Space` property.
pub fn is_whitespace_char(c: char) -> (r: bool)
    ensures
        r == is_white_space(c),
{
    let u = c as u32;
    (0x09 <= u && u <= 0x0D) || u == 0x20 || u == 0x85 || u == 0xA0 || u == 0x1680 || (0x2000
        <= u && u <= 0x200A) || u == 0x2028 || u == 0x2029 || u == 0x202F || u == 0x205F || u
        == 0x3000
}

/// `c` mapped to lower case if it is an ASCII upper-case letter, else `c`.
pub open spec fn ascii_lower(c: char) -> char {
    if 'A' <= c && c <= 'Z' {
        ((c as u32) + 32) as char
    } else {
        c
    }
}

/// Executable form of [`ascii_lower`].
pub fn to_ascii_lower(c: char) -> (r: char)
    ensures
        r == ascii_lower(c),
{
    if 'A' <= c && c <= 'Z' {
        let u: u32 = (c as u32) + 32;
        assert(0x61 <= u <= 0x7A);
        char_from_ascii_code(u)
    } else {
        c
    }
}

/// The character with ASCII code `u`.
pub(crate) fn char_from_ascii_code(u: u32) -> (r: char)
    requires
        u < 128,
    ensures
        r == u as char,
        r as u32 == u,
{
    let b: u8 = u as u8;
    b as char
}

/// The ASCII-lower-cased form of a character sequence.
pub open spec fn ascii_lower_seq(s: Seq<char>) -> Seq<char> {
    s.map_values(|c: char| ascii_lower(c))
}

/// Two strings match when compared ignoring ASCII case: what
/// `str::eq_ignore_ascii_case` computes.
pub open spec fn eq_ignore_ascii_case_spec(a: Seq<char>, b: Seq<char>) -> bool {
    ascii_lower_seq(a) == ascii_lower_seq(b)
}

// ---------------------------------------------------------------------------
// Conversions between `str`/`String` and sequences of characters
// ---------------------------------------------------------------------------

/// The characters of `s`, in order.
pub fn chars_of(s: &str) -> (out: Vec<char>)
    ensures
        out@ == s@,
{
    let mut out: Vec<char> = Vec::new();
    for c in it: s.chars()
        invariant
            out@ == it.seq().take(it.index() as int),
            it.seq() == s@,
    {
        out.push(c);
    }
    out
}

/// `String::push`: appends one character.
#[verifier::external_body]
fn push_char(s: &mut String, c: char)
    ensures
        final(s)@ == old(s)@.push(c),
{
    s.push(c);
}

/// The string made of the characters in `chars`.
pub fn string_of(chars: &Vec<char>) -> (s: String)
    ensures
        s@ == chars@,
{
    let mut s = String::new();
    let n = chars.len();
    for i in 0..n
        invariant
            n == chars@.len(),
            s@ == chars@.take(i as int),
    {
        push_char(&mut s, chars[i]);
        assert(chars@.take(i + 1) == chars@.take(i as int).push(chars@[i as int]));
    }
    assert(chars@.take(n as int) == chars@);
    s
}

/// Whether `a` and `b` are equal when compared ignoring ASCII case.
pub fn eq_ignore_ascii_case(a: &str, b: &str) -> (r: bool)
    ensures
        r == eq_ignore_ascii_case_spec(a@, b@),
{
    let x = chars_of(a);
    let y = chars_of(b);
    if x.len() != y.len() {
        assert(ascii_lower_seq(a@).len() != ascii_lower_seq(b@).len());
        return false;
    }
    let n = x.len();
    for i in 0..n
        invariant
            n == x@.len(),
            n == y@.len(),
            x@ == a@,
            y@ == b@,
            forall|j: int| 0 <= j < i ==> ascii_lower(#[trigger] x@[j]) == ascii_lower(y@[j]),
    {
        if to_ascii_lower(x[i]) != to_ascii_lower(y[i]) {
            assert(ascii_lower_seq(a@)[i as int] != ascii_lower_seq(b@)[i as int]);
            return false;
        }
    }
    assert(ascii_lower_seq(a@) =~= ascii_lower_seq(b@));
    true
}

// ---------------------------------------------------------------------------
// Whitespace normalisation
// ---------------------------------------------------------------------------

/// The state after scanning `s` from the left: the text produced so far and
/// whether a run of whitespace has been seen after the last word.
///
/// Leading whitespace is dropped, every run of whitespace between two words
/// becomes one space, and trailing whitespace is dropped; this is what
/// `s.split_whitespace().collect::<Vec<_>>().join(" ")` produces
/// (`lemma_normalize_joins_words` shows the text is the words of `s`
/// joined by single spaces).
pub open spec fn normalize_scan(s: Seq<char>) -> (Seq<char>, bool)
    decreases s.len(),
{
    if s.len() == 0 {
        (Seq::empty(), false)
    } else {
        let (out, gap) = normalize_scan(s.drop_last());
        let c = s.last();
        if is_white_space(c) {
            (out, out.len() > 0)
        } else if gap {
            (out.push(' ').push(c), false)
        } else {
            (out.push(c), false)
        }
    }
}

/// The words of `s` joined by single spaces.
pub open spec fn normalize_spec(s: Seq<char>) -> Seq<char> {
    normalize_scan(s).0
}

/// A text in normal form: it holds no whitespace but single spaces, each
/// between two characters that are not whitespace.
pub open spec fn is_normalized(s: Seq<char>) -> bool {
    forall|i: int|
        0 <= i < s.len() && is_white_space(#[trigger] s[i]) ==> {
            &&& s[i] == ' '
            &&& 0 < i < s.len() - 1
            &&& !is_white_space(s[i - 1])
            &&& !is_white_space(s[i + 1])
        }
}

/// Collapses each run of whitespace in `value` into one space and trims
/// both ends.
pub fn normalize_correction_text(value: &str) -> (out: String)
    ensures
        out@ == normalize_spec(value@),
{
    let chars = chars_of(value);
    let n = chars.len();
    let mut out: Vec<char> = Vec::new();
    let mut gap = false;
    for i in 0..n
        invariant
            n == chars@.len(),
            chars@ == value@,
            (out@, gap) == normalize_scan(chars@.take(i as int)),
    {
        let c = chars[i];
        assert(chars@.take(i + 1).drop_last() == chars@.take(i as int));
        if is_whitespace_char(c) {
            gap = out.len() > 0;
        } else {
            if gap {
                out.push(' ');
            }
            out.push(c);
            gap = false;
        }
    }
    assert(chars@.take(n as int) == chars@);
    string_of(&out)
}

/// What normalisation produces is in normal form, and a pending gap is
/// only ever recorded after some text.
proof fn lemma_normalize_scan_normalized(s: Seq<char>)
    ensures
        is_normalized(normalize_scan(s).0),
        normalize_scan(s).1 ==> normalize_scan(s).0.len() > 0,
        normalize_scan(s).0.len() > 0 ==> !is_white_space(normalize_scan(s).0.last()),
    decreases s.len(),
{
    if s.len() > 0 {
        lemma_normalize_scan_normalized(s.drop_last());
        let (out, gap) = normalize_scan(s.drop_last());
        let c = s.last();
        if !is_white_space(c) {
            if gap {
                let o2 = out.push(' ').push(c);
                assert forall|i: int| 0 <= i < o2.len() && is_white_space(#[trigger] o2[i]) implies {
                    &&& o2[i] == ' '
                    &&& 0 < i < o2.len() - 1
                    &&& !is_white_space(o2[i - 1])
                    &&& !is_white_space(o2[i + 1])
                } by {
                    if i < out.len() {
                        assert(o2[i] == out[i]);
                        if i + 1 < out.len() {
                            assert(o2[i + 1] == out[i + 1]);
                        }
                        assert(o2[i - 1] == out[i - 1]);
                    }
                }
            } else {
                let o2 = out.push(c);
                assert forall|i: int| 0 <= i < o2.len() && is_white_space(#[trigger] o2[i]) implies {
                    &&& o2[i] == ' '
                    &&& 0 < i < o2.len() - 1
                    &&& !is_white_space(o2[i - 1])
                    &&& !is_white_space(o2[i + 1])
                } by {
                    assert(o2[i] == out[i]);
                    if i + 1 < out.len() {
                        assert(o2[i + 1] == out[i + 1]);
                    }
                    assert(o2[i - 1] == out[i - 1]);
                }
            }
        }
    }
}

/// Scanning a prefix of a normal-form text reproduces it, up to a single
/// trailing space that is held back as a pending gap.
proof fn lemma_normalize_scan_of_normal_prefix(s: Seq<char>)
    requires
        forall|i: int|
            0 <= i < s.len() && is_white_space(#[trigger] s[i]) ==> {
                &&& s[i] == ' '
                &&& 0 < i
                &&& !is_white_space(s[i - 1])
            },
    ensures
        s.len() > 0 && s.last() == ' ' ==> normalize_scan(s) == (s.drop_last(), true),
        !(s.len() > 0 && s.last() == ' ') ==> normalize_scan(s) == (s, false),
    decreases s.len(),
{
    if s.len() > 0 {
        let p = s.drop_last();
        assert forall|i: int| 0 <= i < p.len() && is_white_space(#[trigger] p[i]) implies {
            &&& p[i] == ' '
            &&& 0 < i
            &&& !is_white_space(p[i - 1])
        } by {
            assert(p[i] == s[i]);
            assert(p[i - 1] == s[i - 1]);
        }
        lemma_normalize_scan_of_normal_prefix(p);
        let c = s.last();
        if is_white_space(c) {
            assert(s[s.len() - 1] == c);
            assert(!is_white_space(s[s.len() - 2]));
            assert(p.last() == s[s.len() - 2]);
        } else if p.len() > 0 && p.last() == ' ' {
            assert(p.drop_last().push(' ').push(c) =~= s);
        } else {
            assert(p.push(c) =~= s);
        }
    }
}

/// Normalising whitespace twice gives what normalising it once gives.
pub proof fn lemma_normalize_idempotent(s: Seq<char>)
    ensures
        normalize_spec(normalize_spec(s)) == normalize_spec(s),
        is_normalized(normalize_spec(s)),
{
    lemma_normalize_scan_normalized(s);
    let t = normalize_spec(s);
    assert forall|i: int| 0 <= i < t.len() && is_white_space(#[trigger] t[i]) implies {
        &&& t[i] == ' '
        &&& 0 < i
        &&& !is_white_space(t[i - 1])
    } by {}
    lemma_normalize_scan_of_normal_prefix(t);
}

/// A text already in normal form is left unchanged by normalisation.
pub proof fn lemma_normalize_fixes_normal_text(s: Seq<char>)
    requires
        is_normalized(s),
    ensures
        normalize_spec(s) == s,
{
    assert forall|i: int| 0 <= i < s.len() && is_white_space(#[trigger] s[i]) implies {
        &&& s[i] == ' '
        &&& 0 < i
        &&& !is_white_space(s[i - 1])
    } by {}
    if s.len() > 0 {
        assert(!is_white_space(s[s.len() - 1]));
        assert(s.last() == s[s.len() - 1]);
    }
    lemma_normalize_scan_of_normal_prefix(s);
}

// ---------------------------------------------------------------------------
// Lookup key of a correction rule
// ---------------------------------------------------------------------------

/// What `str::to_lowercase` returns for a string: the Unicode lower-case
/// mapping of its characters.
pub uninterp spec fn unicode_lowercase(s: Seq<char>) -> Seq<char>;

/// `str::to_lowercase`. On ASCII text the Unicode lower-case mapping is the
/// ASCII one: letters `A`..`Z` become `a`..`z`, every other ASCII character
/// is its own lower case.
#[verifier::external_body]
fn to_lowercase(s: &str) -> (r: String)
    ensures
        r@ == unicode_lowercase(s@),
        is_ascii_chars(s@) ==> r@ == ascii_lower_seq(s@),
{
    s.to_lowercase()
}

/// The key under which a correction rule is stored: its normalised text in
/// lower case.
pub open spec fn correction_key_spec(s: Seq<char>) -> Seq<char> {
    unicode_lowercase(normalize_spec(s))
}

/// The key under which a correction rule with heard text `value` is stored;
/// two heard texts that differ only in whitespace or case share a key.
///
/// For ASCII text the key is the normalised text with ASCII letters in lower
/// case, so ASCII heard texts that differ only in letter case and spacing
/// share a key.
pub fn correction_key(value: &str) -> (key: String)
    ensures
        key@ == correction_key_spec(value@),
        is_ascii_chars(value@) ==> key@ == ascii_lower_seq(normalize_spec(value@)),
{
    let normalized = normalize_correction_text(value);
    proof {
        if is_ascii_chars(value@) {
            lemma_normalize_keeps_ascii(value@);
        }
    }
    to_lowercase(normalized.as_str())
}

/// Normalising ASCII text gives ASCII text.
proof fn lemma_normalize_keeps_ascii(s: Seq<char>)
    requires
        is_ascii_chars(s),
    ensures
        is_ascii_chars(normalize_scan(s).0),
    decreases s.len(),
{
    if s.len() > 0 {
        assert(is_ascii_chars(s.drop_last())) by {
            assert forall|i: int| 0 <= i < s.drop_last().len() implies '\0' <= #[trigger] s.drop_last()[i]
                <= '\u{7f}' by {
                assert(s.drop_last()[i] == s[i]);
            }
        }
        lemma_normalize_keeps_ascii(s.drop_last());
        assert(s.last() == s[s.len() - 1]);
        let out = normalize_scan(s.drop_last()).0;
        let o2 = normalize_scan(s).0;
        assert forall|i: int| 0 <= i < o2.len() implies '\0' <= #[trigger] o2[i] <= '\u{7f}' by {
            if i < out.len() {
                assert(o2[i] == out[i]);
            }
        }
    }
}

/// The words of `s`: its maximal runs of characters that are not
/// whitespace, in order.
pub open spec fn words(s: Seq<char>) -> Seq<Seq<char>>
    decreases s.len(),
{
    if s.len() == 0 {
        Seq::empty()
    } else {
        let w = words(s.drop_last());
        let c = s.last();
        if is_white_space(c) {
            w
        } else if s.len() > 1 && !is_white_space(s[s.len() - 2]) && w.len() > 0 {
            w.update(w.len() - 1, w.last().push(c))
        } else {
            w.push(seq![c])
        }
    }
}

/// `ws` joined with single spaces between them.
pub open spec fn join_with_spaces(ws: Seq<Seq<char>>) -> Seq<char>
    decreases ws.len(),
{
    if ws.len() == 0 {
        Seq::empty()
    } else if ws.len() == 1 {
        ws[0]
    } else {
        join_with_spaces(ws.drop_last()) + seq![' '] + ws.last()
    }
}

proof fn lemma_join_nonempty(ws: Seq<Seq<char>>)
    requires
        forall|k: int| 0 <= k < ws.len() ==> (#[trigger] ws[k]).len() > 0,
    ensures
        (join_with_spaces(ws).len() > 0) == (ws.len() > 0),
    decreases ws.len(),
{
    if ws.len() > 1 {
        lemma_join_nonempty(ws.drop_last());
    }
}

proof fn lemma_normalize_scan_is_join(s: Seq<char>)
    ensures
        normalize_scan(s).0 == join_with_spaces(words(s)),
        normalize_scan(s).1 == (words(s).len() > 0 && s.len() > 0 && is_white_space(s.last())),
        s.len() > 0 && !is_white_space(s.last()) ==> words(s).len() > 0,
        forall|k: int| 0 <= k < words(s).len() ==> (#[trigger] words(s)[k]).len() > 0,
    decreases s.len(),
{
    if s.len() > 0 {
        let p = s.drop_last();
        lemma_normalize_scan_is_join(p);
        let w = words(p);
        let c = s.last();
        lemma_join_nonempty(w);
        if is_white_space(c) {
        } else if s.len() > 1 && !is_white_space(s[s.len() - 2]) && w.len() > 0 {
            assert(p.last() == s[s.len() - 2]);
            let w2 = w.update(w.len() - 1, w.last().push(c));
            if w.len() == 1 {
                assert(join_with_spaces(w2) == w2[0]);
            } else {
                assert(w2.drop_last() =~= w.drop_last());
                assert(join_with_spaces(w2) =~= join_with_spaces(w).push(c));
            }
            assert forall|k: int| 0 <= k < w2.len() implies (#[trigger] w2[k]).len() > 0 by {
                if k < w.len() - 1 {
                    assert(w2[k] == w[k]);
                }
            }
        } else {
            let w2 = w.push(seq![c]);
            assert(w2.drop_last() =~= w);
            if s.len() > 1 {
                assert(p.last() == s[s.len() - 2]);
            }
            if w.len() > 0 {
                assert(join_with_spaces(w2) =~= join_with_spaces(w).push(' ').push(c));
            } else {
                assert(join_with_spaces(w2) =~= seq![c]);
            }
            assert forall|k: int| 0 <= k < w2.len() implies (#[trigger] w2[k]).len() > 0 by {
                if k < w.len() {
                    assert(w2[k] == w[k]);
                }
            }
        }
    }
}

/// Normalisation joins the words of a text with single spaces: it keeps
/// every word, and the boundaries between them, and drops all else.
pub proof fn lemma_normalize_joins_words(s: Seq<char>)
    ensures
        normalize_spec(s) == join_with_spaces(words(s)),
{
    lemma_normalize_scan_is_join(s);
}

proof fn lemma_filter_push(x: Seq<char>, a: char, pred: spec_fn(char) -> bool)
    ensures
        x.push(a).filter(pred) == if pred(a) {
            x.filter(pred).push(a)
        } else {
            x.filter(pred)
        },
{
    reveal_with_fuel(Seq::<_>::filter, 1);
    assert(x.push(a).drop_last() =~= x);
}

/// Normalisation keeps every character that is not whitespace, in order:
/// only whitespace is dropped or replaced.
pub proof fn lemma_normalize_keeps_words(s: Seq<char>)
    ensures
        normalize_spec(s).filter(|c: char| !is_white_space(c)) == s.filter(
            |c: char| !is_white_space(c),
        ),
    decreases s.len(),
{
    let pred = |c: char| !is_white_space(c);
    reveal_with_fuel(Seq::<_>::filter, 1);
    if s.len() > 0 {
        lemma_normalize_keeps_words(s.drop_last());
        let out = normalize_scan(s.drop_last()).0;
        let gap = normalize_scan(s.drop_last()).1;
        let c = s.last();
        if !is_white_space(c) {
            lemma_filter_push(out, ' ', pred);
            lemma_filter_push(out.push(' '), c, pred);
            lemma_filter_push(out, c, pred);
            assert(is_white_space(' '));
        }
    }
}

/// A heard text and its normalised form share a key, so normalising before
/// storing never changes which rules count as duplicates.
pub proof fn lemma_key_ignores_normalization(s: Seq<char>)
    ensures
        correction_key_spec(normalize_spec(s)) == correction_key_spec(s),
{
    lemma_normalize_idempotent(s);
}

} // verus!
