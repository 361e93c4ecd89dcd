//! Text primitives of the shell: Unicode white space, splitting a line into
//! words, and joining words back with a separator.

use vstd::prelude::*;

verus! {

/// The Unicode `White_Space` property: the characters that separate words.
pub open spec fn is_white_space(c: char) -> bool {
    let u = c as u32;
    ||| u == 0x20
    ||| 0x09 <= u <= 0x0d
    ||| u == 0x85
    ||| u == 0xa0
    ||| u == 0x1680
    ||| 0x2000 <= u <= 0x200a
    ||| u == 0x2028
    ||| u == 0x2029
    ||| u == 0x202f
    ||| u == 0x205f
    ||| u == 0x3000
}

/// Whether `c` is Unicode white space.
pub fn white_space(c: char) -> (r: bool)
    ensures
        r == is_white_space(c),
{
    let u = c as u32;
    u == 0x20 || (0x09 <= u && u <= 0x0d) || u == 0x85 || u == 0xa0 || u == 0x1680 || (0x2000
        <= u && u <= 0x200a) || u == 0x2028 || u == 0x2029 || u == 0x202f || u == 0x205f || u
        == 0x3000
}


/// Whether two strings hold the same characters.
pub fn same_text(a: &str, b: &str) -> (r: bool)
    ensures
        r == (a@ == b@),
{
    let x = chars_of(a);
    let y = chars_of(b);
    if x.len() != y.len() {
        return false;
    }
    let n = x.len();
    let mut i: usize = 0;
    while i < n
        invariant
            0 <= i <= n,
            n == x@.len(),
            n == y@.len(),
            x@ == a@,
            y@ == b@,
            forall|k: int| 0 <= k < i ==> x@[k] == y@[k],
        decreases n - i,
    {
        if x[i] != y[i] {
            return false;
        }
        i = i + 1;
    }
    assert(a@ =~= b@);
    true
}

/// The number of characters before the first white space of `s` (all of `s`
/// when it holds none).
pub open spec fn word_len(s: Seq<char>) -> nat
    decreases s.len(),
{
    if s.len() == 0 || is_white_space(s[0]) {
        0
    } else {
        1 + word_len(s.drop_first())
    }
}

pub proof fn lemma_word_len_bounds(s: Seq<char>)
    ensures
        word_len(s) <= s.len(),
        s.len() > 0 && !is_white_space(s[0]) ==> word_len(s) >= 1,
    decreases s.len(),
{
    if s.len() > 0 && !is_white_space(s[0]) {
        lemma_word_len_bounds(s.drop_first());
    }
}

/// The words of `s`: its maximal runs of characters that are not white space,
/// in order.
pub open spec fn words(s: Seq<char>) -> Seq<Seq<char>>
    decreases s.len(),
{
    if s.len() == 0 {
        seq![]
    } else if is_white_space(s[0]) {
        words(s.drop_first())
    } else {
        let n = word_len(s);
        proof {
            lemma_word_len_bounds(s);
        }
        seq![s.take(n as int)] + words(s.skip(n as int))
    }
}

/// A run of `n` characters that are not white space, followed by white space
/// or by the end, has length `word_len`.
proof fn lemma_word_len_exact(s: Seq<char>, n: int)
    requires
        0 <= n <= s.len(),
        forall|k: int| 0 <= k < n ==> !is_white_space(#[trigger] s[k]),
        n == s.len() || is_white_space(s[n]),
    ensures
        word_len(s) == n,
    decreases n,
{
    if n > 0 {
        assert forall|k: int| 0 <= k < n - 1 implies !is_white_space(#[trigger] s.drop_first()[k]) by {
            assert(s.drop_first()[k] == s[k + 1]);
        }
        lemma_word_len_exact(s.drop_first(), n - 1);
    }
}

/// The first `word_len(s)` characters of `s` are not white space.
proof fn lemma_word_chars(s: Seq<char>, k: int)
    requires
        0 <= k < word_len(s),
    ensures
        !is_white_space(s[k]),
    decreases s.len(),
{
    lemma_word_len_bounds(s);
    if k > 0 {
        lemma_word_chars(s.drop_first(), k - 1);
        assert(s.drop_first()[k - 1] == s[k]);
    }
}

/// Every word is non-empty and holds no white space.
pub proof fn lemma_words_are_words(s: Seq<char>)
    ensures
        forall|i: int| 0 <= i < words(s).len() ==> #[trigger] words(s)[i].len() > 0,
        forall|i: int, k: int|
            0 <= i < words(s).len() && 0 <= k < words(s)[i].len() ==> !is_white_space(
                #[trigger] words(s)[i][k],
            ),
    decreases s.len(),
{
    if s.len() > 0 {
        if is_white_space(s[0]) {
            lemma_words_are_words(s.drop_first());
            assert(words(s) == words(s.drop_first()));
        } else {
            let n = word_len(s);
            lemma_word_len_bounds(s);
            lemma_words_are_words(s.skip(n as int));
            let w = words(s);
            assert(w == seq![s.take(n as int)] + words(s.skip(n as int)));
            assert forall|i: int| 0 <= i < w.len() implies #[trigger] w[i].len() > 0 by {
                if i > 0 {
                    assert(w[i] == words(s.skip(n as int))[i - 1]);
                }
            }
            assert forall|i: int, k: int| 0 <= i < w.len() && 0 <= k < w[i].len() implies !is_white_space(
                #[trigger] w[i][k],
            ) by {
                if i > 0 {
                    assert(w[i] == words(s.skip(n as int))[i - 1]);
                } else {
                    lemma_word_chars(s, k);
                }
            }
        }
    }
}

/// A word ends at the latest at the first white space.
proof fn lemma_word_len_stops(a: Seq<char>, c: char, b: Seq<char>)
    requires
        is_white_space(c),
    ensures
        word_len(a + seq![c] + b) == word_len(a),
    decreases a.len(),
{
    let s = a + seq![c] + b;
    if a.len() == 0 {
        assert(s[0] == c);
    } else {
        assert(s[0] == a[0]);
        if !is_white_space(a[0]) {
            assert(s.drop_first() =~= a.drop_first() + seq![c] + b);
            lemma_word_len_stops(a.drop_first(), c, b);
        }
    }
}

/// Splitting at a white space character: the words of `a`, a white space
/// character, then `b`, are the words of `a` followed by the words of `b`.
pub proof fn lemma_words_split_at_white_space(a: Seq<char>, c: char, b: Seq<char>)
    requires
        is_white_space(c),
    ensures
        words(a + seq![c] + b) == words(a) + words(b),
    decreases a.len(),
{
    let s = a + seq![c] + b;
    if a.len() == 0 {
        assert(s[0] == c);
        assert(s.drop_first() =~= b);
        assert(words(a) =~= Seq::<Seq<char>>::empty());
        assert(words(a) + words(b) =~= words(b));
    } else if is_white_space(a[0]) {
        assert(s[0] == a[0]);
        assert(s.drop_first() =~= a.drop_first() + seq![c] + b);
        lemma_words_split_at_white_space(a.drop_first(), c, b);
    } else {
        assert(s[0] == a[0]);
        let n = word_len(a);
        lemma_word_len_stops(a, c, b);
        lemma_word_len_bounds(a);
        assert(s.take(n as int) =~= a.take(n as int));
        assert(s.skip(n as int) =~= a.skip(n as int) + seq![c] + b);
        lemma_words_split_at_white_space(a.skip(n as int), c, b);
        assert(words(s) == seq![s.take(n as int)] + words(s.skip(n as int)));
        assert(words(a) == seq![a.take(n as int)] + words(a.skip(n as int)));
        assert(words(s) =~= words(a) + words(b));
    }
}

/// The characters of `s`, in order.
pub fn chars_of(s: &str) -> (v: Vec<char>)
    ensures
        v@ == s@,
{
    let mut v: Vec<char> = Vec::new();
    for c in it: s.chars()
        invariant
            v@ == it.seq().take(it.index() as int),
    {
        v.push(c);
    }
    v
}


/// Splits `input` into its words, as `str::split_whitespace` does.
pub fn split_whitespace(input: &str) -> (tokens: Vec<String>)
    ensures
        tokens.deep_view() == words(input@),
{
    let chars = chars_of(input);
    let n = chars.len();
    let ghost s = input@;
    let mut tokens: Vec<String> = Vec::new();
    let mut i: usize = 0;
    assert(s.skip(0) =~= s);
    while i < n
        invariant
            0 <= i <= n,
            n == s.len(),
            chars@ == s,
            s == input@,
            words(s) == tokens.deep_view() + words(s.skip(i as int)),
        decreases n - i,
    {
        if white_space(chars[i]) {
            assert(s.skip(i as int).drop_first() =~= s.skip(i + 1));
            i = i + 1;
        } else {
            let start = i;
            while i < n && !white_space(chars[i])
                invariant
                    start <= i <= n,
                    n == s.len(),
                    chars@ == s,
                    forall|k: int| start <= k < i ==> !is_white_space(#[trigger] s[k]),
                decreases n - i,
            {
                i = i + 1;
            }
            let ghost rest = s.skip(start as int);
            proof {
                assert forall|k: int| 0 <= k < i - start implies !is_white_space(#[trigger] rest[k]) by {
                    assert(rest[k] == s[start + k]);
                }
                lemma_word_len_exact(rest, i - start);
                assert(rest.take(i - start) =~= s.subrange(start as int, i as int));
                assert(rest.skip(i - start) =~= s.skip(i as int));
            }
            let word = input.substring_char(start, i).to_owned();
            let ghost before = tokens.deep_view();
            tokens.push(word);
            assert(tokens.deep_view() =~= before.push(word@));
        }
    }
    assert(s.skip(n as int) =~= Seq::<char>::empty());
    assert(tokens.deep_view() + Seq::<Seq<char>>::empty() =~= tokens.deep_view());
    tokens
}


/// The words `ws` written one after another with `sep` between each two.
pub open spec fn join(ws: Seq<Seq<char>>, sep: Seq<char>) -> Seq<char>
    decreases ws.len(),
{
    if ws.len() == 0 {
        Seq::empty()
    } else if ws.len() == 1 {
        ws[0]
    } else {
        join(ws.drop_last(), sep) + sep + ws.last()
    }
}

/// Joins `parts` with `sep` between each two, as `[String]::join` does.
pub fn join_with(parts: &Vec<String>, sep: &str) -> (r: String)
    ensures
        r@ == join(parts.deep_view(), sep@),
{
    let mut r = String::new();
    let ghost ws = parts.deep_view();
    let n = parts.len();
    let mut i: usize = 0;
    while i < n
        invariant
            0 <= i <= n,
            n == parts.len(),
            ws == parts.deep_view(),
            r@ == join(ws.take(i as int), sep@),
        decreases n - i,
    {
        if i != 0 {
            r.append(sep);
        }
        r.append(parts[i].as_str());
        assert(ws.take(i + 1).drop_last() =~= ws.take(i as int));
        i = i + 1;
    }
    assert(ws.take(n as int) =~= ws);
    r
}

/// A non-empty run of characters that are not white space is one word.
pub proof fn lemma_single_word(w: Seq<char>)
    requires
        w.len() > 0,
        forall|k: int| 0 <= k < w.len() ==> !is_white_space(#[trigger] w[k]),
    ensures
        words(w) == seq![w],
{
    lemma_word_len_exact(w, w.len() as int);
    assert(w.take(w.len() as int) =~= w);
    assert(w.skip(w.len() as int) =~= Seq::<char>::empty());
    assert(words(w.skip(w.len() as int)) =~= Seq::<Seq<char>>::empty());
    assert(words(w) =~= seq![w]);
}

/// Writing words out separated by single spaces and splitting the result
/// again gives back the words, when each is non-empty and holds no white
/// space.
pub proof fn lemma_words_of_join(ws: Seq<Seq<char>>)
    requires
        forall|i: int| 0 <= i < ws.len() ==> #[trigger] ws[i].len() > 0,
        forall|i: int, k: int|
            0 <= i < ws.len() && 0 <= k < ws[i].len() ==> !is_white_space(#[trigger] ws[i][k]),
    ensures
        words(join(ws, " "@)) == ws,
    decreases ws.len(),
{
    if ws.len() == 0 {
        assert(words(Seq::<char>::empty()) =~= ws);
    } else {
        let last = ws.last();
        assert forall|k: int| 0 <= k < last.len() implies !is_white_space(#[trigger] last[k]) by {
            assert(last[k] == ws[ws.len() - 1][k]);
        }
        lemma_single_word(last);
        if ws.len() == 1 {
            assert(ws =~= seq![last]);
        } else {
            let init = ws.drop_last();
            assert forall|i: int| 0 <= i < init.len() implies #[trigger] init[i].len() > 0 by {
                assert(init[i] == ws[i]);
            }
            assert forall|i: int, k: int| 0 <= i < init.len() && 0 <= k < init[i].len() implies !is_white_space(
                #[trigger] init[i][k],
            ) by {
                assert(init[i] == ws[i]);
            }
            lemma_words_of_join(init);
            reveal_strlit(" ");
            assert(" "@ =~= seq![' ']);
            assert(is_white_space(' '));
            lemma_words_split_at_white_space(join(init, " "@), ' ', last);
            assert(join(ws, " "@) == join(init, " "@) + seq![' '] + last);
            assert(init + seq![last] =~= ws);
        }
    }
}

/// Joining: no words give nothing, one word gives itself, and joining two
/// non-empty lists one after the other puts one separator between them.
pub proof fn lemma_join_laws(a: Seq<Seq<char>>, b: Seq<Seq<char>>, w: Seq<char>, sep: Seq<char>)
    ensures
        join(Seq::empty(), sep) == Seq::<char>::empty(),
        join(seq![w], sep) == w,
        a.len() > 0 && b.len() > 0 ==> join(a + b, sep) == join(a, sep) + sep + join(b, sep),
    decreases b.len(),
{
    if a.len() > 0 && b.len() > 0 {
        let ab = a + b;
        assert(ab.drop_last() =~= a + b.drop_last());
        assert(ab.last() == b.last());
        if b.len() == 1 {
            assert(a + b.drop_last() =~= a);
            assert(join(b, sep) == b[0]);
        } else {
            lemma_join_laws(a, b.drop_last(), w, sep);
            assert(join(ab, sep) == join(a + b.drop_last(), sep) + sep + b.last());
            assert(join(b, sep) == join(b.drop_last(), sep) + sep + b.last());
            assert(join(ab, sep) =~= join(a, sep) + sep + join(b, sep));
        }
    }
}

/// A string without characters has no words.
pub proof fn lemma_no_words_in_nothing()
    ensures
        words(Seq::empty()) == Seq::<Seq<char>>::empty(),
{
}

/// Whether every character of `s` is ASCII.
pub open spec fn all_ascii(s: Seq<char>) -> bool {
    forall|i: int| 0 <= i < s.len() ==> ((#[trigger] s[i]) as u32) < 0x80
}

/// An ASCII upper-case letter, `A` to `Z`.
pub open spec fn is_ascii_upper(c: char) -> bool {
    0x41 <= c as u32 <= 0x5a
}

/// The character with ASCII upper-case letters mapped to lower case and
/// every other character kept.
pub open spec fn ascii_lower_char(c: char) -> char {
    if is_ascii_upper(c) {
        ((c as u32) + 0x20) as char
    } else {
        c
    }
}

/// `s` with ASCII upper-case letters mapped to lower case.
pub open spec fn ascii_lower(s: Seq<char>) -> Seq<char> {
    s.map_values(|c: char| ascii_lower_char(c))
}

/// The lower-case form of a string in full Unicode: what `str::to_lowercase`
/// returns for it. Its value is fixed by the Unicode case tables, which are
/// not restated here.
pub uninterp spec fn lowercase(s: Seq<char>) -> Seq<char>;

/// The lower-case form of a string: for an ASCII string, its ASCII letters in
/// lower case; otherwise its full Unicode lower-case form.
pub open spec fn lower_case(s: Seq<char>) -> Seq<char> {
    if all_ascii(s) {
        ascii_lower(s)
    } else {
        lowercase(s)
    }
}

/// Calls `str::to_lowercase`. Claimed: the result is `lowercase` of the
/// argument's characters, so that equal strings give equal results; it is no
/// shorter than the argument, as each character lowers to one or more
/// characters; and on an ASCII string, where the Unicode lower-case mapping
/// maps `A` to `Z` to `a` to `z` and keeps every other character, it is that
/// mapping.
#[verifier::external_body]
pub(crate) fn to_lowercase(s: &str) -> (r: String)
    ensures
        r@ == lowercase(s@),
        r@.len() >= s@.len(),
        all_ascii(s@) ==> r@ == ascii_lower(s@),
{
    s.to_lowercase()
}

/// The ASCII lower-case form of an ASCII word is an ASCII word of the same
/// length, and mapping it again changes nothing.
pub proof fn lemma_ascii_lower(s: Seq<char>)
    requires
        all_ascii(s),
    ensures
        ascii_lower(s).len() == s.len(),
        all_ascii(ascii_lower(s)),
        ascii_lower(ascii_lower(s)) == ascii_lower(s),
        forall|i: int| 0 <= i < s.len() ==> (is_white_space(#[trigger] ascii_lower(s)[i]) <==> is_white_space(s[i])),
{
    let l = ascii_lower(s);
    assert forall|i: int| 0 <= i < s.len() implies ((#[trigger] l[i]) as u32) < 0x80 && ascii_lower_char(l[i]) == l[i]
        && (is_white_space(l[i]) <==> is_white_space(s[i])) by {
        let c = s[i];
        assert((c as u32) < 0x80);
        if is_ascii_upper(c) {
            let d = ((c as u32) + 0x20) as char;
            assert(d as u32 == (c as u32) + 0x20);
        }
    }
    assert(ascii_lower(l) =~= l);
}

} // verus!
