//! Character-level string helpers used across the backend: splitting on a
//! separator, splitting on white space, prefixes, lower case and
//! decimal numbers.

use vstd::prelude::*;

verus! {

// ---------------------------------------------------------------------------
// Specifications
// ---------------------------------------------------------------------------

/// The Unicode `White_Space` property: the characters that `char::is_whitespace`
/// accepts, and on which `str::split_whitespace` and `str::trim` work.
pub open spec fn is_white_space(c: char) -> bool {
    let u = c as u32;
    ||| 0x9 <= u <= 0xd
    ||| u == 0x20
    ||| u == 0x85
    ||| u == 0xa0
    ||| u == 0x1680
    ||| 0x2000 <= u <= 0x200a
    ||| u == 0x2028
    ||| u == 0x2029
    ||| u == 0x202f
    ||| u == 0x205f
    ||| u == 0x3000
}

/// Every character of `s` is white space (so `s.trim()` is empty).
pub open spec fn all_white_space(s: Seq<char>) -> bool {
    forall|i: int| 0 <= i < s.len() ==> is_white_space(#[trigger] s[i])
}

/// The pieces of `s` between occurrences of `sep`, as `str::split` yields
/// them: there is always at least one piece, and a piece may be empty.
pub open spec fn split_on(s: Seq<char>, sep: char) -> Seq<Seq<char>>
    decreases s.len(),
{
    if s.len() == 0 {
        seq![Seq::<char>::empty()]
    } else {
        let prev = split_on(s.drop_last(), sep);
        if s.last() == sep {
            prev.push(Seq::<char>::empty())
        } else {
            prev.update(prev.len() - 1, prev.last().push(s.last()))
        }
    }
}

/// The pieces joined again, with `sep` between neighbours.
pub open spec fn join_on(parts: Seq<Seq<char>>, sep: char) -> Seq<char>
    decreases parts.len(),
{
    if parts.len() == 0 {
        Seq::<char>::empty()
    } else if parts.len() == 1 {
        parts[0]
    } else {
        join_on(parts.drop_last(), sep).push(sep) + parts.last()
    }
}

/// The maximal runs of non-white-space characters of `s`, in order, as
/// `str::split_whitespace` yields them.
pub open spec fn words(s: Seq<char>) -> Seq<Seq<char>>
    decreases s.len(),
{
    if s.len() == 0 {
        Seq::<Seq<char>>::empty()
    } else {
        let prev = words(s.drop_last());
        if is_white_space(s.last()) {
            prev
        } else if s.len() >= 2 && !is_white_space(s[s.len() - 2]) {
            prev.update(prev.len() - 1, prev.last().push(s.last()))
        } else {
            prev.push(seq![s.last()])
        }
    }
}

/// `w` stands in `s` at `i` as a whole word: white space (or the text's
/// edge) on either side.
pub open spec fn word_at(s: Seq<char>, w: Seq<char>, i: int) -> bool {
    &&& 0 <= i
    &&& i + w.len() <= s.len()
    &&& s.subrange(i, i + w.len()) == w
    &&& (i == 0 || is_white_space(s[i - 1]))
    &&& (i + w.len() == s.len() || is_white_space(s[i + w.len()]))
}

/// Every word of a text is a non-empty run without white space that stands
/// in the text as a whole word; the last one ends the text when the text
/// does not end in white space, and the others end before it.
pub proof fn lemma_words_found(s: Seq<char>)
    ensures
        s.len() > 0 && !is_white_space(s.last()) ==> words(s).len() > 0 && word_at(
            s,
            words(s).last(),
            s.len() - words(s).last().len(),
        ),
        forall|j: int|
            0 <= j < words(s).len() ==> {
                &&& (#[trigger] words(s)[j]).len() > 0
                &&& forall|t: int| 0 <= t < words(s)[j].len() ==> !is_white_space(#[trigger] words(s)[j][t])
                &&& exists|i: int|
                    word_at(s, words(s)[j], i) && (j + 1 < words(s).len() ==> i + words(s)[j].len() < s.len())
            },
    decreases s.len(),
{
    if s.len() > 0 {
        let p = s.drop_last();
        let c = s.last();
        lemma_words_found(p);
        let prev = words(p);
        let cur = words(s);
        if is_white_space(c) {
            assert forall|j: int| 0 <= j < cur.len() implies exists|i: int|
                word_at(s, #[trigger] cur[j], i) && (j + 1 < cur.len() ==> i + cur[j].len() < s.len()) by {
                let i = choose|i: int| word_at(p, prev[j], i) && (j + 1 < prev.len() ==> i + prev[j].len() < p.len());
                let w = prev[j];
                assert(s.subrange(i, i + w.len()) =~= p.subrange(i, i + w.len()));
                if i > 0 {
                    assert(s[i - 1] == p[i - 1]);
                }
                if i + w.len() < p.len() {
                    assert(s[i + w.len()] == p[i + w.len()]);
                }
                assert(word_at(s, w, i));
            }
        } else if s.len() >= 2 && !is_white_space(s[s.len() - 2]) {
            assert(p.last() == s[s.len() - 2]);
            let last = prev.last();
            let i0 = p.len() - last.len();
            assert(word_at(p, last, i0));
            assert(cur.len() == prev.len());
            assert(cur.last() == last.push(c));
            assert(s.subrange(i0, s.len() as int) =~= p.subrange(i0, p.len() as int).push(c));
            if i0 > 0 {
                assert(s[i0 - 1] == p[i0 - 1]);
            }
            assert(word_at(s, cur.last(), i0));
            assert forall|j: int| 0 <= j < cur.len() implies {
                &&& (#[trigger] cur[j]).len() > 0
                &&& forall|t: int| 0 <= t < cur[j].len() ==> !is_white_space(#[trigger] cur[j][t])
                &&& exists|i: int| word_at(s, cur[j], i) && (j + 1 < cur.len() ==> i + cur[j].len() < s.len())
            } by {
                if j + 1 < cur.len() {
                    assert(cur[j] == prev[j]);
                    let i = choose|i: int| word_at(p, prev[j], i) && (j + 1 < prev.len() ==> i + prev[j].len() < p.len());
                    assert(s.subrange(i, i + prev[j].len()) =~= p.subrange(i, i + prev[j].len()));
                    if i > 0 {
                        assert(s[i - 1] == p[i - 1]);
                    }
                    assert(s[i + prev[j].len()] == p[i + prev[j].len()]);
                    assert(word_at(s, cur[j], i));
                } else {
                    assert(forall|t: int| 0 <= t < last.len() ==> !is_white_space(#[trigger] prev[prev.len() - 1][t]));
                    assert forall|t: int| 0 <= t < cur[j].len() implies !is_white_space(#[trigger] cur[j][t]) by {
                        if t < last.len() {
                            assert(cur[j][t] == prev[prev.len() - 1][t]);
                        }
                    }
                    assert(word_at(s, cur[j], i0));
                }
            }
        } else {
            assert(cur == prev.push(seq![c]));
            assert(s.subrange(p.len() as int, s.len() as int) =~= seq![c]);
            assert(word_at(s, seq![c], p.len() as int));
            assert forall|j: int| 0 <= j < cur.len() implies {
                &&& (#[trigger] cur[j]).len() > 0
                &&& forall|t: int| 0 <= t < cur[j].len() ==> !is_white_space(#[trigger] cur[j][t])
                &&& exists|i: int| word_at(s, cur[j], i) && (j + 1 < cur.len() ==> i + cur[j].len() < s.len())
            } by {
                if j < prev.len() {
                    assert(cur[j] == prev[j]);
                    let w = prev[j];
                    let i = choose|i: int| word_at(p, prev[j], i) && (j + 1 < prev.len() ==> i + prev[j].len() < p.len());
                    assert(s.subrange(i, i + w.len()) =~= p.subrange(i, i + w.len()));
                    if i > 0 {
                        assert(s[i - 1] == p[i - 1]);
                    }
                    if i + w.len() == p.len() {
                        assert(p[i + w.len() - 1] == w[w.len() - 1]);
                        assert(false);
                    }
                    assert(s[i + w.len()] == p[i + w.len()]);
                    assert(word_at(s, cur[j], i));
                } else {
                    assert(word_at(s, cur[j], p.len() as int));
                }
            }
        }
    }
}

/// A text that ends in white space, or one that starts with it, parts the
/// words of what comes before from those of what comes after.
pub proof fn lemma_words_concat(x: Seq<char>, y: Seq<char>)
    requires
        x.len() == 0 || is_white_space(x.last()) || y.len() == 0 || is_white_space(y[0]),
    ensures
        words(x + y) == words(x) + words(y),
    decreases y.len(),
{
    if y.len() == 0 {
        assert(x + y =~= x);
        assert(words(x) + words(y) =~= words(x));
    } else {
        let xy = x + y;
        let yp = y.drop_last();
        let c = y.last();
        assert(xy.drop_last() =~= x + yp);
        assert(xy.last() == c);
        if yp.len() > 0 {
            assert(yp[0] == y[0]);
        }
        lemma_words_concat(x, yp);
        lemma_words_found(yp);
        if is_white_space(c) {
        } else if xy.len() >= 2 && !is_white_space(xy[xy.len() - 2]) {
            if yp.len() == 0 {
                assert(xy[xy.len() - 2] == x.last());
                assert(is_white_space(y[0]));
            } else {
                assert(xy[xy.len() - 2] == yp.last());
                assert(y[y.len() - 2] == yp.last());
                assert(words(yp).len() > 0);
                assert(words(x + y) =~= words(x) + words(y));
            }
        } else {
            if yp.len() > 0 {
                assert(xy[xy.len() - 2] == yp.last());
                assert(y[y.len() - 2] == yp.last());
            } else {
                assert(yp =~= Seq::<char>::empty());
            }
            assert(words(x + y) =~= words(x) + words(y));
        }
    }
}

/// A non-empty run without white space is a single word.
pub proof fn lemma_words_single(o: Seq<char>)
    requires
        o.len() > 0,
        forall|t: int| 0 <= t < o.len() ==> !is_white_space(#[trigger] o[t]),
    ensures
        words(o) == seq![o],
    decreases o.len(),
{
    let p = o.drop_last();
    if p.len() == 0 {
        assert(words(p) =~= Seq::<Seq<char>>::empty());
        assert(o =~= seq![o.last()]);
    } else {
        lemma_words_single(p);
        assert(p.last() == o[o.len() - 2]);
        assert(p.push(o.last()) =~= o);
    }
}

/// `s` begins with `prefix` (`str::starts_with`).
pub open spec fn has_prefix(s: Seq<char>, prefix: Seq<char>) -> bool {
    prefix.len() <= s.len() && s.subrange(0, prefix.len() as int) == prefix
}

/// The decimal digit character for `d < 10`.
pub open spec fn digit_char(d: nat) -> char {
    if d == 0 { '0' }
    else if d == 1 { '1' }
    else if d == 2 { '2' }
    else if d == 3 { '3' }
    else if d == 4 { '4' }
    else if d == 5 { '5' }
    else if d == 6 { '6' }
    else if d == 7 { '7' }
    else if d == 8 { '8' }
    else { '9' }
}

/// The decimal representation of `n` without leading zeros, as `format!("{}", n)`
/// writes it.
pub open spec fn decimal(n: nat) -> Seq<char>
    decreases n,
{
    if n < 10 {
        seq![digit_char(n)]
    } else {
        decimal(n / 10).push(digit_char(n % 10))
    }
}

/// The views of a sequence of character vectors.
pub open spec fn char_views(v: Seq<Vec<char>>) -> Seq<Seq<char>> {
    v.map_values(|w: Vec<char>| w@)
}

/// The views of a sequence of strings.
pub open spec fn string_views(v: Seq<String>) -> Seq<Seq<char>> {
    v.map_values(|w: String| w@)
}

// ---------------------------------------------------------------------------
// Laws
// ---------------------------------------------------------------------------

/// Splitting always yields at least one piece.
pub proof fn lemma_split_nonempty(s: Seq<char>, sep: char)
    ensures
        split_on(s, sep).len() >= 1,
    decreases s.len(),
{
    if s.len() > 0 {
        lemma_split_nonempty(s.drop_last(), sep);
    }
}

proof fn lemma_join_extend_last(parts: Seq<Seq<char>>, sep: char, c: char)
    requires
        parts.len() >= 1,
    ensures
        join_on(parts.update(parts.len() - 1, parts.last().push(c)), sep) == join_on(parts, sep).push(c),
{
    let q = parts.update(parts.len() - 1, parts.last().push(c));
    if parts.len() == 1 {
        assert(q[0] == parts[0].push(c));
    } else {
        assert(q.drop_last() =~= parts.drop_last());
        assert(join_on(q, sep) == join_on(q.drop_last(), sep).push(sep) + q.last());
        assert(join_on(parts, sep).push(c) =~= join_on(parts.drop_last(), sep).push(sep) + parts.last().push(c));
    }
}

/// Joining the pieces of a split with the same separator gives back the
/// original text, and no piece holds the separator.
pub proof fn lemma_split_join(s: Seq<char>, sep: char)
    ensures
        join_on(split_on(s, sep), sep) == s,
        forall|i: int, j: int| 0 <= i < split_on(s, sep).len() && 0 <= j < split_on(s, sep)[i].len()
            ==> split_on(s, sep)[i][j] != sep,
    decreases s.len(),
{
    lemma_split_nonempty(s, sep);
    if s.len() == 0 {
        assert(split_on(s, sep) =~= seq![Seq::<char>::empty()]);
    } else {
        let prev = split_on(s.drop_last(), sep);
        lemma_split_join(s.drop_last(), sep);
        lemma_split_nonempty(s.drop_last(), sep);
        if s.last() == sep {
            let cur = prev.push(Seq::<char>::empty());
            assert(cur.drop_last() =~= prev);
            assert(join_on(cur, sep) =~= s.drop_last().push(sep));
            assert(s.drop_last().push(sep) =~= s);
        } else {
            lemma_join_extend_last(prev, sep, s.last());
            assert(s.drop_last().push(s.last()) =~= s);
            let cur = prev.update(prev.len() - 1, prev.last().push(s.last()));
            assert forall|i: int, j: int| 0 <= i < cur.len() && 0 <= j < cur[i].len() implies cur[i][j] != sep by {
                if i == prev.len() - 1 && j < prev.last().len() {
                    assert(cur[i][j] == prev[i][j]);
                }
            }
        }
    }
}

proof fn lemma_words_last_nonempty(s: Seq<char>)
    requires
        s.len() > 0,
        !is_white_space(s.last()),
    ensures
        words(s).len() > 0,
    decreases s.len(),
{
    if s.len() >= 2 && !is_white_space(s[s.len() - 2]) {
        assert(s.drop_last().last() == s[s.len() - 2]);
        lemma_words_last_nonempty(s.drop_last());
    }
}

// ---------------------------------------------------------------------------
// Executable helpers
// ---------------------------------------------------------------------------

/// Appends one character to a `String` (`String::push`).
#[verifier::external_body]
pub(crate) fn push_char(s: &mut String, c: char)
    ensures
        final(s)@ == old(s)@.push(c),
{
    s.push(c);
}

/// The characters of a string slice, in order.
pub fn chars_of(s: &str) -> (res: Vec<char>)
    ensures
        res@ == s@,
{
    let mut res: Vec<char> = Vec::new();
    for c in it: s.chars()
        invariant
            res@ == it.seq().take(it.index() as int),
            it.seq() == s@,
    {
        res.push(c);
    }
    res
}

/// A `String` holding the given characters.
pub fn string_of(v: &Vec<char>) -> (res: String)
    ensures
        res@ == v@,
{
    let mut res = String::new();
    let mut i: usize = 0;
    while i < v.len()
        invariant
            i <= v.len(),
            res@ == v@.take(i as int),
        decreases v.len() - i,
    {
        push_char(&mut res, v[i]);
        assert(v@.take(i as int).push(v@[i as int]) =~= v@.take(i + 1));
        i = i + 1;
    }
    assert(v@.take(v.len() as int) =~= v@);
    res
}

/// `String::from` for a string slice.
pub fn owned(s: &str) -> (res: String)
    ensures
        res@ == s@,
{
    s.to_owned()
}

/// Concatenation of two string slices.
pub fn concat2(a: &str, b: &str) -> (res: String)
    ensures
        res@ == a@ + b@,
{
    let mut res = a.to_owned();
    res.append(b);
    res
}

/// Concatenation of three string slices.
pub fn concat3(a: &str, b: &str, c: &str) -> (res: String)
    ensures
        res@ == a@ + b@ + c@,
{
    let mut res = a.to_owned();
    res.append(b);
    res.append(c);
    res
}

/// Concatenation of four string slices.
pub fn concat4(a: &str, b: &str, c: &str, d: &str) -> (res: String)
    ensures
        res@ == a@ + b@ + c@ + d@,
{
    let mut res = a.to_owned();
    res.append(b);
    res.append(c);
    res.append(d);
    res
}

/// Whether two texts are equal.
pub fn same_text(a: &str, b: &str) -> (res: bool)
    ensures
        res == (a@ == b@),
{
    let x = chars_of(a);
    let y = chars_of(b);
    if x.len() != y.len() {
        return false;
    }
    let mut i: usize = 0;
    while i < x.len()
        invariant
            x.len() == y.len(),
            x@ == a@,
            y@ == b@,
            i <= x.len(),
            forall|m: int| 0 <= m < i ==> x@[m] == y@[m],
        decreases x.len() - i,
    {
        if x[i] != y[i] {
            return false;
        }
        i = i + 1;
    }
    assert(x@ =~= y@);
    true
}

/// The result of `str::to_lowercase` on a text: each character replaced by its
/// Unicode lowercase mapping.
pub uninterp spec fn lowercase(s: Seq<char>) -> Seq<char>;

/// Every character of the text is ASCII.
pub open spec fn all_ascii(s: Seq<char>) -> bool {
    forall|i: int| 0 <= i < s.len() ==> (#[trigger] s[i] as u32) < 128
}

/// A character with `A`..`Z` mapped to `a`..`z`.
pub open spec fn ascii_lower_char(c: char) -> char {
    if 'A' <= c && c <= 'Z' {
        ((c as u32) + 32) as char
    } else {
        c
    }
}

/// A text with `A`..`Z` mapped to `a`..`z` and every other character kept.
pub open spec fn ascii_lower(s: Seq<char>) -> Seq<char> {
    s.map_values(|c: char| ascii_lower_char(c))
}

/// The lowercase form of a text: for ASCII text, `A`..`Z` mapped to `a`..`z`;
/// otherwise the Unicode mapping named `lowercase`.
pub open spec fn lower_text(s: Seq<char>) -> Seq<char> {
    if all_ascii(s) {
        ascii_lower(s)
    } else {
        lowercase(s)
    }
}

/// `str::to_lowercase`. Its result is the one named `lowercase` of the text;
/// of ASCII text it is the text with `A`..`Z` mapped to `a`..`z` (the
/// Unicode lowercase mapping of ASCII letters, every other ASCII character
/// kept). Nothing more is claimed of other text.
#[verifier::external_body]
pub(crate) fn to_lowercase(s: &str) -> (res: String)
    ensures
        res@ == lowercase(s@),
        all_ascii(s@) ==> res@ == ascii_lower(s@),
{
    s.to_lowercase()
}

/// The lowercase form of a text.
pub fn lower(s: &str) -> (res: String)
    ensures
        res@ == lower_text(s@),
{
    to_lowercase(s)
}

/// The type word `string` is not `json` in any case.
pub proof fn lemma_string_is_not_json()
    ensures
        lower_text("string"@) != "json"@,
{
    reveal_strlit("string");
    reveal_strlit("json");
    assert(all_ascii("string"@));
    assert(lower_text("string"@).len() == 6);
}

/// Whether `c` has the Unicode `White_Space` property.
pub fn white_space(c: char) -> (res: bool)
    ensures
        res == is_white_space(c),
{
    let u = c as u32;
    (0x9 <= u && u <= 0xd) || u == 0x20 || u == 0x85 || u == 0xa0 || u == 0x1680 || (0x2000 <= u
        && u <= 0x200a) || u == 0x2028 || u == 0x2029 || u == 0x202f || u == 0x205f || u == 0x3000
}

/// Whether every character of `s` is white space, i.e. `s.trim().is_empty()`.
pub fn is_blank(s: &str) -> (res: bool)
    ensures
        res == all_white_space(s@),
{
    let cs = chars_of(s);
    let mut i: usize = 0;
    while i < cs.len()
        invariant
            i <= cs.len(),
            cs@ == s@,
            forall|j: int| 0 <= j < i ==> is_white_space(#[trigger] cs@[j]),
        decreases cs.len() - i,
    {
        if !white_space(cs[i]) {
            return false;
        }
        i = i + 1;
    }
    true
}

/// Whether `s` starts with `prefix` (`str::starts_with`).
pub fn starts_with_text(s: &str, prefix: &str) -> (res: bool)
    ensures
        res == has_prefix(s@, prefix@),
{
    let a = chars_of(s);
    let p = chars_of(prefix);
    if p.len() > a.len() {
        return false;
    }
    let mut i: usize = 0;
    while i < p.len()
        invariant
            p.len() <= a.len(),
            a@ == s@,
            p@ == prefix@,
            i <= p.len(),
            forall|m: int| 0 <= m < i ==> a@[m] == p@[m],
        decreases p.len() - i,
    {
        if a[i] != p[i] {
            assert(a@.subrange(0, p@.len() as int)[i as int] != p@[i as int]);
            return false;
        }
        i = i + 1;
    }
    assert(a@.subrange(0, p@.len() as int) =~= p@);
    true
}

/// The pieces of `s` between occurrences of `sep` (`s.split(sep)`).
pub fn split_text(s: &str, sep: char) -> (res: Vec<String>)
    ensures
        string_views(res@) == split_on(s@, sep),
{
    let cs = chars_of(s);
    let mut done: Vec<String> = Vec::new();
    let mut cur = String::new();
    let mut i: usize = 0;
    while i < cs.len()
        invariant
            i <= cs.len(),
            cs@ == s@,
            split_on(cs@.take(i as int), sep) == string_views(done@).push(cur@),
        decreases cs.len() - i,
    {
        let c = cs[i];
        let ghost prefix = cs@.take(i as int);
        assert(cs@.take(i + 1).drop_last() =~= prefix);
        if c == sep {
            let finished = cur;
            done.push(finished);
            cur = String::new();
            assert(string_views(done@).push(cur@) =~= split_on(prefix, sep).push(Seq::<char>::empty()));
        } else {
            push_char(&mut cur, c);
            assert(string_views(done@).push(cur@) =~= split_on(prefix, sep).update(
                split_on(prefix, sep).len() - 1,
                split_on(prefix, sep).last().push(c),
            ));
        }
        i = i + 1;
    }
    done.push(cur);
    assert(cs@.take(cs.len() as int) =~= cs@);
    assert(string_views(done@) =~= split_on(s@, sep));
    done
}

/// The white-space separated words of `s` (`s.split_whitespace()`).
pub fn words_of(s: &str) -> (res: Vec<Vec<char>>)
    ensures
        char_views(res@) == words(s@),
{
    let cs = chars_of(s);
    let mut done: Vec<Vec<char>> = Vec::new();
    let mut cur: Vec<char> = Vec::new();
    let mut in_word = false;
    let mut i: usize = 0;
    while i < cs.len()
        invariant
            i <= cs.len(),
            cs@ == s@,
            in_word ==> words(cs@.take(i as int)) == char_views(done@).push(cur@) && i > 0
                && !is_white_space(cs@[i - 1]),
            !in_word ==> words(cs@.take(i as int)) == char_views(done@) && cur@.len() == 0 && (i
                == 0 || is_white_space(cs@[i - 1])),
        decreases cs.len() - i,
    {
        let c = cs[i];
        let ghost prefix = cs@.take(i as int);
        let ghost next = cs@.take(i + 1);
        assert(next.drop_last() =~= prefix);
        assert(next.last() == c);
        if white_space(c) {
            if in_word {
                let finished = cur;
                done.push(finished);
                cur = Vec::new();
                in_word = false;
                assert(char_views(done@) =~= words(prefix));
            }
        } else {
            if in_word {
                assert(next[next.len() - 2] == cs@[i - 1]);
                cur.push(c);
                assert(char_views(done@).push(cur@) =~= words(prefix).update(
                    words(prefix).len() - 1,
                    words(prefix).last().push(c),
                ));
            } else {
                if i > 0 {
                    assert(next[next.len() - 2] == cs@[i - 1]);
                }
                cur.push(c);
                in_word = true;
                assert(cur@ =~= seq![c]);
                assert(char_views(done@).push(cur@) =~= words(prefix).push(seq![c]));
            }
        }
        i = i + 1;
    }
    assert(cs@.take(cs.len() as int) =~= cs@);
    if in_word {
        done.push(cur);
        assert(char_views(done@) =~= words(s@));
    }
    done
}

/// The character for a decimal digit.
fn digit(d: usize) -> (c: char)
    requires
        d < 10,
    ensures
        c == digit_char(d as nat),
{
    if d == 0 { '0' }
    else if d == 1 { '1' }
    else if d == 2 { '2' }
    else if d == 3 { '3' }
    else if d == 4 { '4' }
    else if d == 5 { '5' }
    else if d == 6 { '6' }
    else if d == 7 { '7' }
    else if d == 8 { '8' }
    else { '9' }
}

/// `n` written in decimal, as `format!("{}", n)` writes it.
pub fn decimal_text(n: usize) -> (res: String)
    ensures
        res@ == decimal(n as nat),
    decreases n,
{
    if n < 10 {
        let mut s = String::new();
        push_char(&mut s, digit(n));
        assert(s@ =~= seq![digit_char(n as nat)]);
        s
    } else {
        let mut s = decimal_text(n / 10);
        push_char(&mut s, digit(n % 10));
        s
    }
}

} // verus!
