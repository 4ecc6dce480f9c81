//! Retrieval-augmented generation over the project documentation: the
//! sections that are indexed, how their text is cut into chunks, the vector
//! records that are stored, the steps of an indexing run, and the context
//! that query matches give a prompt.

use vstd::prelude::*;
use vstd::utf8::{encode_utf8, decode_utf8, is_char_boundary};

use crate::error::Error;
use crate::handler::pair_views;
use crate::json::{json_string, quote_json, text_member, text_member_of, Json};
use crate::reply::{header, header_views};
use crate::request::{HttpRequest, Method};
use crate::text::{
    char_views, concat2, concat3, decimal, decimal_text, digit_char, join_on, owned, push_char,
    string_of, string_views, words, words_of,
};

verus! {

/// The documentation site that is indexed.
pub const DOCS_WEBSITE: &'static str = "https://docs.nftreasure.com";

/// The Workers AI embedding model (384 dimensions).
pub const EMBEDDING_MODEL: &'static str = "@cf/baai/bge-small-en-v1.5";

/// The Vectorize index that holds the documentation.
pub const INDEX_NAME: &'static str = "tresr-docs";

/// The number of words in a chunk.
pub const CHUNK_WORDS: usize = 300;

/// The number of buffered records at which they are upserted.
pub const UPSERT_BATCH: usize = 10;

/// The number of bytes of a chunk kept in a record's metadata.
pub const MAX_TEXT_BYTES: usize = 1000;

// ---------------------------------------------------------------------------
// Sections
// ---------------------------------------------------------------------------

/// The slugs of the documentation sections, in indexing order.
pub open spec fn section_slugs() -> Seq<Seq<char>> {
    seq![
        "quick-start"@,
        "overview"@,
        "manifesto"@,
        "assumptions"@,
        "nfc-technology"@,
        "create-merch-and-apparel"@,
        "mint-a-treasure-key"@,
        "why-gamefi"@,
        "tokenomics"@,
        "token-buybacks"@,
        "contracts-and-wallets"@,
        "project-history"@,
        "governance"@,
        "team"@,
        "funding-and-partners"@,
        "disclaimer"@,
        "project-y"@,
        "agency-services"@,
    ]
}

/// Each section's slug with its page URL on the documentation site.
pub open spec fn section_list() -> Seq<(Seq<char>, Seq<char>)> {
    section_slugs().map_values(|slug: Seq<char>| (slug, DOCS_WEBSITE@ + "/"@ + slug))
}

/// There are eighteen documentation sections.
pub proof fn lemma_section_count()
    ensures
        section_list().len() == 18,
{
}

/// The position of a slug in `section_slugs()`, told apart by its length and
/// first letter.
spec fn slug_position(s: Seq<char>) -> int {
    if s.len() == 11 && s[0] == 'q' { 0 }
    else if s.len() == 8 { 1 }
    else if s.len() == 9 && s[0] == 'm' { 2 }
    else if s.len() == 11 && s[0] == 'a' { 3 }
    else if s.len() == 14 && s[0] == 'n' { 4 }
    else if s.len() == 24 { 5 }
    else if s.len() == 19 { 6 }
    else if s.len() == 10 && s[0] == 'w' { 7 }
    else if s.len() == 10 && s[0] == 't' { 8 }
    else if s.len() == 14 && s[0] == 't' { 9 }
    else if s.len() == 21 { 10 }
    else if s.len() == 15 && s[0] == 'p' { 11 }
    else if s.len() == 10 && s[0] == 'g' { 12 }
    else if s.len() == 4 { 13 }
    else if s.len() == 20 { 14 }
    else if s.len() == 10 && s[0] == 'd' { 15 }
    else if s.len() == 9 && s[0] == 'p' { 16 }
    else { 17 }
}

/// No two documentation sections share a slug.
pub proof fn lemma_slugs_distinct()
    ensures
        forall|i: int, j: int|
            0 <= i < j < section_list().len() ==> #[trigger] section_list()[i].0 != #[trigger] section_list()[j].0,
{
    reveal_strlit("quick-start");
    reveal_strlit("overview");
    reveal_strlit("manifesto");
    reveal_strlit("assumptions");
    reveal_strlit("nfc-technology");
    reveal_strlit("create-merch-and-apparel");
    reveal_strlit("mint-a-treasure-key");
    reveal_strlit("why-gamefi");
    reveal_strlit("tokenomics");
    reveal_strlit("token-buybacks");
    reveal_strlit("contracts-and-wallets");
    reveal_strlit("project-history");
    reveal_strlit("governance");
    reveal_strlit("team");
    reveal_strlit("funding-and-partners");
    reveal_strlit("disclaimer");
    reveal_strlit("project-y");
    reveal_strlit("agency-services");
    let s = section_slugs();
    assert(s.len() == 18);
    assert forall|i: int| 0 <= i < 18 implies slug_position(#[trigger] s[i]) == i by {
        if i == 0 {} else if i == 1 {} else if i == 2 {} else if i == 3 {}
        else if i == 4 {} else if i == 5 {} else if i == 6 {} else if i == 7 {}
        else if i == 8 {} else if i == 9 {} else if i == 10 {} else if i == 11 {}
        else if i == 12 {} else if i == 13 {} else if i == 14 {} else if i == 15 {}
        else if i == 16 {} else {}
    }
    assert forall|i: int| 0 <= i < 18 implies #[trigger] section_list()[i].0 == s[i] by {}
}

/// No character of a decimal numeral is a dash, and a numeral is never empty.
pub proof fn lemma_decimal_no_dash(n: nat)
    ensures
        decimal(n).len() > 0,
        forall|i: int| 0 <= i < decimal(n).len() ==> #[trigger] decimal(n)[i] != '-',
    decreases n,
{
    if n >= 10 {
        lemma_decimal_no_dash(n / 10);
    }
}

/// Different numbers have different decimal numerals.
pub proof fn lemma_decimal_injective(a: nat, b: nat)
    requires
        decimal(a) == decimal(b),
    ensures
        a == b,
    decreases a,
{
    lemma_decimal_no_dash(a / 10);
    lemma_decimal_no_dash(b / 10);
    if a < 10 && b < 10 {
        assert(decimal(a)[0] == digit_char(a));
        assert(decimal(b)[0] == digit_char(b));
    } else if a < 10 {
        assert(decimal(b).len() >= 2);
    } else if b < 10 {
        assert(decimal(a).len() >= 2);
    } else {
        assert(decimal(a).drop_last() =~= decimal(a / 10));
        assert(decimal(b).drop_last() =~= decimal(b / 10));
        lemma_decimal_injective(a / 10, b / 10);
        assert(decimal(a).last() == digit_char(a % 10));
        assert(decimal(b).last() == digit_char(b % 10));
        assert(a % 10 == b % 10);
    }
}

/// In `a-d` where `d` holds no dash, the last dash parts the two: equal
/// texts of that shape have equal parts.
pub proof fn lemma_split_last_dash(a: Seq<char>, d1: Seq<char>, b: Seq<char>, d2: Seq<char>)
    requires
        a + "-"@ + d1 == b + "-"@ + d2,
        forall|i: int| 0 <= i < d1.len() ==> #[trigger] d1[i] != '-',
        forall|i: int| 0 <= i < d2.len() ==> #[trigger] d2[i] != '-',
    ensures
        a == b,
        d1 == d2,
{
    reveal_strlit("-");
    let s = a + "-"@ + d1;
    let t = b + "-"@ + d2;
    assert(s.len() == a.len() + 1 + d1.len());
    assert(t.len() == b.len() + 1 + d2.len());
    assert(s[a.len() as int] == '-');
    assert(t[b.len() as int] == '-');
    if d1.len() < d2.len() {
        assert(t[a.len() as int] == d2[a.len() - b.len() - 1]);
    } else if d2.len() < d1.len() {
        assert(s[b.len() as int] == d1[b.len() - a.len() - 1]);
    }
    assert(a =~= s.subrange(0, a.len() as int));
    assert(b =~= t.subrange(0, b.len() as int));
    assert(d1 =~= s.subrange(a.len() as int + 1, s.len() as int));
    assert(d2 =~= t.subrange(b.len() as int + 1, t.len() as int));
}

fn push_section(v: &mut Vec<(String, String)>, slug: &str)
    ensures
        pair_views(final(v)@) == pair_views(old(v)@).push((slug@, DOCS_WEBSITE@ + "/"@ + slug@)),
{
    v.push((owned(slug), concat3(DOCS_WEBSITE, "/", slug)));
    assert(pair_views(v@) =~= pair_views(old(v)@).push((slug@, DOCS_WEBSITE@ + "/"@ + slug@)));
}

/// The documentation sections: each slug with its page URL.
pub fn doc_sections() -> (res: Vec<(String, String)>)
    ensures
        pair_views(res@) == section_list(),
{
    let mut v: Vec<(String, String)> = Vec::new();
    push_section(&mut v, "quick-start");
    push_section(&mut v, "overview");
    push_section(&mut v, "manifesto");
    push_section(&mut v, "assumptions");
    push_section(&mut v, "nfc-technology");
    push_section(&mut v, "create-merch-and-apparel");
    push_section(&mut v, "mint-a-treasure-key");
    push_section(&mut v, "why-gamefi");
    push_section(&mut v, "tokenomics");
    push_section(&mut v, "token-buybacks");
    push_section(&mut v, "contracts-and-wallets");
    push_section(&mut v, "project-history");
    push_section(&mut v, "governance");
    push_section(&mut v, "team");
    push_section(&mut v, "funding-and-partners");
    push_section(&mut v, "disclaimer");
    push_section(&mut v, "project-y");
    push_section(&mut v, "agency-services");
    assert(pair_views(v@) =~= section_list());
    v
}

// ---------------------------------------------------------------------------
// Chunks
// ---------------------------------------------------------------------------

/// The words grouped `k` at a time in order (the last group may be shorter),
/// each group joined by single spaces; with the number of words in the last
/// group.
pub open spec fn chunk_fill(ws: Seq<Seq<char>>, k: nat) -> (Seq<Seq<char>>, nat)
    decreases ws.len(),
{
    if ws.len() == 0 {
        (Seq::empty(), 0)
    } else {
        let (prev, n) = chunk_fill(ws.drop_last(), k);
        if prev.len() == 0 || n >= k {
            (prev.push(ws.last()), 1)
        } else {
            (prev.update(prev.len() - 1, prev.last().push(' ') + ws.last()), n + 1)
        }
    }
}

/// The number of bytes of a text in UTF-8.
pub open spec fn utf8_len(s: Seq<char>) -> nat {
    encode_utf8(s).len()
}

/// The chunks longer than 50 bytes, in order.
pub open spec fn keep_long(cs: Seq<Seq<char>>) -> Seq<Seq<char>>
    decreases cs.len(),
{
    if cs.len() == 0 {
        Seq::empty()
    } else if utf8_len(cs.last()) > 50 {
        keep_long(cs.drop_last()).push(cs.last())
    } else {
        keep_long(cs.drop_last())
    }
}

/// The chunks of a text: its white-space separated words, `k` to a chunk,
/// joined by single spaces, keeping the chunks longer than 50 bytes.
pub open spec fn text_chunks(text: Seq<char>, k: nat) -> Seq<Seq<char>> {
    keep_long(chunk_fill(words(text), k).0)
}

proof fn lemma_join_extend_last_word(parts: Seq<Seq<char>>, w: Seq<char>)
    requires
        parts.len() >= 1,
    ensures
        join_on(parts.update(parts.len() - 1, parts.last().push(' ') + w), ' ') == join_on(parts, ' ').push(' ') + w,
{
    let q = parts.update(parts.len() - 1, parts.last().push(' ') + w);
    if parts.len() == 1 {
        assert(q[0] == parts[0].push(' ') + w);
    } else {
        assert(q.drop_last() =~= parts.drop_last());
        assert(join_on(q, ' ') == join_on(q.drop_last(), ' ').push(' ') + q.last());
        assert(join_on(parts, ' ').push(' ') + w =~= join_on(parts.drop_last(), ' ').push(' ') + (
        parts.last().push(' ') + w));
    }
}

/// Grouping words into chunks loses, adds and reorders nothing: the chunks
/// joined by spaces are the words joined by spaces.
pub proof fn lemma_chunks_keep_words(ws: Seq<Seq<char>>, k: nat)
    ensures
        join_on(chunk_fill(ws, k).0, ' ') == join_on(ws, ' '),
        ws.len() > 0 ==> chunk_fill(ws, k).0.len() > 0,
    decreases ws.len(),
{
    if ws.len() > 0 {
        lemma_chunks_keep_words(ws.drop_last(), k);
        let (prev, n) = chunk_fill(ws.drop_last(), k);
        if prev.len() == 0 || n >= k {
            let cur = prev.push(ws.last());
            assert(cur.drop_last() =~= prev);
            if prev.len() == 0 {
                assert(ws.drop_last().len() == 0);
                assert(ws =~= seq![ws.last()]);
            }
        } else {
            lemma_join_extend_last_word(prev, ws.last());
        }
    }
}

/// The last chunk holds at least one word and at most `k`.
pub proof fn lemma_chunk_fill_count(ws: Seq<Seq<char>>, k: nat)
    requires
        k > 0,
    ensures
        ws.len() > 0 ==> 1 <= chunk_fill(ws, k).1 <= k,
        ws.len() == 0 ==> chunk_fill(ws, k).1 == 0,
    decreases ws.len(),
{
    if ws.len() > 0 {
        lemma_chunk_fill_count(ws.drop_last(), k);
    }
}

/// The end of group `i` of `k` words among `n` words: `(i + 1) * k`, or `n`
/// for a last group that is shorter.
pub open spec fn group_end(i: int, k: nat, n: nat) -> int {
    if (i + 1) * k <= n { (i + 1) * k } else { n as int }
}

proof fn lemma_join_push(parts: Seq<Seq<char>>, w: Seq<char>)
    requires
        parts.len() >= 1,
    ensures
        join_on(parts.push(w), ' ') == join_on(parts, ' ').push(' ') + w,
{
    assert(parts.push(w).drop_last() =~= parts);
}

proof fn lemma_chunk_fill_shape(ws: Seq<Seq<char>>, k: nat)
    requires
        k > 0,
    ensures
        ws.len() == 0 ==> chunk_fill(ws, k).0.len() == 0,
        ws.len() > 0 ==> {
            let groups = chunk_fill(ws, k).0;
            let n = chunk_fill(ws, k).1;
            let q = groups.len() - 1;
            &&& groups.len() >= 1
            &&& 1 <= n <= k
            &&& ws.len() == q * k + n
            &&& forall|j: int| 0 <= j < q ==> #[trigger] groups[j] == join_on(ws.subrange(j * k, (j + 1) * k), ' ')
            &&& groups[q] == join_on(ws.subrange(q * k, ws.len() as int), ' ')
        },
    decreases ws.len(),
{
    if ws.len() > 0 {
        let prev_ws = ws.drop_last();
        let w = ws.last();
        lemma_chunk_fill_shape(prev_ws, k);
        let (prev, m) = chunk_fill(prev_ws, k);
        let groups = chunk_fill(ws, k).0;
        if prev_ws.len() == 0 {
            assert(ws.subrange(0, ws.len() as int) =~= seq![w]);
        } else {
            let q0 = prev.len() - 1;
            assert(prev_ws.len() == q0 * k + m);
            assert(1 <= m <= k);
            assert forall|j: int| 0 <= j < q0 implies #[trigger] ws.subrange(j * k, (j + 1) * k)
                == prev_ws.subrange(j * k, (j + 1) * k) by {
                assert((j + 1) * k <= q0 * k) by (nonlinear_arith)
                    requires j + 1 <= q0, k > 0;
                assert(0 <= j * k) by (nonlinear_arith)
                    requires j >= 0, k > 0;
                assert((j + 1) * k <= prev_ws.len());
                assert((j + 1) * k == j * k + k) by (nonlinear_arith);
                assert(ws.subrange(j * k, (j + 1) * k) =~= prev_ws.subrange(j * k, (j + 1) * k));
            }
            assert(0 <= q0 * k) by (nonlinear_arith)
                requires q0 >= 0, k > 0;
            if m >= k {
                assert((q0 + 1) * k == q0 * k + k) by (nonlinear_arith);
                assert(ws.subrange(q0 * k, (q0 + 1) * k) =~= prev_ws.subrange(q0 * k, prev_ws.len() as int));
                assert(ws.subrange((q0 + 1) * k, ws.len() as int) =~= seq![w]);
                assert forall|j: int| 0 <= j < q0 + 1 implies #[trigger] groups[j] == join_on(
                    ws.subrange(j * k, (j + 1) * k),
                    ' ',
                ) by {
                    if j < q0 {
                        assert(groups[j] == prev[j]);
                    }
                }
            } else {
                let last = ws.subrange(q0 * k, ws.len() as int);
                assert(last.drop_last() =~= prev_ws.subrange(q0 * k, prev_ws.len() as int));
                assert(last =~= prev_ws.subrange(q0 * k, prev_ws.len() as int).push(w));
                lemma_join_push(prev_ws.subrange(q0 * k, prev_ws.len() as int), w);
                assert forall|j: int| 0 <= j < q0 implies #[trigger] groups[j] == join_on(
                    ws.subrange(j * k, (j + 1) * k),
                    ' ',
                ) by {
                    assert(groups[j] == prev[j]);
                }
            }
        }
    }
}

/// Grouping puts the words `k` to a group in order: group `i` holds the
/// words from `i * k` up to `(i + 1) * k` (the last group up to the end)
/// joined by single spaces, and there are as many groups as `k`-word slices
/// the words fill, the last one possibly partly.
pub proof fn lemma_chunk_groups(ws: Seq<Seq<char>>, k: nat)
    requires
        k > 0,
    ensures
        chunk_fill(ws, k).0.len() == (ws.len() + k - 1) / (k as int),
        forall|i: int|
            0 <= i < chunk_fill(ws, k).0.len() ==> #[trigger] chunk_fill(ws, k).0[i] == join_on(
                ws.subrange(i * k, group_end(i, k, ws.len())),
                ' ',
            ),
{
    lemma_chunk_fill_shape(ws, k);
    if ws.len() == 0 {
        vstd::arithmetic::div_mod::lemma_fundamental_div_mod_converse(k - 1, k as int, 0, k - 1);
    } else {
        let groups = chunk_fill(ws, k).0;
        let n = chunk_fill(ws, k).1;
        let q = groups.len() - 1;
        assert((q + 1) * k == q * k + k) by (nonlinear_arith);
        assert(ws.len() + k - 1 == (q + 1) * k + (n - 1));
        vstd::arithmetic::div_mod::lemma_fundamental_div_mod_converse(
            ws.len() + k - 1,
            k as int,
            q + 1,
            n - 1,
        );
        assert forall|i: int| 0 <= i < groups.len() implies #[trigger] groups[i] == join_on(
            ws.subrange(i * k, group_end(i, k, ws.len())),
            ' ',
        ) by {
            if i < q {
                assert((i + 1) * k <= q * k) by (nonlinear_arith)
                    requires i + 1 <= q, k > 0;
            } else {
                assert((q + 1) * k == q * k + k) by (nonlinear_arith);
            }
        }
    }
}

/// The chunks longer than 50 bytes are kept, in order, and no others.
pub proof fn lemma_keep_long_filters(cs: Seq<Seq<char>>)
    ensures
        keep_long(cs) == cs.filter(|c: Seq<char>| utf8_len(c) > 50),
    decreases cs.len(),
{
    reveal(Seq::filter);
    if cs.len() > 0 {
        lemma_keep_long_filters(cs.drop_last());
    }
}

/// The chunks of a text are its white-space separated words taken `k` at a
/// time in order (the last group possibly shorter), each group joined by
/// single spaces, keeping those longer than 50 bytes.
pub proof fn lemma_text_chunks(text: Seq<char>, k: nat)
    requires
        k > 0,
    ensures
        text_chunks(text, k) == Seq::new(
            ((words(text).len() + k - 1) / (k as int)) as nat,
            |i: int| join_on(words(text).subrange(i * k, group_end(i, k, words(text).len())), ' '),
        ).filter(|c: Seq<char>| utf8_len(c) > 50),
{
    let ws = words(text);
    lemma_chunk_groups(ws, k);
    lemma_keep_long_filters(chunk_fill(ws, k).0);
    assert(chunk_fill(ws, k).0 =~= Seq::new(
        ((ws.len() + k - 1) / (k as int)) as nat,
        |i: int| join_on(ws.subrange(i * k, group_end(i, k, ws.len())), ' '),
    ));
}

fn append_chars(out: &mut Vec<char>, w: &Vec<char>)
    ensures
        final(out)@ == old(out)@ + w@,
{
    let mut j: usize = 0;
    while j < w.len()
        invariant
            j <= w.len(),
            out@ == old(out)@ + w@.take(j as int),
        decreases w.len() - j,
    {
        out.push(w[j]);
        assert(old(out)@ + w@.take(j + 1) =~= (old(out)@ + w@.take(j as int)).push(w@[j as int]));
        j = j + 1;
    }
    assert(w@.take(w.len() as int) =~= w@);
}

/// The UTF-8 encoding of a concatenation is the concatenation of the encodings.
pub proof fn lemma_encode_concat(a: Seq<char>, b: Seq<char>)
    ensures
        encode_utf8(a + b) == encode_utf8(a) + encode_utf8(b),
    decreases a.len(),
{
    if a.len() > 0 {
        lemma_encode_concat(a.drop_first(), b);
        assert((a + b).drop_first() =~= a.drop_first() + b);
        assert((a + b)[0] == a[0]);
        assert(encode_utf8(a + b) =~= encode_scalar_of(a[0]) + encode_utf8(a.drop_first() + b));
    }
}

spec fn encode_scalar_of(c: char) -> Seq<u8> {
    vstd::utf8::encode_scalar(c as u32)
}

/// The number of bytes that `c` takes in UTF-8.
fn char_width(c: char) -> (w: usize)
    ensures
        w == encode_utf8(seq![c]).len(),
{
    proof {
        assert(seq![c].drop_first() =~= Seq::<char>::empty());
        vstd::utf8::char_is_scalar(c);
        assert(encode_utf8(Seq::<char>::empty()) =~= Seq::<u8>::empty());
        assert(encode_utf8(seq![c]) =~= vstd::utf8::encode_scalar(c as u32));
    }
    let u = c as u32;
    if u < 0x80 {
        1
    } else if u < 0x800 {
        2
    } else if u < 0x10000 {
        3
    } else {
        4
    }
}

/// Whether the UTF-8 encoding of `s` is longer than `limit` bytes.
fn longer_than(s: &Vec<char>, limit: usize) -> (res: bool)
    ensures
        res == (utf8_len(s@) > limit),
{
    let mut total: usize = 0;
    let mut i: usize = 0;
    while i < s.len()
        invariant
            i <= s.len(),
            total == utf8_len(s@.take(i as int)),
            total <= limit,
        decreases s.len() - i,
    {
        let w = char_width(s[i]);
        proof {
            assert(s@.take(i + 1) =~= s@.take(i as int) + seq![s@[i as int]]);
            lemma_encode_concat(s@.take(i as int), seq![s@[i as int]]);
        }
        if w > limit - total {
            proof {
                lemma_encode_concat(s@.take(i + 1), s@.skip(i + 1));
                assert(s@.take(i + 1) + s@.skip(i + 1) =~= s@);
            }
            return true;
        }
        total = total + w;
        i = i + 1;
    }
    assert(s@.take(s.len() as int) =~= s@);
    false
}

/// Keeps a finished chunk when it is longer than 50 bytes.
fn keep_if_long(done: &mut Vec<String>, chunk: &Vec<char>)
    ensures
        string_views(final(done)@) == if utf8_len(chunk@) > 50 {
            string_views(old(done)@).push(chunk@)
        } else {
            string_views(old(done)@)
        },
{
    if longer_than(chunk, 50) {
        let s = string_of(chunk);
        done.push(s);
        assert(string_views(done@) =~= string_views(old(done)@).push(chunk@));
    }
}

/// Cuts a text into chunks of `max_len_words` words joined by single spaces,
/// keeping those longer than 50 bytes.
pub fn chunk_text(text: String, max_len_words: usize) -> (res: Vec<String>)
    requires
        max_len_words > 0,
    ensures
        string_views(res@) == text_chunks(text@, max_len_words as nat),
{
    let ws = words_of(text.as_str());
    let ghost k = max_len_words as nat;
    let mut done: Vec<String> = Vec::new();
    let ghost mut closed: Seq<Seq<char>> = Seq::empty();
    let mut cur: Vec<char> = Vec::new();
    let mut count: usize = 0;
    let mut i: usize = 0;
    while i < ws.len()
        invariant
            i <= ws.len(),
            max_len_words > 0,
            k == max_len_words as nat,
            char_views(ws@) == words(text@),
            count <= max_len_words,
            string_views(done@) == keep_long(closed),
            i == 0 ==> count == 0 && closed.len() == 0,
            i > 0 ==> chunk_fill(char_views(ws@).take(i as int), k) == (closed.push(cur@), count as nat),
        decreases ws.len() - i,
    {
        let ghost all = char_views(ws@);
        assert(all.take(i + 1).drop_last() =~= all.take(i as int));
        assert(all.take(i + 1).last() == ws@[i as int]@);
        proof {
            lemma_chunk_fill_count(all.take(i as int), k);
        }
        if i == 0 || count >= max_len_words {
            if i > 0 {
                keep_if_long(&mut done, &cur);
                proof {
                    let c = closed.push(cur@);
                    assert(c.drop_last() =~= closed);
                    closed = c;
                }
            }
            cur = Vec::new();
            append_chars(&mut cur, &ws[i]);
            assert(cur@ =~= ws@[i as int]@);
            count = 1;
        } else {
            let ghost old_cur = cur@;
            cur.push(' ');
            append_chars(&mut cur, &ws[i]);
            count = count + 1;
            assert(closed.push(old_cur).update(closed.len() as int, old_cur.push(' ') + ws@[i as int]@)
                =~= closed.push(cur@));
        }
        i = i + 1;
    }
    if i > 0 {
        keep_if_long(&mut done, &cur);
        proof {
            let c = closed.push(cur@);
            assert(c.drop_last() =~= closed);
            closed = c;
        }
    }
    assert(char_views(ws@).take(ws.len() as int) =~= char_views(ws@));
    done
}

// ---------------------------------------------------------------------------
// Vector records
// ---------------------------------------------------------------------------

/// The plain text of an HTML page, as `nanohtml2text::html2text` gives it.
pub uninterp spec fn html_text(html: Seq<char>) -> Seq<char>;

/// `nanohtml2text::html2text`: its result is the one named `html_text` of the
/// page; nothing more is claimed of it here.
#[verifier::external_body]
fn html_to_text(html: &str) -> (res: String)
    ensures
        res@ == html_text(html@),
{
    nanohtml2text::html2text(html)
}

/// Whether cutting a chunk to its first 1000 bytes would split a character
/// (the cut then fails).
pub open spec fn truncation_splits_char(c: Seq<char>) -> bool {
    utf8_len(c) > MAX_TEXT_BYTES && !is_char_boundary(encode_utf8(c), MAX_TEXT_BYTES as int)
}

/// The text kept in a record: the chunk, or its first 1000 bytes followed by
/// `...` when it is longer.
pub open spec fn truncated(c: Seq<char>) -> Seq<char> {
    if utf8_len(c) > MAX_TEXT_BYTES {
        decode_utf8(encode_utf8(c).subrange(0, MAX_TEXT_BYTES as int)) + "..."@
    } else {
        c
    }
}

/// A kept text takes at most 1003 bytes: 1000 of the chunk and the `...`.
pub proof fn lemma_truncated_size(c: Seq<char>)
    requires
        !truncation_splits_char(c),
    ensures
        utf8_len(truncated(c)) <= MAX_TEXT_BYTES + 3,
{
    if utf8_len(c) > MAX_TEXT_BYTES {
        let bytes = encode_utf8(c);
        let head = bytes.subrange(0, MAX_TEXT_BYTES as int);
        vstd::utf8::encode_utf8_valid_utf8(c);
        vstd::utf8::valid_utf8_split(bytes, MAX_TEXT_BYTES as int);
        vstd::utf8::decode_utf8_encode_utf8(head);
        lemma_encode_concat(decode_utf8(head), "..."@);
        reveal_strlit("...");
        assert(encode_utf8("..."@).len() == 3) by {
            let d = "..."@;
            assert(d.len() == 3 && d[0] == '.' && d[1] == '.' && d[2] == '.');
            let d1 = d.drop_first();
            let d2 = d1.drop_first();
            let d3 = d2.drop_first();
            assert(d3 =~= Seq::<char>::empty());
            assert(encode_utf8(d3).len() == 0);
            assert(d2[0] == '.');
            assert(encode_utf8(d2).len() == 1);
            assert(d1[0] == '.');
            assert(encode_utf8(d1).len() == 2);
        }
    }
}

/// Cuts a chunk to the text kept in its record.
fn truncate_text(chunk: &String) -> (res: String)
    requires
        !truncation_splits_char(chunk@),
    ensures
        res@ == truncated(chunk@),
{
    let cs = crate::text::chars_of(chunk.as_str());
    if longer_than(&cs, MAX_TEXT_BYTES) {
        let (head, _) = chunk.as_str().split_at(MAX_TEXT_BYTES);
        proof {
            vstd::utf8::encode_utf8_decode_utf8(head@);
        }
        concat2(head, "...")
    } else {
        chunk.clone()
    }
}

/// A vector to store: its id, the bit patterns of its `f32` values, and the
/// metadata (page URL, section slug, text).
#[derive(Debug)]
pub struct VectorRecord {
    pub id: String,
    pub values: Vec<u32>,
    pub url: String,
    pub section: String,
    pub text: String,
}

/// A record as plain values: id, values, url, section, text.
pub open spec fn record_view(r: VectorRecord) -> (Seq<char>, Seq<u32>, Seq<char>, Seq<char>, Seq<char>) {
    (r.id@, r.values@, r.url@, r.section@, r.text@)
}

/// The views of a sequence of records.
pub open spec fn record_views(rs: Seq<VectorRecord>) -> Seq<(Seq<char>, Seq<u32>, Seq<char>, Seq<char>, Seq<char>)> {
    rs.map_values(|r: VectorRecord| record_view(r))
}

/// The views of a sequence of embeddings.
pub open spec fn embedding_views(e: Seq<Vec<u32>>) -> Seq<Seq<u32>> {
    e.map_values(|v: Vec<u32>| v@)
}

/// The smaller of two numbers.
pub open spec fn min_nat(a: nat, b: nat) -> nat {
    if a < b { a } else { b }
}

/// The records of a page: chunk `i` paired with embedding `i` (as far as
/// both go), with id `{slug}-{i}`, the page URL, the slug and the kept text.
pub open spec fn page_records(slug: Seq<char>, url: Seq<char>, chunks: Seq<Seq<char>>, embeddings: Seq<Seq<u32>>) -> Seq<(Seq<char>, Seq<u32>, Seq<char>, Seq<char>, Seq<char>)> {
    Seq::new(
        min_nat(chunks.len(), embeddings.len()),
        |i: int| (slug + "-"@ + decimal(i as nat), embeddings[i], url, slug, truncated(chunks[i])),
    )
}

/// None of the chunks that get a record (the first `n`) would be cut inside a character.
pub open spec fn records_fit(chunks: Seq<Seq<char>>, n: nat) -> bool {
    forall|i: int| 0 <= i < min_nat(chunks.len(), n) ==> !truncation_splits_char(#[trigger] chunks[i])
}

fn copy_values(v: &Vec<u32>) -> (res: Vec<u32>)
    ensures
        res@ == v@,
{
    let mut res: Vec<u32> = Vec::new();
    let mut i: usize = 0;
    while i < v.len()
        invariant
            i <= v.len(),
            res@ == v@.take(i as int),
        decreases v.len() - i,
    {
        res.push(v[i]);
        assert(v@.take(i + 1) =~= v@.take(i as int).push(v@[i as int]));
        i = i + 1;
    }
    assert(v@.take(v.len() as int) =~= v@);
    res
}

fn copy_strings(v: &Vec<String>) -> (res: Vec<String>)
    ensures
        string_views(res@) == string_views(v@),
{
    let mut res: Vec<String> = Vec::new();
    let mut i: usize = 0;
    while i < v.len()
        invariant
            i <= v.len(),
            string_views(res@) == string_views(v@).take(i as int),
        decreases v.len() - i,
    {
        let ghost before = res@;
        let c = v[i].clone();
        res.push(c);
        assert(string_views(res@) =~= string_views(before).push(v@[i as int]@));
        assert(string_views(v@).take(i + 1) =~= string_views(v@).take(i as int).push(v@[i as int]@));
        i = i + 1;
    }
    assert(string_views(v@).take(v.len() as int) =~= string_views(v@));
    res
}

/// Whether every chunk that gets a record can be cut safely.
pub fn chunks_fit(chunks: &Vec<String>, count: usize) -> (res: bool)
    ensures
        res == records_fit(string_views(chunks@), count as nat),
{
    let n = if chunks.len() < count { chunks.len() } else { count };
    let mut i: usize = 0;
    while i < n
        invariant
            i <= n,
            n as nat == min_nat(chunks@.len(), count as nat),
            forall|j: int| 0 <= j < i ==> !truncation_splits_char(#[trigger] string_views(chunks@)[j]),
        decreases n - i,
    {
        let s = chunks[i].as_str();
        let cs = crate::text::chars_of(s);
        if longer_than(&cs, MAX_TEXT_BYTES) && !s.is_char_boundary(MAX_TEXT_BYTES) {
            assert(truncation_splits_char(string_views(chunks@)[i as int]));
            return false;
        }
        i = i + 1;
    }
    true
}

/// The records for a page's chunks and their embeddings.
pub fn vector_records(slug: &str, url: &str, chunks: &Vec<String>, embeddings: &Vec<Vec<u32>>) -> (res: Vec<VectorRecord>)
    requires
        records_fit(string_views(chunks@), embeddings.len() as nat),
    ensures
        record_views(res@) == page_records(slug@, url@, string_views(chunks@), embedding_views(embeddings@)),
{
    let n = if chunks.len() < embeddings.len() { chunks.len() } else { embeddings.len() };
    let ghost want = page_records(slug@, url@, string_views(chunks@), embedding_views(embeddings@));
    let mut res: Vec<VectorRecord> = Vec::new();
    let mut i: usize = 0;
    while i < n
        invariant
            i <= n,
            n == want.len(),
            n <= chunks.len(),
            n <= embeddings.len(),
            want == page_records(slug@, url@, string_views(chunks@), embedding_views(embeddings@)),
            records_fit(string_views(chunks@), embeddings.len() as nat),
            record_views(res@) == want.take(i as int),
        decreases n - i,
    {
        assert(string_views(chunks@)[i as int] == chunks@[i as int]@);
        let id = concat3(slug, "-", decimal_text(i).as_str());
        let text = truncate_text(&chunks[i]);
        let record = VectorRecord {
            id,
            values: copy_values(&embeddings[i]),
            url: owned(url),
            section: owned(slug),
            text,
        };
        assert(record_view(record) == want[i as int]);
        let ghost before = res@;
        res.push(record);
        assert(record_views(res@) =~= record_views(before).push(want[i as int]));
        assert(want.take(i + 1) =~= want.take(i as int).push(want[i as int]));
        i = i + 1;
    }
    assert(want.take(n as int) =~= want);
    res
}

// ---------------------------------------------------------------------------
// Requests
// ---------------------------------------------------------------------------

/// The request that fetches a documentation page.
pub fn fetch_request(url: &str) -> (res: HttpRequest)
    ensures
        res@ == (Method::Get, url@, seq![("User-Agent"@, "Bot-Indexer/1.0"@)], None::<Seq<char>>),
{
    let mut headers: Vec<(String, String)> = Vec::new();
    headers.push(header("User-Agent", "Bot-Indexer/1.0"));
    let res = HttpRequest { method: Method::Get, url: owned(url), headers, body: None };
    assert(header_views(res.headers@) =~= seq![("User-Agent"@, "Bot-Indexer/1.0"@)]);
    res
}

/// The error for a page that did not come back with status 200.
pub fn fetch_failure(url: &str, status: u16) -> (res: Error)
    ensures
        res@ == "Failed to fetch "@ + url@ + ": "@ + decimal(status as nat),
{
    let mut m = concat3("Failed to fetch ", url, ": ");
    m.append(decimal_text(status as usize).as_str());
    Error::new(m)
}

/// The text read from a body, or the empty text when it could not be read.
pub open spec fn text_or_empty(text: Result<String, String>) -> Seq<char> {
    match text {
        Ok(t) => t@,
        Err(_) => Seq::empty(),
    }
}

fn unwrap_text(text: Result<String, String>) -> (res: String)
    ensures
        res@ == text_or_empty(text),
{
    match text {
        Ok(t) => t,
        Err(_) => String::new(),
    }
}

/// The outcome of fetching a page from its status and the reading of its
/// body: status 200 gives the HTML (or the error of reading it); any other
/// status is a fetch failure.
pub fn page_outcome(url: &str, status: u16, text: Result<String, String>) -> (res: Result<String, Error>)
    ensures
        status != 200 ==> (res matches Err(e) && e@ == "Failed to fetch "@ + url@ + ": "@ + decimal(status as nat)),
        status == 200 ==> match text {
            Ok(t) => res matches Ok(r) && r@ == t@,
            Err(e) => res matches Err(r) && r@ == e@,
        },
{
    if status != 200 {
        return Err(fetch_failure(url, status));
    }
    match text {
        Ok(t) => Ok(t),
        Err(e) => Err(Error::new(e)),
    }
}

/// The outcome of an embedding request from its status and the reading of
/// its body: status 200 gives the body to parse (or the error of reading
/// it); any other status is an embedding failure with the body text.
pub fn embed_outcome(status: u16, text: Result<String, String>) -> (res: Result<String, Error>)
    ensures
        status != 200 ==> (res matches Err(e) && e@ == "AI API Error "@ + decimal(status as nat) + ": "@ + text_or_empty(text)),
        status == 200 ==> match text {
            Ok(t) => res matches Ok(r) && r@ == t@,
            Err(e) => res matches Err(r) && r@ == e@,
        },
{
    if status != 200 {
        let t = unwrap_text(text);
        return Err(embed_failure(status, t.as_str()));
    }
    match text {
        Ok(t) => Ok(t),
        Err(e) => Err(Error::new(e)),
    }
}

/// The outcome of an upsert from its status and the reading of its body:
/// status 200 succeeds; any other status is an upsert failure with the body
/// text.
pub fn upsert_outcome(status: u16, text: Result<String, String>) -> (res: Result<(), Error>)
    ensures
        status == 200 <==> res is Ok,
        status != 200 ==> (res matches Err(e) && e@ == "Upsert Error: "@ + text_or_empty(text)),
{
    if status != 200 {
        let t = unwrap_text(text);
        return Err(upsert_failure(t.as_str()));
    }
    Ok(())
}

/// The Cloudflare API URL of an account.
pub open spec fn account_url(account_id: Seq<char>) -> Seq<char> {
    "https://api.cloudflare.com/client/v4/accounts/"@ + account_id
}

/// The JSON body of an embedding request: the texts, as an array under `text`.
pub open spec fn embed_body(texts: Seq<Seq<char>>) -> Seq<char> {
    "{\"text\":["@ + join_on(texts.map_values(|t: Seq<char>| json_string(t)), ',') + "]}"@
}

/// The request that asks Workers AI for the embeddings of some texts.
pub fn embed_request(account_id: &str, api_token: &str, texts: &Vec<String>) -> (res: HttpRequest)
    ensures
        res@ == (
            Method::Post,
            account_url(account_id@) + "/ai/run/"@ + EMBEDDING_MODEL@,
            seq![("Content-Type"@, "application/json"@), ("Authorization"@, "Bearer "@ + api_token@)],
            Some(embed_body(string_views(texts@))),
        ),
{
    let ghost quoted = string_views(texts@).map_values(|t: Seq<char>| json_string(t));
    let mut list = String::new();
    let mut i: usize = 0;
    while i < texts.len()
        invariant
            i <= texts.len(),
            quoted == string_views(texts@).map_values(|t: Seq<char>| json_string(t)),
            list@ == join_on(quoted.take(i as int), ','),
        decreases texts.len() - i,
    {
        assert(quoted.take(i + 1).drop_last() =~= quoted.take(i as int));
        if i > 0 {
            push_char(&mut list, ',');
        }
        list.append(quote_json(texts[i].as_str()).as_str());
        i = i + 1;
    }
    assert(quoted.take(texts.len() as int) =~= quoted);
    let mut body = owned("{\"text\":[");
    body.append(list.as_str());
    body.append("]}");
    let mut url = concat2("https://api.cloudflare.com/client/v4/accounts/", account_id);
    url.append("/ai/run/");
    url.append(EMBEDDING_MODEL);
    let mut headers: Vec<(String, String)> = Vec::new();
    headers.push(header("Content-Type", "application/json"));
    headers.push(header("Authorization", concat2("Bearer ", api_token).as_str()));
    let res = HttpRequest { method: Method::Post, url, headers, body: Some(body) };
    assert(header_views(res.headers@) =~= seq![("Content-Type"@, "application/json"@), ("Authorization"@, "Bearer "@ + api_token@)]);
    res
}

/// The error for an embedding request that did not come back with status 200.
pub fn embed_failure(status: u16, error_text: &str) -> (res: Error)
    ensures
        res@ == "AI API Error "@ + decimal(status as nat) + ": "@ + error_text@,
{
    let mut m = concat2("AI API Error ", decimal_text(status as usize).as_str());
    m.append(": ");
    m.append(error_text);
    Error::new(m)
}

/// The URL of an operation on the documentation index.
pub open spec fn index_url(account_id: Seq<char>, operation: Seq<char>) -> Seq<char> {
    account_url(account_id) + "/vectorize/v2/indexes/"@ + INDEX_NAME@ + "/"@ + operation
}

fn vectorize_request(account_id: &str, api_token: &str, operation: &str, content_type: &str) -> (res: HttpRequest)
    ensures
        res@ == (
            Method::Post,
            index_url(account_id@, operation@),
            seq![("Content-Type"@, content_type@), ("Authorization"@, "Bearer "@ + api_token@), ("CF-API-Version"@, "2"@)],
            None::<Seq<char>>,
        ),
{
    let mut url = concat2("https://api.cloudflare.com/client/v4/accounts/", account_id);
    url.append("/vectorize/v2/indexes/");
    url.append(INDEX_NAME);
    url.append("/");
    url.append(operation);
    let mut headers: Vec<(String, String)> = Vec::new();
    headers.push(header("Content-Type", content_type));
    headers.push(header("Authorization", concat2("Bearer ", api_token).as_str()));
    headers.push(header("CF-API-Version", "2"));
    let res = HttpRequest { method: Method::Post, url, headers, body: None };
    assert(header_views(res.headers@) =~= seq![("Content-Type"@, content_type@), ("Authorization"@, "Bearer "@ + api_token@), ("CF-API-Version"@, "2"@)]);
    res
}

/// The request that upserts records; its body is the records as NDJSON,
/// which the caller writes since their values are floating point.
pub fn upsert_request(account_id: &str, api_token: &str) -> (res: HttpRequest)
    ensures
        res@ == (
            Method::Post,
            index_url(account_id@, "upsert"@),
            seq![("Content-Type"@, "application/x-ndjson"@), ("Authorization"@, "Bearer "@ + api_token@), ("CF-API-Version"@, "2"@)],
            None::<Seq<char>>,
        ),
{
    vectorize_request(account_id, api_token, "upsert", "application/x-ndjson")
}

/// The error for an upsert that did not come back with status 200.
pub fn upsert_failure(error_text: &str) -> (res: Error)
    ensures
        res@ == "Upsert Error: "@ + error_text@,
{
    Error::new(concat2("Upsert Error: ", error_text))
}

/// The request that queries the index; its body holds the query vector,
/// which the caller writes since its values are floating point.
pub fn query_request(account_id: &str, api_token: &str) -> (res: HttpRequest)
    ensures
        res@ == (
            Method::Post,
            index_url(account_id@, "query"@),
            seq![("Content-Type"@, "application/json"@), ("Authorization"@, "Bearer "@ + api_token@), ("CF-API-Version"@, "2"@)],
            None::<Seq<char>>,
        ),
{
    vectorize_request(account_id, api_token, "query", "application/json")
}

// ---------------------------------------------------------------------------
// Prompt augmentation
// ---------------------------------------------------------------------------

/// The first embedding of a batch, or the error when there is none.
pub fn first_embedding(embeddings: &Vec<Vec<u32>>) -> (res: Result<Vec<u32>, Error>)
    ensures
        embeddings.len() == 0 <==> res is Err,
        res matches Err(e) ==> e@ == "Embedding failed"@,
        res matches Ok(v) ==> v@ == embeddings@[0]@,
{
    if embeddings.len() == 0 {
        Err(Error::new(owned("Embedding failed")))
    } else {
        Ok(copy_values(&embeddings[0]))
    }
}

/// A text member of match metadata, or the empty text.
pub open spec fn member_or_empty(meta: Json, key: Seq<char>) -> Seq<char> {
    match text_member(meta, key) {
        Some(s) => s,
        None => Seq::empty(),
    }
}

/// The context lines of query matches: for each match that has metadata,
/// `From {url}: {text}` and a blank line.
pub open spec fn match_context(matches: Seq<Option<Json>>) -> Seq<char>
    decreases matches.len(),
{
    if matches.len() == 0 {
        Seq::empty()
    } else {
        match_context(matches.drop_last()) + match matches.last() {
            Some(meta) => "From "@ + member_or_empty(meta, "url"@) + ": "@ + member_or_empty(meta, "text"@) + "\n\n"@,
            None => Seq::empty(),
        }
    }
}

/// The context of matches one after another is the context of the first
/// ones followed by that of the others: each match contributes on its own,
/// whatever its neighbours hold.
pub proof fn lemma_match_context_concat(a: Seq<Option<Json>>, b: Seq<Option<Json>>)
    ensures
        match_context(a + b) == match_context(a) + match_context(b),
    decreases b.len(),
{
    if b.len() == 0 {
        assert(a + b =~= a);
        assert(match_context(a) + match_context(b) =~= match_context(a));
    } else {
        assert((a + b).drop_last() =~= a + b.drop_last());
        assert((a + b).last() == b.last());
        lemma_match_context_concat(a, b.drop_last());
        let tail = match b.last() {
            Some(meta) => "From "@ + member_or_empty(meta, "url"@) + ": "@ + member_or_empty(meta, "text"@) + "\n\n"@,
            None => Seq::<char>::empty(),
        };
        assert(match_context(a) + match_context(b.drop_last()) + tail =~= match_context(a) + (match_context(
            b.drop_last(),
        ) + tail));
    }
}

/// A match with metadata contributes `From {url}: {text}` and a blank line,
/// with its `url` and `text` members (empty where missing or not strings);
/// one without metadata contributes nothing. Appended after any matches, it
/// adds exactly that to their context.
pub proof fn lemma_match_context_entry(matches: Seq<Option<Json>>, meta: Json)
    ensures
        match_context(seq![Some(meta)]) == "From "@ + member_or_empty(meta, "url"@) + ": "@ + member_or_empty(
            meta,
            "text"@,
        ) + "\n\n"@,
        match_context(seq![None::<Json>]).len() == 0,
        match_context(matches.push(Some(meta))) == match_context(matches) + "From "@ + member_or_empty(meta, "url"@)
            + ": "@ + member_or_empty(meta, "text"@) + "\n\n"@,
        match_context(matches.push(None)) == match_context(matches),
{
    let one = seq![Some(meta)];
    let none = seq![None::<Json>];
    assert(one.drop_last() =~= Seq::<Option<Json>>::empty());
    assert(none.drop_last() =~= Seq::<Option<Json>>::empty());
    assert(match_context(Seq::<Option<Json>>::empty()) == Seq::<char>::empty());
    assert(one.last() == Some(meta));
    assert(none.last() == None::<Json>);
    assert(match_context(none) == match_context(Seq::<Option<Json>>::empty()) + Seq::<char>::empty());
    assert(matches.push(Some(meta)).drop_last() =~= matches);
    assert(matches.push(None).drop_last() =~= matches);
    assert(Seq::<char>::empty() + ("From "@ + member_or_empty(meta, "url"@) + ": "@ + member_or_empty(meta, "text"@)
        + "\n\n"@) =~= "From "@ + member_or_empty(meta, "url"@) + ": "@ + member_or_empty(meta, "text"@)
        + "\n\n"@);
    assert(match_context(matches) + Seq::<char>::empty() =~= match_context(matches));
    assert(match_context(matches) + ("From "@ + member_or_empty(meta, "url"@) + ": "@ + member_or_empty(meta, "text"@)
        + "\n\n"@) =~= match_context(matches) + "From "@ + member_or_empty(meta, "url"@) + ": "@
        + member_or_empty(meta, "text"@) + "\n\n"@);
}

/// The documentation context for a prompt from the metadata of the query
/// matches, or a note that nothing relevant was found.
pub fn augment_prompt(matches: &Vec<Option<Json>>) -> (res: String)
    ensures
        match_context(matches@).len() == 0 ==> res@ == "No relevant documentation found."@,
        match_context(matches@).len() > 0 ==> res@ == match_context(matches@),
{
    let mut context = String::new();
    let mut i: usize = 0;
    while i < matches.len()
        invariant
            i <= matches.len(),
            context@ == match_context(matches@.take(i as int)),
        decreases matches.len() - i,
    {
        assert(matches@.take(i + 1).drop_last() =~= matches@.take(i as int));
        match &matches[i] {
            Some(meta) => {
                let text = match text_member_of(meta, "text") {
                    Some(t) => t.as_str(),
                    None => "",
                };
                let url = match text_member_of(meta, "url") {
                    Some(u) => u.as_str(),
                    None => "",
                };
                proof {
                    reveal_strlit("");
                }
                context.append("From ");
                context.append(url);
                context.append(": ");
                context.append(text);
                context.append("\n\n");
            },
            None => {
                assert(context@ + Seq::<char>::empty() =~= context@);
            },
        }
        i = i + 1;
    }
    assert(matches@.take(matches.len() as int) =~= matches@);
    if context.as_str().is_empty() {
        return owned("No relevant documentation found.");
    }
    context
}

// ---------------------------------------------------------------------------
// Indexing run
// ---------------------------------------------------------------------------

/// Where an indexing run stands.
#[derive(PartialEq, Eq, Structural, Clone, Copy, Debug)]
pub enum Phase {
    /// The current section's page is being fetched.
    AwaitPage,
    /// The embeddings of the current page's chunks are being computed.
    AwaitEmbeddings,
    /// Buffered records are being upserted.
    AwaitUpsert,
    /// The run is over.
    Finished,
}

/// What the caller is to do next in an indexing run.
#[derive(Debug)]
pub enum IndexAction {
    /// Fetch the page of a section and report its HTML (or the error).
    Fetch { slug: String, url: String },
    /// Compute the embeddings of these texts and report them (or the error).
    Embed { texts: Vec<String> },
    /// Upsert these records and report the outcome.
    Upsert { records: Vec<VectorRecord> },
    /// The run is over, with this outcome.
    Finish(Result<(), Error>),
}

/// The action fetches the given section.
pub open spec fn fetches(a: IndexAction, section: (Seq<char>, Seq<char>)) -> bool {
    a matches IndexAction::Fetch { slug, url } && slug@ == section.0 && url@ == section.1
}

/// The action asks for the embeddings of the given texts.
pub open spec fn embeds(a: IndexAction, texts: Seq<Seq<char>>) -> bool {
    a matches IndexAction::Embed { texts: t } && string_views(t@) == texts
}

/// The action upserts the given records.
pub open spec fn upserts(a: IndexAction, records: Seq<(Seq<char>, Seq<u32>, Seq<char>, Seq<char>, Seq<char>)>) -> bool {
    a matches IndexAction::Upsert { records: r } && record_views(r@) == records
}

/// The action ends the run successfully.
pub open spec fn finishes_ok(a: IndexAction) -> bool {
    a matches IndexAction::Finish(Ok(()))
}

/// The action ends the run with the given error.
pub open spec fn finishes_with(a: IndexAction, message: Seq<char>) -> bool {
    a matches IndexAction::Finish(Err(e)) && e@ == message
}

/// A record as plain values: id, values, url, section, text.
pub type RecordView = (Seq<char>, Seq<u32>, Seq<char>, Seq<char>, Seq<char>);

/// The batches one after another.
pub open spec fn concat_batches(batches: Seq<Seq<RecordView>>) -> Seq<RecordView>
    decreases batches.len(),
{
    if batches.len() == 0 {
        Seq::empty()
    } else {
        concat_batches(batches.drop_last()) + batches.last()
    }
}

/// The record has the id, URL and section of chunk `origin.1` of the section
/// at `origin.0` in `section_list()`.
pub open spec fn from_section(r: RecordView, origin: (nat, nat)) -> bool {
    &&& origin.0 < section_list().len()
    &&& r.0 == section_list()[origin.0 as int].0 + "-"@ + decimal(origin.1)
    &&& r.2 == section_list()[origin.0 as int].1
    &&& r.3 == section_list()[origin.0 as int].0
}

/// For each section whose page was embedded (by its index in
/// `section_list()`): the page's chunks and their embeddings.
pub type PageHistory = Map<nat, (Seq<Seq<char>>, Seq<Seq<u32>>)>;

/// The record holds the embedding of chunk `origin.1` of the page of section
/// `origin.0` as its values and that chunk's kept text, as `pages` holds them.
pub open spec fn built_from_page(r: RecordView, origin: (nat, nat), pages: PageHistory) -> bool {
    &&& pages.contains_key(origin.0)
    &&& origin.1 < min_nat(pages[origin.0].0.len(), pages[origin.0].1.len())
    &&& r.1 == pages[origin.0].1[origin.1 as int]
    &&& r.4 == truncated(pages[origin.0].0[origin.1 as int])
}

/// Chunk `a.1` of section `a.0` comes before chunk `b.1` of section `b.0`:
/// an earlier section, or an earlier chunk of the same one.
pub open spec fn comes_before(a: (nat, nat), b: (nat, nat)) -> bool {
    a.0 < b.0 || (a.0 == b.0 && a.1 < b.1)
}

/// The state of an indexing run over the documentation sections: each page
/// is fetched, cut into chunks and embedded; its records are buffered and
/// upserted whenever ten or more are waiting, and once more at the end.
/// Alongside, the run keeps (as ghost state) every record built so far with
/// the section and chunk it comes from, and every batch handed out to be
/// upserted.
pub struct DocIndexer {
    sections: Vec<(String, String)>,
    current: usize,
    phase: Phase,
    chunks: Vec<String>,
    flushing: bool,
    buffer: Vec<VectorRecord>,
    built: Ghost<Seq<RecordView>>,
    origins: Ghost<Seq<(nat, nat)>>,
    pages: Ghost<PageHistory>,
    batches: Ghost<Seq<Seq<RecordView>>>,
}

/// What follows the end of section `current` with `buffer` waiting and the
/// batches `sent` handed out so far: the next section's fetch; after the last
/// section, the upsert of what is waiting; and when nothing is waiting, a
/// successful end.
pub open spec fn advanced(
    current: nat,
    buffer: Seq<RecordView>,
    sent: Seq<Seq<RecordView>>,
    after: DocIndexer,
    action: IndexAction,
) -> bool {
    if current + 1 < section_list().len() {
        &&& after.phase() == Phase::AwaitPage
        &&& after.section_index() == current + 1
        &&& after.buffered() == buffer
        &&& after.batches() == sent
        &&& fetches(action, section_list()[current + 1 as int])
    } else if buffer.len() > 0 {
        &&& after.phase() == Phase::AwaitUpsert
        &&& after.final_flush()
        &&& after.section_index() == current
        &&& after.buffered().len() == 0
        &&& after.batches() == sent.push(buffer)
        &&& upserts(action, buffer)
    } else {
        &&& after.phase() == Phase::Finished
        &&& after.section_index() == current
        &&& after.buffered().len() == 0
        &&& after.batches() == sent
        &&& finishes_ok(action)
    }
}

impl DocIndexer {
    /// The run's history is consistent: each built record comes from a
    /// section and chunk, in order and up to the current section; the batches
    /// handed out, then the buffer, are the built records; every batch holds
    /// records, and ten or more unless it is the final one.
    closed spec fn history(&self) -> bool {
        let built = self.built@;
        let origins = self.origins@;
        let batches = self.batches@;
        &&& origins.len() == built.len()
        &&& forall|k: int| 0 <= k < built.len() ==> from_section(#[trigger] built[k], origins[k])
        &&& forall|k: int| 0 <= k < built.len() ==> built_from_page(#[trigger] built[k], origins[k], self.pages@)
        &&& forall|j: int, k: int|
            0 <= j < k < origins.len() ==> comes_before(#[trigger] origins[j], #[trigger] origins[k])
        &&& forall|k: int| 0 <= k < origins.len() ==> (#[trigger] origins[k]).0 <= self.current
        &&& concat_batches(batches) + record_views(self.buffer@) == built
        &&& forall|i: int|
            0 <= i < batches.len() ==> (#[trigger] batches[i]).len() > 0 && (batches[i].len() >= UPSERT_BATCH || (
            i == batches.len() - 1 && self.flushing))
    }

    /// The state is consistent: the sections are the documentation's, the
    /// current one exists, fewer than ten records wait while a page is in
    /// progress (none of them from that page), none while an upsert is
    /// awaited, the final upsert is the last step, and the history holds.
    pub closed spec fn wf(&self) -> bool {
        &&& pair_views(self.sections@) == section_list()
        &&& self.current < self.sections.len()
        &&& (self.phase == Phase::AwaitPage || self.phase == Phase::AwaitEmbeddings) ==> {
            &&& self.buffer.len() < UPSERT_BATCH
            &&& forall|k: int| 0 <= k < self.origins@.len() ==> (#[trigger] self.origins@[k]).0 < self.current
        }
        &&& self.phase == Phase::AwaitEmbeddings ==> self.chunks.len() > 0
        &&& self.phase == Phase::AwaitUpsert ==> self.buffer.len() == 0
        &&& self.flushing ==> (self.phase == Phase::AwaitUpsert || self.phase == Phase::Finished)
        &&& self.history()
    }

    /// Every record built so far in the run, in the order built.
    pub closed spec fn built(&self) -> Seq<RecordView> {
        self.built@
    }

    /// For each built record, the index of its section in `section_list()`
    /// and the index of its chunk in that section's page.
    pub closed spec fn origins(&self) -> Seq<(nat, nat)> {
        self.origins@
    }

    /// For each section whose page was embedded so far: its chunks and their
    /// embeddings.
    pub closed spec fn pages(&self) -> PageHistory {
        self.pages@
    }

    /// The batches handed out to be upserted so far, in order.
    pub closed spec fn batches(&self) -> Seq<Seq<RecordView>> {
        self.batches@
    }

    /// Where the run stands.
    pub closed spec fn phase(&self) -> Phase {
        self.phase
    }

    /// The index of the section in progress in `section_list()`.
    pub closed spec fn section_index(&self) -> nat {
        self.current as nat
    }

    /// The chunks of the current page, while their embeddings are awaited.
    pub closed spec fn pending_chunks(&self) -> Seq<Seq<char>> {
        string_views(self.chunks@)
    }

    /// The records waiting to be upserted.
    pub closed spec fn buffered(&self) -> Seq<(Seq<char>, Seq<u32>, Seq<char>, Seq<char>, Seq<char>)> {
        record_views(self.buffer@)
    }

    /// Whether the awaited upsert is the last one of the run.
    pub closed spec fn final_flush(&self) -> bool {
        self.flushing
    }

    /// While a page is in progress, at most nine records wait unsent.
    pub proof fn lemma_buffer_below_batch(&self)
        requires
            self.wf(),
            self.phase() == Phase::AwaitPage || self.phase() == Phase::AwaitEmbeddings,
        ensures
            self.buffered().len() < UPSERT_BATCH,
    {
    }

    /// Across a run, every record built is upserted exactly once and in the
    /// order built: the batches handed out, followed by the records still
    /// waiting, are the built records. No batch is empty, and every batch but
    /// the final one holds at least ten records; when nothing was built,
    /// nothing was upserted. Each record's id is `{slug}-{i}` for chunk `i` of
    /// a documentation section, with that section's URL and slug as metadata,
    /// in the order of sections and chunks, and no two records share an id.
    /// Its values are the embedding of that chunk, and its text the chunk's
    /// kept text.
    pub proof fn lemma_run_history(&self)
        requires
            self.wf(),
        ensures
            concat_batches(self.batches()) + self.buffered() == self.built(),
            forall|i: int|
                0 <= i < self.batches().len() ==> (#[trigger] self.batches()[i]).len() > 0 && (
                self.batches()[i].len() >= UPSERT_BATCH || (i == self.batches().len() - 1
                    && self.final_flush())),
            self.built().len() == 0 ==> self.batches().len() == 0,
            self.origins().len() == self.built().len(),
            forall|k: int| 0 <= k < self.built().len() ==> from_section(#[trigger] self.built()[k], self.origins()[k]),
            forall|k: int|
                0 <= k < self.built().len() ==> built_from_page(#[trigger] self.built()[k], self.origins()[k], self.pages()),
            forall|j: int, k: int|
                0 <= j < k < self.built().len() ==> comes_before(#[trigger] self.origins()[j], #[trigger] self.origins()[k]),
            forall|j: int, k: int|
                0 <= j < k < self.built().len() ==> (#[trigger] self.built()[j]).0 != (#[trigger] self.built()[k]).0,
    {
        let built = self.built@;
        let origins = self.origins@;
        if self.batches@.len() > 0 {
            assert(self.batches@[self.batches@.len() - 1].len() > 0);
            assert(concat_batches(self.batches@).len() >= self.batches@.last().len());
        }
        assert forall|j: int, k: int| 0 <= j < k < built.len() implies (#[trigger] built[j]).0 != (
        #[trigger] built[k]).0 by {
            let oj = origins[j];
            let ok = origins[k];
            assert(from_section(built[j], oj));
            assert(from_section(built[k], ok));
            assert(comes_before(oj, ok));
            if built[j].0 == built[k].0 {
                lemma_decimal_no_dash(oj.1);
                lemma_decimal_no_dash(ok.1);
                lemma_split_last_dash(
                    section_list()[oj.0 as int].0,
                    decimal(oj.1),
                    section_list()[ok.0 as int].0,
                    decimal(ok.1),
                );
                lemma_decimal_injective(oj.1, ok.1);
                lemma_slugs_distinct();
                if oj.0 < ok.0 {
                    assert(section_list()[oj.0 as int].0 != section_list()[ok.0 as int].0);
                }
            }
        }
    }

    /// Ends the current section.
    fn advance(&mut self) -> (action: IndexAction)
        requires
            pair_views(old(self).sections@) == section_list(),
            old(self).current < old(self).sections.len(),
            old(self).buffer.len() < UPSERT_BATCH,
            old(self).history(),
            !old(self).flushing,
        ensures
            final(self).wf(),
            final(self).built() == old(self).built(),
            final(self).origins() == old(self).origins(),
            final(self).pages() == old(self).pages(),
            advanced(old(self).section_index(), old(self).buffered(), old(self).batches(), *final(self), action),
    {
        if self.current + 1 < self.sections.len() {
            self.current = self.current + 1;
            self.phase = Phase::AwaitPage;
            let slug = self.sections[self.current].0.clone();
            let url = self.sections[self.current].1.clone();
            IndexAction::Fetch { slug, url }
        } else if self.buffer.len() > 0 {
            let ghost waiting = record_views(self.buffer@);
            let mut records: Vec<VectorRecord> = Vec::new();
            std::mem::swap(&mut records, &mut self.buffer);
            self.phase = Phase::AwaitUpsert;
            self.flushing = true;
            proof {
                let sent = self.batches@;
                self.batches@ = sent.push(waiting);
                assert(self.batches@.drop_last() =~= sent);
                assert(record_views(self.buffer@) =~= Seq::empty());
                assert(concat_batches(self.batches@) + record_views(self.buffer@) =~= concat_batches(sent)
                    + waiting);
            }
            IndexAction::Upsert { records }
        } else {
            self.phase = Phase::Finished;
            IndexAction::Finish(Ok(()))
        }
    }

    /// Takes the fetched page of the current section (or the fetch's error,
    /// after which the section is skipped). A page whose text gives no
    /// chunk is skipped too; otherwise its chunks are embedded.
    pub fn on_page(&mut self, page: Result<String, Error>) -> (action: IndexAction)
        requires
            old(self).wf(),
            old(self).phase() == Phase::AwaitPage,
        ensures
            final(self).wf(),
            final(self).built() == old(self).built(),
            final(self).origins() == old(self).origins(),
            final(self).pages() == old(self).pages(),
            match page {
                Err(_) => advanced(old(self).section_index(), old(self).buffered(), old(self).batches(), *final(self), action),
                Ok(html) => if text_chunks(html_text(html@), CHUNK_WORDS as nat).len() == 0 {
                    advanced(old(self).section_index(), old(self).buffered(), old(self).batches(), *final(self), action)
                } else {
                    &&& final(self).phase() == Phase::AwaitEmbeddings
                    &&& final(self).section_index() == old(self).section_index()
                    &&& final(self).buffered() == old(self).buffered()
                    &&& final(self).batches() == old(self).batches()
                    &&& final(self).pending_chunks() == text_chunks(html_text(html@), CHUNK_WORDS as nat)
                    &&& embeds(action, text_chunks(html_text(html@), CHUNK_WORDS as nat))
                },
            },
    {
        match page {
            Err(_) => self.advance(),
            Ok(html) => {
                let text = html_to_text(html.as_str());
                let chunks = chunk_text(text, CHUNK_WORDS);
                if chunks.len() == 0 {
                    self.advance()
                } else {
                    let texts = copy_strings(&chunks);
                    self.chunks = chunks;
                    self.phase = Phase::AwaitEmbeddings;
                    IndexAction::Embed { texts }
                }
            },
        }
    }

    /// Whether the records for `count` embeddings of the pending chunks can be
    /// made: no kept text would be cut inside a character.
    pub fn fits_embeddings(&self, count: usize) -> (res: bool)
        ensures
            res == records_fit(self.pending_chunks(), count as nat),
    {
        chunks_fit(&self.chunks, count)
    }

    /// Takes the embeddings of the pending chunks (the bit patterns of their
    /// `f32` values), or the error that ends the run. The page's records are
    /// built and added to the buffer, which is upserted once it holds ten or
    /// more; otherwise the section ends.
    pub fn on_embeddings(&mut self, result: Result<Vec<Vec<u32>>, Error>) -> (action: IndexAction)
        requires
            old(self).wf(),
            old(self).phase() == Phase::AwaitEmbeddings,
            result matches Ok(e) ==> records_fit(old(self).pending_chunks(), e.len() as nat),
        ensures
            final(self).wf(),
            match result {
                Err(e) => {
                    &&& final(self).phase() == Phase::Finished
                    &&& final(self).built() == old(self).built()
                    &&& final(self).pages() == old(self).pages()
                    &&& final(self).batches() == old(self).batches()
                    &&& finishes_with(action, e@)
                },
                Ok(embeddings) => {
                    let section = section_list()[old(self).section_index() as int];
                    let added = page_records(
                        section.0,
                        section.1,
                        old(self).pending_chunks(),
                        embedding_views(embeddings@),
                    );
                    let waiting = old(self).buffered() + added;
                    &&& final(self).built() == old(self).built() + added
                    &&& final(self).origins() == old(self).origins() + Seq::new(
                        added.len(),
                        |i: int| (old(self).section_index(), i as nat),
                    )
                    &&& final(self).pages() == old(self).pages().insert(
                        old(self).section_index(),
                        (old(self).pending_chunks(), embedding_views(embeddings@)),
                    )
                    &&& if waiting.len() >= UPSERT_BATCH {
                        &&& final(self).phase() == Phase::AwaitUpsert
                        &&& !final(self).final_flush()
                        &&& final(self).section_index() == old(self).section_index()
                        &&& final(self).buffered().len() == 0
                        &&& final(self).batches() == old(self).batches().push(waiting)
                        &&& upserts(action, waiting)
                    } else {
                        advanced(old(self).section_index(), waiting, old(self).batches(), *final(self), action)
                    }
                },
            },
    {
        match result {
            Err(e) => {
                self.phase = Phase::Finished;
                IndexAction::Finish(Err(e))
            },
            Ok(embeddings) => {
                let ghost before = record_views(self.buffer@);
                let ghost cur = self.current as nat;
                let ghost page = (string_views(self.chunks@), embedding_views(embeddings@));
                assert(self.sections@[self.current as int].0@ == section_list()[self.current as int].0);
                assert(self.sections@[self.current as int].1@ == section_list()[self.current as int].1);
                let records = vector_records(
                    self.sections[self.current].0.as_str(),
                    self.sections[self.current].1.as_str(),
                    &self.chunks,
                    &embeddings,
                );
                let ghost added = record_views(records@);
                let mut records = records;
                self.buffer.append(&mut records);
                assert(record_views(self.buffer@) =~= before + added);
                self.chunks = Vec::new();
                proof {
                    let old_built = self.built@;
                    let old_origins = self.origins@;
                    let fresh = Seq::new(added.len(), |i: int| (cur, i as nat));
                    let old_pages = self.pages@;
                    self.built@ = old_built + added;
                    self.origins@ = old_origins + fresh;
                    self.pages@ = old_pages.insert(cur, page);
                    assert forall|k: int| 0 <= k < self.built@.len() implies built_from_page(
                        #[trigger] self.built@[k],
                        self.origins@[k],
                        self.pages@,
                    ) by {
                        if k >= old_built.len() {
                            assert(self.built@[k] == added[k - old_built.len()]);
                            assert(self.origins@[k] == fresh[k - old_built.len()]);
                        } else {
                            assert(self.built@[k] == old_built[k]);
                            assert(self.origins@[k] == old_origins[k]);
                            assert(built_from_page(old_built[k], old_origins[k], old_pages));
                            assert(old_origins[k].0 < cur);
                        }
                    }
                    assert forall|k: int| 0 <= k < self.built@.len() implies from_section(
                        #[trigger] self.built@[k],
                        self.origins@[k],
                    ) by {
                        if k >= old_built.len() {
                            assert(self.built@[k] == added[k - old_built.len()]);
                            assert(self.origins@[k] == fresh[k - old_built.len()]);
                        } else {
                            assert(self.built@[k] == old_built[k]);
                            assert(self.origins@[k] == old_origins[k]);
                        }
                    }
                    assert forall|j: int, k: int| 0 <= j < k < self.origins@.len() implies comes_before(
                        #[trigger] self.origins@[j],
                        #[trigger] self.origins@[k],
                    ) by {
                        if j < old_origins.len() {
                            assert(self.origins@[j] == old_origins[j]);
                            if k < old_origins.len() {
                                assert(self.origins@[k] == old_origins[k]);
                            } else {
                                assert(self.origins@[k] == fresh[k - old_origins.len()]);
                            }
                        } else {
                            assert(self.origins@[j] == fresh[j - old_origins.len()]);
                            assert(self.origins@[k] == fresh[k - old_origins.len()]);
                        }
                    }
                    assert forall|k: int| 0 <= k < self.origins@.len() implies (
                    #[trigger] self.origins@[k]).0 <= self.current by {
                        if k < old_origins.len() {
                            assert(self.origins@[k] == old_origins[k]);
                        } else {
                            assert(self.origins@[k] == fresh[k - old_origins.len()]);
                        }
                    }
                    assert(concat_batches(self.batches@) + record_views(self.buffer@) =~= self.built@);
                }
                if self.buffer.len() >= UPSERT_BATCH {
                    let ghost waiting = record_views(self.buffer@);
                    let mut batch: Vec<VectorRecord> = Vec::new();
                    std::mem::swap(&mut batch, &mut self.buffer);
                    self.phase = Phase::AwaitUpsert;
                    self.flushing = false;
                    proof {
                        let sent = self.batches@;
                        self.batches@ = sent.push(waiting);
                        assert(self.batches@.drop_last() =~= sent);
                        assert(record_views(self.buffer@) =~= Seq::empty());
                        assert(concat_batches(self.batches@) + record_views(self.buffer@) =~= concat_batches(sent)
                            + waiting);
                    }
                    IndexAction::Upsert { records: batch }
                } else {
                    self.advance()
                }
            },
        }
    }

    /// Takes the outcome of the awaited upsert: an error ends the run; after
    /// the last upsert the run ends successfully; otherwise the section ends.
    pub fn on_upsert(&mut self, result: Result<(), Error>) -> (action: IndexAction)
        requires
            old(self).wf(),
            old(self).phase() == Phase::AwaitUpsert,
        ensures
            final(self).wf(),
            final(self).built() == old(self).built(),
            final(self).pages() == old(self).pages(),
            match result {
                Err(e) => {
                    &&& final(self).phase() == Phase::Finished
                    &&& final(self).batches() == old(self).batches()
                    &&& finishes_with(action, e@)
                },
                Ok(()) => if old(self).final_flush() {
                    &&& final(self).phase() == Phase::Finished
                    &&& final(self).buffered().len() == 0
                    &&& final(self).batches() == old(self).batches()
                    &&& finishes_ok(action)
                } else {
                    advanced(old(self).section_index(), Seq::empty(), old(self).batches(), *final(self), action)
                },
            },
    {
        match result {
            Err(e) => {
                self.phase = Phase::Finished;
                IndexAction::Finish(Err(e))
            },
            Ok(()) => {
                if self.flushing {
                    self.phase = Phase::Finished;
                    IndexAction::Finish(Ok(()))
                } else {
                    assert(record_views(self.buffer@) =~= Seq::empty());
                    self.advance()
                }
            },
        }
    }
}

/// Starts an indexing run: the first section is fetched.
pub fn index_docs() -> (res: (DocIndexer, IndexAction))
    ensures
        res.0.wf(),
        res.0.phase() == Phase::AwaitPage,
        res.0.section_index() == 0,
        res.0.buffered().len() == 0,
        res.0.built().len() == 0,
        res.0.pages() == Map::<nat, (Seq<Seq<char>>, Seq<Seq<u32>>)>::empty(),
        res.0.batches().len() == 0,
        fetches(res.1, section_list()[0]),
{
    let sections = doc_sections();
    proof {
        lemma_section_count();
        assert(pair_views(sections@).len() == sections@.len());
    }
    let slug = sections[0].0.clone();
    let url = sections[0].1.clone();
    let ix = DocIndexer {
        sections,
        current: 0,
        phase: Phase::AwaitPage,
        chunks: Vec::new(),
        flushing: false,
        buffer: Vec::new(),
        built: Ghost(Seq::empty()),
        origins: Ghost(Seq::empty()),
        pages: Ghost(Map::empty()),
        batches: Ghost(Seq::empty()),
    };
    assert(ix.buffered() =~= Seq::empty());
    assert(concat_batches(ix.batches@) + record_views(ix.buffer@) =~= ix.built@);
    (ix, IndexAction::Fetch { slug, url })
}

} // verus!
