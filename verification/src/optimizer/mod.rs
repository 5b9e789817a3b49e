//! The token-separation pass: turns raw source text into a flat array of
//! token strings. Every recognized symbol is surrounded by exactly one space
//! on each side, tried longest symbol first so that multi-character operators
//! are never split into shorter ones; the text then splits on spaces.
use vstd::prelude::*;

verus! {

use crate::data::SyntaxElements;
use crate::data::spec_all_symbols;
use crate::util::str_eq;
use crate::util::tok_views;
use vstd::string::StrSliceExecFns;
use vstd::string::StringExecFns;

/// The text with every tab replaced by a space.
pub open spec fn spec_replace_tabs(s: Seq<char>) -> Seq<char> {
    Seq::new(
        s.len(),
        |i: int|
            if s[i] == '\t' {
                ' '
            } else {
                s[i]
            },
    )
}

/// The index, among the symbols from `j` on, of the first symbol that stands
/// at position `idx` of the text, if any; an empty symbol never matches.
pub open spec fn spec_first_match(
    syms: Seq<Seq<char>>,
    text: Seq<char>,
    idx: int,
    j: int,
) -> Option<int>
    decreases syms.len() - j,
{
    if j < 0 || j >= syms.len() {
        None
    } else if 1 <= syms[j].len() <= text.len() - idx && text.subrange(idx, idx + syms[j].len())
        == syms[j] {
        Some(j)
    } else {
        spec_first_match(syms, text, idx, j + 1)
    }
}

/// A match names a symbol of at least one character that fits the text.
pub proof fn lemma_first_match_range(syms: Seq<Seq<char>>, text: Seq<char>, idx: int, j: int)
    requires
        0 <= j,
        spec_first_match(syms, text, idx, j) is Some,
    ensures
        ({
            let m = spec_first_match(syms, text, idx, j)->Some_0;
            &&& j <= m < syms.len()
            &&& 1 <= syms[m].len() <= text.len() - idx
            &&& text.subrange(idx, idx + syms[m].len()) == syms[m]
        }),
    decreases syms.len() - j,
{
    if j < syms.len() && !(1 <= syms[j].len() <= text.len() - idx && text.subrange(
        idx,
        idx + syms[j].len(),
    ) == syms[j]) {
        lemma_first_match_range(syms, text, idx, j + 1);
    }
}

/// The text with every recognized symbol at or after `idx` surrounded by one
/// inserted space on each side, scanning left to right and trying the symbols
/// in the order given.
pub open spec fn spec_separate(syms: Seq<Seq<char>>, text: Seq<char>, idx: int) -> Seq<char>
    decreases text.len() - idx,
    via spec_separate_decreases
{
    if idx < 0 || idx >= text.len() - 1 {
        text
    } else {
        match spec_first_match(syms, text, idx, 0) {
            None => spec_separate(syms, text, idx + 1),
            Some(j) => {
                let l = syms[j].len() as int;
                let text2 = text.subrange(0, idx) + seq![' '] + text.subrange(idx, idx + l)
                    + seq![' '] + text.subrange(idx + l, text.len() as int);
                spec_separate(syms, text2, idx + l + 2)
            },
        }
    }
}

#[via_fn]
proof fn spec_separate_decreases(syms: Seq<Seq<char>>, text: Seq<char>, idx: int) {
    if 0 <= idx < text.len() - 1 {
        if spec_first_match(syms, text, idx, 0) is Some {
            lemma_first_match_range(syms, text, idx, 0);
        }
    }
}

/// The tokens of the text from index `i` on, with `cur` the piece read so
/// far: pieces split on spaces, empty pieces dropped.
pub open spec fn spec_tokens_from(text: Seq<char>, i: int, cur: Seq<char>) -> Seq<Seq<char>>
    decreases text.len() - i,
{
    if i < 0 || i >= text.len() {
        if cur.len() > 0 {
            seq![cur]
        } else {
            Seq::empty()
        }
    } else if text[i] == ' ' {
        if cur.len() > 0 {
            seq![cur] + spec_tokens_from(text, i + 1, Seq::empty())
        } else {
            spec_tokens_from(text, i + 1, Seq::empty())
        }
    } else {
        spec_tokens_from(text, i + 1, cur.push(text[i]))
    }
}

/// What the whole pass makes of raw source text: tabs become spaces, every
/// recognized symbol is isolated by spaces (longest symbol first), and the
/// result splits into the non-empty space-separated pieces.
pub open spec fn spec_optimize(text: Seq<char>) -> Seq<Seq<char>> {
    spec_tokens_from(
        spec_separate(spec_sort_by_size(spec_all_symbols()), spec_replace_tabs(text), 0),
        0,
        Seq::empty(),
    )
}

/// The index of the longest element, scanning from `j` with `best` the
/// longest index seen so far; earlier elements win ties.
pub open spec fn spec_largest_from(s: Seq<Seq<char>>, j: int, best: int) -> int
    decreases s.len() - j,
{
    if j < 0 || j >= s.len() {
        best
    } else if s[j].len() > s[best].len() {
        spec_largest_from(s, j + 1, j)
    } else {
        spec_largest_from(s, j + 1, best)
    }
}

/// The scan yields an index inside the sequence.
pub proof fn lemma_largest_from_range(s: Seq<Seq<char>>, j: int, best: int)
    requires
        0 <= best < s.len(),
    ensures
        0 <= spec_largest_from(s, j, best) < s.len(),
    decreases s.len() - j,
{
    if 0 <= j < s.len() {
        if s[j].len() > s[best].len() {
            lemma_largest_from_range(s, j + 1, j);
        } else {
            lemma_largest_from_range(s, j + 1, best);
        }
    }
}

/// The elements reordered so that the longest stands first and lengths fall
/// from there, by repeated selection of the longest remaining element.
pub open spec fn spec_sort_by_size(s: Seq<Seq<char>>) -> Seq<Seq<char>> {
    spec_sort_rec(s, 0)
}

/// One selection step: swap the longest element at or after `i` to `i`.
pub open spec fn spec_sort_rec(s: Seq<Seq<char>>, i: int) -> Seq<Seq<char>>
    decreases s.len() - i,
    via spec_sort_rec_decreases
{
    if i < 0 || i + 1 >= s.len() {
        s
    } else {
        let m = spec_largest_from(s, i + 1, i);
        let s2 = s.update(i, s[m]).update(m, s[i]);
        spec_sort_rec(s2, i + 1)
    }
}

#[via_fn]
proof fn spec_sort_rec_decreases(s: Seq<Seq<char>>, i: int) {
    if 0 <= i && i + 1 < s.len() {
        lemma_largest_from_range(s, i + 1, i);
    }
}

/// A reordered copy of this vector where the two given positions switch
/// places.
pub fn swap_elements(v: &Vec<String>, first: usize, second: usize) -> (r: Vec<String>)
    requires
        first < v@.len(),
        second < v@.len(),
    ensures
        r@.len() == v@.len(),
        tok_views(r@) == tok_views(v@).update(first as int, tok_views(v@)[second as int]).update(
            second as int,
            tok_views(v@)[first as int],
        ),
{
    let mut r = crate::util::subvec(v, 0, v.len());
    let a = v[first].clone();
    let b = v[second].clone();
    r[first] = b;
    r[second] = a;
    proof {
        assert(tok_views(r@) =~= tok_views(v@).update(
            first as int,
            tok_views(v@)[second as int],
        ).update(second as int, tok_views(v@)[first as int]));
    }
    r
}

/// A reordered copy of this vector with the longest element first and lengths
/// falling from there.
pub fn sort_by_size(v: &Vec<String>) -> (r: Vec<String>)
    ensures
        tok_views(r@) == spec_sort_by_size(tok_views(v@)),
{
    let copy = crate::util::subvec(v, 0, v.len());
    proof {
        assert(copy@ =~= v@);
    }
    sort_rec(copy, 0)
}

/// One selection step of the sort, from position `i` on.
#[verifier::loop_isolation(false)]
fn sort_rec(v: Vec<String>, i: usize) -> (r: Vec<String>)
    requires
        i <= v@.len(),
    ensures
        tok_views(r@) == spec_sort_rec(tok_views(v@), i as int),
    decreases v@.len() - i,
{
    let ghost tv = tok_views(v@);
    if v.len() - i <= 1 {
        return v;
    }
    let mut best: usize = i;
    let mut j: usize = i + 1;
    while j < v.len()
        invariant
            i <= best < v@.len(),
            i + 1 <= j,
            spec_largest_from(tv, i + 1, i as int) == spec_largest_from(tv, j as int, best as int),
        decreases v@.len() - j,
    {
        if v[j].unicode_len() > v[best].unicode_len() {
            best = j;
        }
        j = j + 1;
    }
    let swapped = swap_elements(&v, i, best);
    proof {
        assert(spec_largest_from(tv, i + 1, i as int) == best as int);
        assert(swapped@.len() == v@.len());
    }
    sort_rec(swapped, i + 1)
}

/// Holds the flat token stream the separation pass produced.
pub struct Optimizer {
    pub content: Vec<String>,
    pub syntax_elements: SyntaxElements,
}

impl Optimizer {
    /// A fresh pass with an empty token stream.
    pub fn init() -> (r: Self)
        ensures
            r.content@ =~= Seq::<String>::empty(),
            r.syntax_elements.wf(),
    {
        Self { content: Vec::new(), syntax_elements: SyntaxElements::init() }
    }

    /// Turns raw source text into the flat token stream: tabs become spaces,
    /// every recognized symbol is isolated by spaces (longest first), and the
    /// text splits on spaces with empty pieces dropped.
    pub fn generate_optimized_content(&mut self, file_content: &str)
        requires
            old(self).syntax_elements.wf(),
        ensures
            final (self).syntax_elements == old(self).syntax_elements,
            tok_views(final (self).content@) == spec_optimize(file_content@),
    {
        let flattened = replace_tabs(file_content);
        let all_symbols = self.syntax_elements.get_all_symbols();
        let all_symbols_sorted = sort_by_size(&all_symbols);
        let separated = separate_symbols(&all_symbols_sorted, flattened, 0u128);
        let tokens = split_tokens(&separated);
        self.content = tokens;
    }
}

/// Extending the replaced prefix by one character.
proof fn lemma_replace_prefix(s: Seq<char>, i: int)
    requires
        0 <= i < s.len(),
    ensures
        spec_replace_tabs(s.subrange(0, i + 1)) == spec_replace_tabs(s.subrange(0, i)).push(
            if s[i] == '\t' {
                ' '
            } else {
                s[i]
            },
        ),
{
    assert(spec_replace_tabs(s.subrange(0, i + 1)) =~= spec_replace_tabs(
        s.subrange(0, i),
    ).push(
        if s[i] == '\t' {
            ' '
        } else {
            s[i]
        },
    ));
}

/// The text with every tab replaced by a space.
#[verifier::loop_isolation(false)]
fn replace_tabs(s: &str) -> (r: String)
    ensures
        r@ == spec_replace_tabs(s@),
{
    let n = s.unicode_len();
    let mut r = String::new();
    let mut start: usize = 0;
    let mut i: usize = 0;
    while i < n
        invariant
            0 <= start <= i <= n,
            n == s@.len(),
            r@ + s@.subrange(start as int, i as int) =~= spec_replace_tabs(
                s@.subrange(0, i as int),
            ),
            forall|k: int| start <= k < i ==> s@[k] != '\t',
        decreases n - i,
    {
        if s.get_char(i) == '\t' {
            r.append(s.substring_char(start, i));
            r.append(" ");
            proof {
                reveal_strlit(" ");
                lemma_replace_prefix(s@, i as int);
                assert(r@ + s@.subrange(i + 1, i + 1) =~= spec_replace_tabs(
                    s@.subrange(0, i + 1),
                ));
            }
            start = i + 1;
        } else {
            proof {
                lemma_replace_prefix(s@, i as int);
                assert(s@.subrange(start as int, i + 1) =~= s@.subrange(
                    start as int,
                    i as int,
                ).push(s@[i as int]));
                assert(r@ + s@.subrange(start as int, i + 1) =~= spec_replace_tabs(
                    s@.subrange(0, i + 1),
                ));
            }
        }
        i = i + 1;
    }
    r.append(s.substring_char(start, n));
    proof {
        assert(s@.subrange(0, n as int) =~= s@);
        assert(r@ =~= spec_replace_tabs(s@));
    }
    r
}

/// The index, among the symbols from `j` on, of the first symbol that stands
/// at position `idx` of the text, if any.
#[verifier::loop_isolation(false)]
fn first_match_at(symbols: &Vec<String>, text: &String, idx: usize) -> (r: Option<usize>)
    requires
        idx <= text@.len(),
    ensures
        match r {
            Some(j) => spec_first_match(tok_views(symbols@), text@, idx as int, 0) == Some(
                j as int,
            ) && j < symbols@.len(),
            None => spec_first_match(tok_views(symbols@), text@, idx as int, 0) is None,
        },
{
    let ghost syms = tok_views(symbols@);
    let text_len = text.as_str().unicode_len();
    let mut j: usize = 0;
    while j < symbols.len()
        invariant
            0 <= j <= symbols@.len(),
            idx <= text@.len(),
            text_len == text@.len(),
            spec_first_match(syms, text@, idx as int, 0) == spec_first_match(
                syms,
                text@,
                idx as int,
                j as int,
            ),
        decreases symbols@.len() - j,
    {
        let sym_len = symbols[j].as_str().unicode_len();
        if sym_len >= 1 && sym_len <= text_len - idx {
            let piece = text.as_str().substring_char(idx, idx + sym_len);
            if str_eq(piece, symbols[j].as_str()) {
                return Some(j);
            }
        }
        j = j + 1;
    }
    None
}

/// The text with every recognized symbol at or after `idx` surrounded by one
/// inserted space on each side.
fn separate_symbols(symbols: &Vec<String>, text: String, idx: u128) -> (r: String)
    requires
        idx <= text@.len(),
    ensures
        r@ == spec_separate(tok_views(symbols@), text@, idx as int),
    decreases text@.len() - idx,
{
    let ghost syms = tok_views(symbols@);
    let text_len = text.as_str().unicode_len();
    if (text_len as u128) - idx <= 1 {
        return text;
    }
    let idxu: usize = idx as usize;
    match first_match_at(symbols, &text, idxu) {
        None => separate_symbols(symbols, text, idx + 1),
        Some(j) => {
            proof {
                lemma_first_match_range(syms, text@, idx as int, 0);
                reveal_strlit(" ");
            }
            let sym_len = symbols[j].as_str().unicode_len();
            let mut updated = String::new();
            updated.append(text.as_str().substring_char(0, idxu));
            updated.append(" ");
            updated.append(text.as_str().substring_char(idxu, idxu + sym_len));
            updated.append(" ");
            updated.append(text.as_str().substring_char(idxu + sym_len, text_len));
            proof {
                assert(updated@ =~= text@.subrange(0, idx as int) + seq![' '] + text@.subrange(
                    idx as int,
                    idx + sym_len,
                ) + seq![' '] + text@.subrange(idx + sym_len, text@.len() as int));
            }
            separate_symbols(symbols, updated, idx + (sym_len as u128) + 2)
        },
    }
}

/// The non-empty space-separated pieces of the text, in order.
#[verifier::loop_isolation(false)]
fn split_tokens(text: &String) -> (r: Vec<String>)
    ensures
        tok_views(r@) == spec_tokens_from(text@, 0, Seq::empty()),
{
    let n = text.as_str().unicode_len();
    let mut result: Vec<String> = Vec::new();
    let mut start: usize = 0;
    let mut i: usize = 0;
    proof {
        assert(text@.subrange(0, 0) =~= Seq::<char>::empty());
    }
    while i < n
        invariant
            0 <= start <= i <= n,
            n == text@.len(),
            forall|k: int| start <= k < i ==> text@[k] != ' ',
            spec_tokens_from(text@, 0, Seq::empty()) =~= tok_views(result@) + spec_tokens_from(
                text@,
                i as int,
                text@.subrange(start as int, i as int),
            ),
        decreases n - i,
    {
        if text.as_str().get_char(i) == ' ' {
            if i > start {
                let piece: String = text.as_str().substring_char(start, i).to_owned();
                let ghost pre = tok_views(result@);
                result.push(piece);
                proof {
                    assert(tok_views(result@) =~= pre + seq![
                        text@.subrange(start as int, i as int),
                    ]);
                    assert(tok_views(result@) + spec_tokens_from(text@, i + 1, Seq::empty()) =~= (
                    pre + (seq![text@.subrange(start as int, i as int)] + spec_tokens_from(
                        text@,
                        i + 1,
                        Seq::empty(),
                    ))));
                }
            }
            proof {
                assert(text@.subrange(i + 1, i + 1) =~= Seq::<char>::empty());
            }
            start = i + 1;
        } else {
            proof {
                assert(text@.subrange(start as int, i + 1) =~= text@.subrange(
                    start as int,
                    i as int,
                ).push(text@[i as int]));
            }
        }
        i = i + 1;
    }
    if n > start {
        let piece: String = text.as_str().substring_char(start, n).to_owned();
        let ghost pre = tok_views(result@);
        result.push(piece);
        proof {
            assert(tok_views(result@) =~= pre + seq![text@.subrange(start as int, n as int)]);
        }
    } else {
        proof {
            assert(text@.subrange(start as int, n as int) =~= Seq::<char>::empty());
        }
    }
    proof {
        assert(tok_views(result@) =~= spec_tokens_from(text@, 0, Seq::empty()));
    }
    result
}

} // verus!
