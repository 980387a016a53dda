//! Stream-level laws of the scanner.
//!
//! These proof functions state, over the mathematical scanner of the lexer
//! module, what holds of every input text: scanning is a pure function of the
//! text and the position; once the end of the text is reached every further
//! token is `Eof`; each step consumes a whitespace gap followed by exactly one
//! non-whitespace lexeme, maximal for identifiers and numbers and a single
//! character for `Illegal`; the consumed lexemes together reconstruct the
//! non-whitespace content of the text; and the token stream depends only on
//! the text's maximal non-whitespace runs, not on the whitespace between them.

use vstd::prelude::*;

use crate::lexer::digit_run_end;
use crate::lexer::letter_run_end;
use crate::lexer::scan_at;
use crate::lexer::skip_ws_from;
use crate::lexer::spec_is_digit;
use crate::lexer::spec_is_letter;
use crate::lexer::spec_is_whitespace;
use crate::lexer::spec_lookup_ident;
use crate::lexer::spec_next_token;
use crate::token::TokenView;

verus! {

/// Bounds and character content of a skipped whitespace gap: it covers
/// exactly the whitespace characters from `i` to the first non-whitespace
/// position (or the end of the text).
pub proof fn lemma_skip_ws_from(s: Seq<char>, i: int)
    requires
        0 <= i <= s.len(),
    ensures
        i <= skip_ws_from(s, i) <= s.len(),
        forall|m: int| i <= m < skip_ws_from(s, i) ==> spec_is_whitespace(s[m]),
        skip_ws_from(s, i) < s.len() ==> !spec_is_whitespace(s[skip_ws_from(s, i)]),
    decreases s.len() - i,
{
    if i < s.len() && spec_is_whitespace(s[i]) {
        lemma_skip_ws_from(s, i + 1);
    }
}

/// The maximal letter run starting at `i`: it holds letters only, it is
/// nonempty when a letter starts it, and it cannot be extended.
pub proof fn lemma_letter_run_end(s: Seq<char>, i: int)
    requires
        0 <= i <= s.len(),
    ensures
        i <= letter_run_end(s, i) <= s.len(),
        forall|m: int| i <= m < letter_run_end(s, i) ==> spec_is_letter(s[m]),
        letter_run_end(s, i) < s.len() ==> !spec_is_letter(s[letter_run_end(s, i)]),
        i < s.len() && spec_is_letter(s[i]) ==> letter_run_end(s, i) > i,
    decreases s.len() - i,
{
    if i < s.len() && spec_is_letter(s[i]) {
        lemma_letter_run_end(s, i + 1);
    }
}

/// The maximal digit run starting at `i`: it holds digits only, it is
/// nonempty when a digit starts it, and it cannot be extended.
pub proof fn lemma_digit_run_end(s: Seq<char>, i: int)
    requires
        0 <= i <= s.len(),
    ensures
        i <= digit_run_end(s, i) <= s.len(),
        forall|m: int| i <= m < digit_run_end(s, i) ==> spec_is_digit(s[m]),
        digit_run_end(s, i) < s.len() ==> !spec_is_digit(s[digit_run_end(s, i)]),
        i < s.len() && spec_is_digit(s[i]) ==> digit_run_end(s, i) > i,
    decreases s.len() - i,
{
    if i < s.len() && spec_is_digit(s[i]) {
        lemma_digit_run_end(s, i + 1);
    }
}

/// What one scanning step consumes: a whitespace gap, then one lexeme of
/// non-whitespace characters. The step makes progress unless it reports the
/// end of the text; an identifier or integer lexeme is maximal (the next
/// character, if any, cannot extend it) and is carried verbatim as the
/// token's payload; an `Illegal` token consumes exactly one character.
pub proof fn lemma_scan_step(s: Seq<char>, i: int)
    requires
        0 <= i <= s.len(),
    ensures
        i <= skip_ws_from(s, i) <= spec_next_token(s, i).1 <= s.len(),
        forall|m: int| i <= m < skip_ws_from(s, i) ==> spec_is_whitespace(s[m]),
        forall|m: int|
            skip_ws_from(s, i) <= m < spec_next_token(s, i).1 ==> !spec_is_whitespace(s[m]),
        (spec_next_token(s, i).0 == TokenView::Eof <==> skip_ws_from(s, i) == s.len()),
        spec_next_token(s, i).0 == TokenView::Eof ==> spec_next_token(s, i).1 == skip_ws_from(
            s,
            i,
        ),
        spec_next_token(s, i).0 != TokenView::Eof ==> spec_next_token(s, i).1 > skip_ws_from(
            s,
            i,
        ),
        spec_next_token(s, i).0 matches TokenView::Ident(w) ==> w == s.subrange(
            skip_ws_from(s, i),
            spec_next_token(s, i).1,
        ),
        spec_next_token(s, i).0 is Ident || spec_next_token(s, i).0 is Function
            || spec_next_token(s, i).0 is Let || spec_next_token(s, i).0 is Return
            || spec_next_token(s, i).0 is If || spec_next_token(s, i).0 is Else
            || spec_next_token(s, i).0 is True || spec_next_token(s, i).0 is False ==> (
        spec_next_token(s, i).1 == s.len() || !spec_is_letter(s[spec_next_token(s, i).1])),
        spec_next_token(s, i).0 matches TokenView::Int(w) ==> w == s.subrange(
            skip_ws_from(s, i),
            spec_next_token(s, i).1,
        ) && (spec_next_token(s, i).1 == s.len() || !spec_is_digit(s[spec_next_token(s, i).1])),
        spec_next_token(s, i).0 == TokenView::Illegal ==> spec_next_token(s, i).1 == skip_ws_from(
            s,
            i,
        ) + 1,
{
    lemma_skip_ws_from(s, i);
    let j = skip_ws_from(s, i);
    if j < s.len() {
        let c = s[j];
        if spec_is_letter(c) {
            lemma_letter_run_end(s, j);
        } else if spec_is_digit(c) {
            lemma_digit_run_end(s, j);
        }
    }
}

/// Keyword recognition requires an exact, full-lexeme match: each keyword
/// token arises from exactly its own spelling, and every other word becomes
/// an identifier carrying that word unchanged — never a keyword by prefix.
pub proof fn lemma_keyword_exact_match(w: Seq<char>)
    ensures
        spec_lookup_ident(w) == TokenView::Function <==> w == "fn"@,
        spec_lookup_ident(w) == TokenView::Let <==> w == "let"@,
        spec_lookup_ident(w) == TokenView::Return <==> w == "return"@,
        spec_lookup_ident(w) == TokenView::If <==> w == "if"@,
        spec_lookup_ident(w) == TokenView::Else <==> w == "else"@,
        spec_lookup_ident(w) == TokenView::True <==> w == "true"@,
        spec_lookup_ident(w) == TokenView::False <==> w == "false"@,
        spec_lookup_ident(w) matches TokenView::Ident(v) ==> v == w,
{
    reveal_strlit("fn");
    reveal_strlit("let");
    reveal_strlit("return");
    reveal_strlit("if");
    reveal_strlit("else");
    reveal_strlit("true");
    reveal_strlit("false");
    // The keywords are pairwise distinct: all lengths differ except for the
    // two pairs distinguished by their first character.
    assert("fn"@.len() == 2 && "if"@.len() == 2);
    assert("let"@.len() == 3);
    assert("else"@.len() == 4 && "true"@.len() == 4);
    assert("false"@.len() == 5);
    assert("return"@.len() == 6);
    assert("fn"@[0] == 'f' && "if"@[0] == 'i');
    assert("else"@[0] == 'e' && "true"@[0] == 't');
}

/// Scanning is deterministic: the next token and the position after it are
/// a pure function of the text and the position scanned from. Together with
/// the exact contract of `Lexer::next_token`, fresh scans of the same text
/// always produce the same token sequence.
pub proof fn lemma_next_token_deterministic(s1: Seq<char>, i1: int, s2: Seq<char>, i2: int)
    requires
        s1 == s2,
        i1 == i2,
    ensures
        spec_next_token(s1, i1) == spec_next_token(s2, i2),
{
}

/// Once a scan reports the end of the text it stays there: the reported
/// position is the end of the text, and scanning from it yields `Eof` at
/// that same position, on this and every later call.
pub proof fn lemma_end_of_input_idempotent(s: Seq<char>, i: int)
    requires
        0 <= i <= s.len(),
        spec_next_token(s, i).0 == TokenView::Eof,
    ensures
        spec_next_token(s, i).1 == s.len(),
        spec_next_token(s, spec_next_token(s, i).1) == (TokenView::Eof, s.len() as int),
{
    lemma_scan_step(s, i);
}

/// The token stream of a text from a position: the tokens in left-to-right
/// order, closed by the single `Eof` that every further call repeats.
pub open spec fn spec_tokens_from(s: Seq<char>, i: int) -> Seq<TokenView>
    decreases s.len() - i,
        when 0 <= i <= s.len()
        via spec_tokens_from_decreases
{
    if spec_next_token(s, i).0 == TokenView::Eof {
        seq![TokenView::Eof]
    } else {
        seq![spec_next_token(s, i).0] + spec_tokens_from(s, spec_next_token(s, i).1)
    }
}

#[via_fn]
proof fn spec_tokens_from_decreases(s: Seq<char>, i: int) {
    lemma_scan_step(s, i);
}

/// The concatenation of the lexemes consumed from position `i` onwards,
/// whitespace gaps left out.
pub open spec fn lexemes_from(s: Seq<char>, i: int) -> Seq<char>
    decreases s.len() - i,
        when 0 <= i <= s.len()
        via lexemes_from_decreases
{
    if spec_next_token(s, i).0 == TokenView::Eof {
        Seq::empty()
    } else {
        s.subrange(skip_ws_from(s, i), spec_next_token(s, i).1) + lexemes_from(
            s,
            spec_next_token(s, i).1,
        )
    }
}

#[via_fn]
proof fn lexemes_from_decreases(s: Seq<char>, i: int) {
    lemma_scan_step(s, i);
}

/// The non-whitespace content of a text, in order.
pub open spec fn non_whitespace_of(s: Seq<char>) -> Seq<char> {
    s.filter(|c: char| !spec_is_whitespace(c))
}

proof fn lemma_all_ws_filter_empty(s: Seq<char>)
    requires
        forall|m: int| 0 <= m < s.len() ==> spec_is_whitespace(s[m]),
    ensures
        non_whitespace_of(s) == Seq::<char>::empty(),
    decreases s.len(),
{
    reveal(Seq::filter);
    if s.len() == 0 {
        assert(non_whitespace_of(s) =~= Seq::<char>::empty());
    } else {
        lemma_all_ws_filter_empty(s.drop_last());
    }
}

proof fn lemma_all_non_ws_filter_identity(s: Seq<char>)
    requires
        forall|m: int| 0 <= m < s.len() ==> !spec_is_whitespace(s[m]),
    ensures
        non_whitespace_of(s) == s,
    decreases s.len(),
{
    reveal(Seq::filter);
    if s.len() == 0 {
        assert(non_whitespace_of(s) =~= s);
    } else {
        lemma_all_non_ws_filter_identity(s.drop_last());
        assert(non_whitespace_of(s) =~= s);
    }
}

proof fn lemma_non_ws_distributes(a: Seq<char>, b: Seq<char>)
    ensures
        non_whitespace_of(a + b) == non_whitespace_of(a) + non_whitespace_of(b),
    decreases b.len(),
{
    reveal(Seq::filter);
    if b.len() == 0 {
        assert(a + b =~= a);
        assert(non_whitespace_of(a) + non_whitespace_of(b) =~= non_whitespace_of(a));
    } else {
        lemma_non_ws_distributes(a, b.drop_last());
        assert((a + b).drop_last() =~= a + b.drop_last());
        if !spec_is_whitespace(b.last()) {
            assert(non_whitespace_of(a) + non_whitespace_of(b) =~= (non_whitespace_of(a)
                + non_whitespace_of(b.drop_last())).push(b.last()));
        }
    }
}

/// Total coverage, step by step: from any position, the concatenation of the
/// consumed lexemes is exactly the non-whitespace content of the rest of the
/// text — nothing but whitespace is skipped, nothing is consumed twice.
proof fn lemma_total_coverage_from(s: Seq<char>, i: int)
    requires
        0 <= i <= s.len(),
    ensures
        lexemes_from(s, i) == non_whitespace_of(s.subrange(i, s.len() as int)),
    decreases s.len() - i,
{
    lemma_scan_step(s, i);
    let j = skip_ws_from(s, i);
    let t = spec_next_token(s, i).0;
    let k = spec_next_token(s, i).1;
    let rest = s.subrange(i, s.len() as int);
    if t == TokenView::Eof {
        lemma_all_ws_filter_empty(rest);
    } else {
        lemma_total_coverage_from(s, k);
        let gap = s.subrange(i, j);
        let lexeme = s.subrange(j, k);
        let tail = s.subrange(k, s.len() as int);
        assert(rest =~= gap + lexeme + tail);
        lemma_non_ws_distributes(gap + lexeme, tail);
        lemma_non_ws_distributes(gap, lexeme);
        lemma_all_ws_filter_empty(gap);
        lemma_all_non_ws_filter_identity(lexeme);
        assert(non_whitespace_of(rest) =~= lexeme + lexemes_from(s, k));
    }
}

/// Total coverage: the concatenation of all consumed lexemes reconstructs
/// the non-whitespace content of the text exactly.
pub proof fn lemma_total_coverage(s: Seq<char>)
    ensures
        lexemes_from(s, 0) == non_whitespace_of(s),
{
    lemma_total_coverage_from(s, 0);
    assert(s.subrange(0, s.len() as int) =~= s);
}

/// The end of the maximal non-whitespace run starting at `i`.
pub open spec fn word_end(s: Seq<char>, i: int) -> int
    decreases s.len() - i,
{
    if 0 <= i < s.len() && !spec_is_whitespace(s[i]) {
        word_end(s, i + 1)
    } else {
        i
    }
}

/// The maximal non-whitespace run starting at `i`: bounds, content and
/// maximality, and progress when a non-whitespace character starts it.
pub proof fn lemma_word_end(s: Seq<char>, i: int)
    requires
        0 <= i <= s.len(),
    ensures
        i <= word_end(s, i) <= s.len(),
        forall|m: int| i <= m < word_end(s, i) ==> !spec_is_whitespace(s[m]),
        word_end(s, i) < s.len() ==> spec_is_whitespace(s[word_end(s, i)]),
        i < s.len() && !spec_is_whitespace(s[i]) ==> word_end(s, i) > i,
    decreases s.len() - i,
{
    if i < s.len() && !spec_is_whitespace(s[i]) {
        lemma_word_end(s, i + 1);
    }
}

proof fn lemma_word_end_interior(s: Seq<char>, k: int, e: int)
    requires
        0 <= k <= e <= s.len(),
        forall|m: int| k <= m < e ==> !spec_is_whitespace(s[m]),
        e == s.len() || spec_is_whitespace(s[e]),
    ensures
        word_end(s, k) == e,
    decreases e - k,
{
    if k < e {
        lemma_word_end_interior(s, k + 1, e);
    }
}

/// The maximal non-whitespace runs of a text from position `i` on: the
/// "words" that whitespace separates.
pub open spec fn words_from(s: Seq<char>, i: int) -> Seq<Seq<char>>
    decreases s.len() - i,
        when 0 <= i <= s.len()
        via words_from_decreases
{
    let j = skip_ws_from(s, i);
    if j == s.len() {
        Seq::empty()
    } else {
        seq![s.subrange(j, word_end(s, j))] + words_from(s, word_end(s, j))
    }
}

#[via_fn]
proof fn words_from_decreases(s: Seq<char>, i: int) {
    lemma_skip_ws_from(s, i);
    if skip_ws_from(s, i) < s.len() {
        lemma_word_end(s, skip_ws_from(s, i));
    }
}

proof fn lemma_letter_run_align(s1: Seq<char>, j1: int, e1: int, s2: Seq<char>, j2: int, e2: int)
    requires
        0 <= j1 <= e1 <= s1.len(),
        0 <= j2 <= e2 <= s2.len(),
        e1 - j1 == e2 - j2,
        forall|m: int| 0 <= m < e1 - j1 ==> #[trigger] s1[j1 + m] == s2[j2 + m],
        e1 == s1.len() || spec_is_whitespace(s1[e1]),
        e2 == s2.len() || spec_is_whitespace(s2[e2]),
    ensures
        letter_run_end(s1, j1) - j1 == letter_run_end(s2, j2) - j2,
        letter_run_end(s1, j1) <= e1,
    decreases e1 - j1,
{
    if j1 < e1 && spec_is_letter(s1[j1]) {
        assert(s1[j1] == s2[j2]) by {
            assert(s1[j1 + 0] == s2[j2 + 0]);
        }
        assert forall|m: int| 0 <= m < e1 - (j1 + 1) implies #[trigger] s1[(j1 + 1) + m] == s2[
            (j2 + 1) + m] by {
            assert(s1[j1 + (m + 1)] == s2[j2 + (m + 1)]);
        }
        lemma_letter_run_align(s1, j1 + 1, e1, s2, j2 + 1, e2);
    } else if j1 == e1 {
        // Both runs end immediately: the next character is whitespace or the
        // end of the text, neither of which is a letter.
    } else {
        assert(s1[j1] == s2[j2]) by {
            assert(s1[j1 + 0] == s2[j2 + 0]);
        }
    }
}

proof fn lemma_digit_run_align(s1: Seq<char>, j1: int, e1: int, s2: Seq<char>, j2: int, e2: int)
    requires
        0 <= j1 <= e1 <= s1.len(),
        0 <= j2 <= e2 <= s2.len(),
        e1 - j1 == e2 - j2,
        forall|m: int| 0 <= m < e1 - j1 ==> #[trigger] s1[j1 + m] == s2[j2 + m],
        e1 == s1.len() || spec_is_whitespace(s1[e1]),
        e2 == s2.len() || spec_is_whitespace(s2[e2]),
    ensures
        digit_run_end(s1, j1) - j1 == digit_run_end(s2, j2) - j2,
        digit_run_end(s1, j1) <= e1,
    decreases e1 - j1,
{
    if j1 < e1 && spec_is_digit(s1[j1]) {
        assert(s1[j1] == s2[j2]) by {
            assert(s1[j1 + 0] == s2[j2 + 0]);
        }
        assert forall|m: int| 0 <= m < e1 - (j1 + 1) implies #[trigger] s1[(j1 + 1) + m] == s2[
            (j2 + 1) + m] by {
            assert(s1[j1 + (m + 1)] == s2[j2 + (m + 1)]);
        }
        lemma_digit_run_align(s1, j1 + 1, e1, s2, j2 + 1, e2);
    } else if j1 == e1 {
        // Both runs end immediately.
    } else {
        assert(s1[j1] == s2[j2]) by {
            assert(s1[j1 + 0] == s2[j2 + 0]);
        }
    }
}

proof fn lemma_scan_align(s1: Seq<char>, j1: int, s2: Seq<char>, j2: int)
    requires
        0 <= j1 < s1.len(),
        0 <= j2 < s2.len(),
        !spec_is_whitespace(s1[j1]),
        !spec_is_whitespace(s2[j2]),
        word_end(s1, j1) - j1 == word_end(s2, j2) - j2,
        forall|m: int| 0 <= m < word_end(s1, j1) - j1 ==> #[trigger] s1[j1 + m] == s2[j2 + m],
    ensures
        scan_at(s1, j1).0 == scan_at(s2, j2).0,
        scan_at(s1, j1).1 - j1 == scan_at(s2, j2).1 - j2,
        scan_at(s1, j1).1 <= word_end(s1, j1),
{
    lemma_word_end(s1, j1);
    lemma_word_end(s2, j2);
    let e1 = word_end(s1, j1);
    let e2 = word_end(s2, j2);
    let w = e1 - j1;
    assert(s1[j1] == s2[j2]) by {
        assert(s1[j1 + 0] == s2[j2 + 0]);
    }
    let c = s1[j1];
    if c == '=' || c == '!' {
        if w >= 2 {
            assert(s1[j1 + 1] == s2[j2 + 1]);
        }
        // With a one-character word, the character after it is whitespace or
        // the end of the text in both scans, so neither lookahead sees '='.
    } else if spec_is_letter(c) {
        lemma_letter_run_align(s1, j1, e1, s2, j2, e2);
        let r1 = letter_run_end(s1, j1);
        let r2 = letter_run_end(s2, j2);
        lemma_letter_run_end(s1, j1);
        lemma_letter_run_end(s2, j2);
        assert forall|n: int| 0 <= n < r1 - j1 implies s1.subrange(j1, r1)[n] == s2.subrange(
            j2,
            r2,
        )[n] by {
            assert(s1[j1 + n] == s2[j2 + n]);
        }
        assert(s1.subrange(j1, r1) =~= s2.subrange(j2, r2));
    } else if spec_is_digit(c) {
        lemma_digit_run_align(s1, j1, e1, s2, j2, e2);
        let r1 = digit_run_end(s1, j1);
        let r2 = digit_run_end(s2, j2);
        lemma_digit_run_end(s1, j1);
        lemma_digit_run_end(s2, j2);
        assert forall|n: int| 0 <= n < r1 - j1 implies s1.subrange(j1, r1)[n] == s2.subrange(
            j2,
            r2,
        )[n] by {
            assert(s1[j1 + n] == s2[j2 + n]);
        }
        assert(s1.subrange(j1, r1) =~= s2.subrange(j2, r2));
    }
}

proof fn lemma_tokens_agree_from(s1: Seq<char>, i1: int, s2: Seq<char>, i2: int)
    requires
        0 <= i1 <= s1.len(),
        0 <= i2 <= s2.len(),
        words_from(s1, i1) == words_from(s2, i2),
    ensures
        spec_tokens_from(s1, i1) == spec_tokens_from(s2, i2),
    decreases s1.len() - i1,
{
    let j1 = skip_ws_from(s1, i1);
    let j2 = skip_ws_from(s2, i2);
    lemma_skip_ws_from(s1, i1);
    lemma_skip_ws_from(s2, i2);
    lemma_scan_step(s1, i1);
    lemma_scan_step(s2, i2);
    if j1 == s1.len() {
        assert(j2 == s2.len()) by {
            if j2 < s2.len() {
                assert(words_from(s2, i2).len() >= 1);
            }
        }
    } else {
        assert(j2 < s2.len()) by {
            if j2 == s2.len() {
                assert(words_from(s1, i1).len() >= 1);
            }
        }
        let e1 = word_end(s1, j1);
        let e2 = word_end(s2, j2);
        lemma_word_end(s1, j1);
        lemma_word_end(s2, j2);
        let w1 = s1.subrange(j1, e1);
        let w2 = s2.subrange(j2, e2);
        let t1 = words_from(s1, e1);
        let t2 = words_from(s2, e2);
        assert(words_from(s1, i1) == seq![w1] + t1);
        assert(words_from(s2, i2) == seq![w2] + t2);
        assert(w1 == w2) by {
            assert((seq![w1] + t1)[0] == w1);
            assert((seq![w2] + t2)[0] == w2);
        }
        assert(t1 == t2) by {
            assert(t1.len() == t2.len());
            assert forall|n: int| 0 <= n < t1.len() implies t1[n] == t2[n] by {
                assert(t1[n] == (seq![w1] + t1)[n + 1]);
                assert(t2[n] == (seq![w2] + t2)[n + 1]);
            }
            assert(t1 =~= t2);
        }
        assert(w1.len() == e1 - j1);
        assert(w2.len() == e2 - j2);
        assert(e1 - j1 == e2 - j2);
        assert forall|m: int| 0 <= m < e1 - j1 implies #[trigger] s1[j1 + m] == s2[j2 + m] by {
            assert(w1[m] == s1[j1 + m]);
            assert(w2[m] == s2[j2 + m]);
            assert(w1[m] == w2[m]);
        }
        lemma_scan_align(s1, j1, s2, j2);
        let t = scan_at(s1, j1).0;
        let k1 = scan_at(s1, j1).1;
        let k2 = scan_at(s2, j2).1;
        assert(spec_next_token(s1, i1) == scan_at(s1, j1));
        assert(spec_next_token(s2, i2) == scan_at(s2, j2));
        if k1 == e1 {
            assert(words_from(s1, k1) == words_from(s2, k2));
        } else {
            // The step stopped inside the word: the rest of the word is the
            // first remaining word on both sides, followed by the same tails.
            assert(!spec_is_whitespace(s1[k1]));
            assert(!spec_is_whitespace(s2[k2]));
            assert(skip_ws_from(s1, k1) == k1);
            assert(skip_ws_from(s2, k2) == k2);
            lemma_word_end_interior(s1, k1, e1);
            lemma_word_end_interior(s2, k2, e2);
            assert forall|n: int| 0 <= n < e1 - k1 implies s1.subrange(k1, e1)[n] == s2.subrange(
                k2,
                e2,
            )[n] by {
                let m = (k1 - j1) + n;
                assert(s1[j1 + m] == s2[j2 + m]);
                assert(j1 + m == k1 + n);
                assert(j2 + m == k2 + n);
            }
            assert(s1.subrange(k1, e1) =~= s2.subrange(k2, e2));
            assert(words_from(s1, k1) == words_from(s2, k2));
        }
        lemma_tokens_agree_from(s1, k1, s2, k2);
    }
}

/// Whitespace insensitivity: two texts with the same maximal non-whitespace
/// runs — texts differing only in the amount and kind of whitespace between
/// them — produce identical token streams.
pub proof fn lemma_whitespace_insensitive(s1: Seq<char>, s2: Seq<char>)
    requires
        words_from(s1, 0) == words_from(s2, 0),
    ensures
        spec_tokens_from(s1, 0) == spec_tokens_from(s2, 0),
{
    lemma_tokens_agree_from(s1, 0, s2, 0);
}

} // verus!
