//! A law of the scanner: the tokens of a text, written out with single
//! spaces between them, scan to the same tokens again. It holds of texts
//! in which no escape changes a token, so of every text without a
//! backslash.

use crate::src::{lemma_fetch_shortens, scan, split_spaces, tokens_of, trimmed_words, words};
use crate::strings::{fetch_raw, gather, literal_quote, unescape};
use crate::text::{free_of, is_whitespace, replace_pair, trim, trim_end, trim_start};
use vstd::prelude::*;

verus! {

/// The texts `parts` one after the other, with one space between each
/// two.
pub open spec fn join_words(parts: Seq<Seq<char>>) -> Seq<char>
    decreases parts.len(),
{
    if parts.len() == 0 {
        Seq::empty()
    } else if parts.len() == 1 {
        parts[0]
    } else {
        join_words(parts.drop_last()) + seq![' '] + parts.last()
    }
}

/// Whether each of the texts `parts` is free of the character `c`.
pub open spec fn all_free_of(parts: Seq<Seq<char>>, c: char) -> bool {
    forall|i: int| 0 <= i < parts.len() ==> free_of(#[trigger] parts[i], c)
}

/// Whether `w` is a word as the scanner cuts them: not empty, without a
/// space, and without white space at its ends.
pub open spec fn clean_word(w: Seq<char>) -> bool {
    &&& w.len() > 0
    &&& free_of(w, ' ')
    &&& !is_whitespace(w[0])
    &&& !is_whitespace(w.last())
}

/// Whether each of the texts `parts` is a clean word.
pub open spec fn all_clean(parts: Seq<Seq<char>>) -> bool {
    forall|i: int| 0 <= i < parts.len() ==> clean_word(#[trigger] parts[i])
}

// ---------------------------------------------------------------------
// Pieces and words
// ---------------------------------------------------------------------

proof fn lemma_split_pieces(s: Seq<char>, c: char)
    ensures
        split_spaces(s).len() >= 1,
        all_free_of(split_spaces(s), ' '),
        free_of(s, c) ==> all_free_of(split_spaces(s), c),
    decreases s.len(),
{
    if s.len() > 0 {
        let head = s.drop_last();
        lemma_split_pieces(head, c);
        if free_of(s, c) {
            assert(free_of(head, c));
        }
        assert(all_free_of(split_spaces(s), ' '));
        assert(free_of(s, c) ==> all_free_of(split_spaces(s), c));
    }
}

proof fn lemma_trim_start_keeps(s: Seq<char>, c: char)
    ensures
        free_of(s, c) ==> free_of(trim_start(s), c),
        trim_start(s).len() > 0 ==> !is_whitespace(trim_start(s)[0]),
    decreases s.len(),
{
    if s.len() > 0 && is_whitespace(s[0]) {
        lemma_trim_start_keeps(s.drop_first(), c);
        if free_of(s, c) {
            assert(free_of(s.drop_first(), c));
        }
    }
}

proof fn lemma_trim_end_keeps(s: Seq<char>, c: char)
    ensures
        free_of(s, c) ==> free_of(trim_end(s), c),
        trim_end(s).len() > 0 ==> !is_whitespace(trim_end(s).last()) && trim_end(s)[0] == s[0],
    decreases s.len(),
{
    if s.len() > 0 && is_whitespace(s.last()) {
        lemma_trim_end_keeps(s.drop_last(), c);
        if free_of(s, c) {
            assert(free_of(s.drop_last(), c));
        }
    }
}

proof fn lemma_trim_keeps(s: Seq<char>, c: char)
    ensures
        free_of(s, c) ==> free_of(trim(s), c),
        trim(s).len() > 0 ==> !is_whitespace(trim(s)[0]) && !is_whitespace(trim(s).last()),
{
    lemma_trim_start_keeps(s, c);
    lemma_trim_end_keeps(trim_start(s), c);
}

proof fn lemma_trimmed_words_keep(pieces: Seq<Seq<char>>, c: char)
    requires
        all_free_of(pieces, ' '),
    ensures
        all_clean(trimmed_words(pieces)),
        all_free_of(pieces, c) ==> all_free_of(trimmed_words(pieces), c),
    decreases pieces.len(),
{
    if pieces.len() > 0 {
        let head = pieces.drop_last();
        assert(all_free_of(head, ' '));
        if all_free_of(pieces, c) {
            assert(all_free_of(head, c));
        }
        lemma_trimmed_words_keep(head, c);
        lemma_trim_keeps(pieces.last(), ' ');
        lemma_trim_keeps(pieces.last(), c);
        assert(all_clean(trimmed_words(pieces)));
        assert(all_free_of(pieces, c) ==> all_free_of(trimmed_words(pieces), c));
    }
}

/// The words of a text are clean, and free of every character that the
/// text is free of.
proof fn lemma_words_clean(text: Seq<char>, c: char)
    ensures
        all_clean(words(text)),
        free_of(text, c) ==> all_free_of(words(text), c),
{
    lemma_split_pieces(text, c);
    lemma_trimmed_words_keep(split_spaces(text), c);
}

proof fn lemma_split_append(s: Seq<char>, w: Seq<char>)
    requires
        free_of(w, ' '),
    ensures
        split_spaces(s + w) == split_spaces(s).drop_last().push(split_spaces(s).last() + w),
    decreases w.len(),
{
    lemma_split_pieces(s, ' ');
    if w.len() > 0 {
        let head = w.drop_last();
        assert(free_of(head, ' '));
        lemma_split_append(s, head);
        assert((s + w).drop_last() =~= s + head);
        assert(split_spaces(s + head).last().push(w.last()) =~= split_spaces(s).last() + w);
    }
}

proof fn lemma_split_join(parts: Seq<Seq<char>>)
    requires
        parts.len() >= 1,
        all_free_of(parts, ' '),
    ensures
        split_spaces(join_words(parts)) == parts,
    decreases parts.len(),
{
    if parts.len() == 1 {
        lemma_split_append(Seq::empty(), parts.last());
    } else {
        let head = parts.drop_last();
        assert(all_free_of(head, ' '));
        lemma_split_join(head);
        let spaced = join_words(head) + seq![' '];
        assert(spaced.drop_last() =~= join_words(head));
        lemma_split_append(spaced, parts.last());
    }
}

proof fn lemma_trimmed_clean(parts: Seq<Seq<char>>)
    requires
        all_clean(parts),
    ensures
        trimmed_words(parts) == parts,
    decreases parts.len(),
{
    if parts.len() > 0 {
        assert(all_clean(parts.drop_last()));
        lemma_trimmed_clean(parts.drop_last());
    }
}

/// Clean words written out with single spaces between them are the
/// words of what was written.
proof fn lemma_words_of_join(parts: Seq<Seq<char>>)
    requires
        all_clean(parts),
    ensures
        words(join_words(parts)) == parts,
{
    if parts.len() == 0 {
        let pieces = seq![Seq::<char>::empty()];
        assert(trimmed_words(pieces.drop_last()) =~= Seq::<Seq<char>>::empty());
    } else {
        assert(all_free_of(parts, ' '));
        lemma_split_join(parts);
        lemma_trimmed_clean(parts);
    }
}

// ---------------------------------------------------------------------
// Tokens
// ---------------------------------------------------------------------

/// The tokens that the words `parts` make up, as they stand before the
/// escapes of the literals are resolved.
pub open spec fn raw_tokens_of(parts: Seq<Seq<char>>) -> Seq<Seq<char>>
    decreases parts.len(),
{
    if parts.len() == 0 {
        Seq::empty()
    } else {
        proof {
            lemma_fetch_shortens(parts[0], parts.skip(1));
        }
        seq![fetch_raw(parts[0], parts.skip(1)).0] + raw_tokens_of(
            fetch_raw(parts[0], parts.skip(1)).1,
        )
    }
}

/// Whether a text is well formed: it scans, and no escape changes one
/// of its tokens.
pub open spec fn well_formed(text: Seq<char>) -> bool {
    scan(text) == Ok::<Seq<Seq<char>>, Seq<char>>(raw_tokens_of(words(text)))
}

proof fn lemma_join_front(first: Seq<char>, rest: Seq<Seq<char>>)
    ensures
        join_words(seq![first] + rest) == if rest.len() == 0 {
            first
        } else {
            first + seq![' '] + join_words(rest)
        },
    decreases rest.len(),
{
    if rest.len() > 0 {
        assert((seq![first] + rest).drop_last() =~= seq![first] + rest.drop_last());
        lemma_join_front(first, rest.drop_last());
    }
}

proof fn lemma_gather_join(acc: Seq<char>, rest: Seq<Seq<char>>, quote: char)
    ensures
        join_words(seq![gather(acc, rest, quote).0] + gather(acc, rest, quote).1) == join_words(
            seq![acc] + rest,
        ),
    decreases rest.len(),
{
    if rest.len() > 0 {
        let joined = acc + seq![' '] + rest[0];
        let tail = rest.skip(1);
        lemma_join_front(acc, rest);
        lemma_join_front(rest[0], tail);
        lemma_join_front(joined, tail);
        assert(seq![rest[0]] + tail =~= rest);
        lemma_gather_join(joined, tail, quote);
    }
}

/// The tokens of words, taken before their escapes are resolved and
/// written out with single spaces between them, read as the words
/// written out in the same way.
proof fn lemma_raw_tokens_join(parts: Seq<Seq<char>>)
    ensures
        join_words(raw_tokens_of(parts)) == join_words(parts),
        (raw_tokens_of(parts).len() == 0) == (parts.len() == 0),
    decreases parts.len(),
{
    if parts.len() > 0 {
        let value = parts[0];
        let rest = parts.skip(1);
        let token = fetch_raw(value, rest).0;
        let left = fetch_raw(value, rest).1;
        lemma_fetch_shortens(value, rest);
        if let Some(quote) = literal_quote(value) {
            lemma_gather_join(value, rest, quote);
        }
        lemma_raw_tokens_join(left);
        lemma_join_front(token, raw_tokens_of(left));
        lemma_join_front(token, left);
        assert(seq![value] + rest =~= parts);
    }
}

/// The scanner reads its own output: the tokens of a well-formed text,
/// written out with single spaces between them, scan to the same
/// tokens. Spaces inside a literal were single before, as the literal
/// was put together from words.
pub proof fn lemma_rescan(text: Seq<char>)
    requires
        well_formed(text),
    ensures
        scan(join_words(scan(text)->Ok_0)) == scan(text),
{
    let parts = words(text);
    lemma_words_clean(text, ' ');
    lemma_raw_tokens_join(parts);
    lemma_words_of_join(parts);
}

// ---------------------------------------------------------------------
// Texts without a backslash
// ---------------------------------------------------------------------

proof fn lemma_replace_absent(s: Seq<char>, a: char, b: char, to: char)
    requires
        free_of(s, a),
    ensures
        replace_pair(s, a, b, to) == s,
    decreases s.len(),
{
    if s.len() > 0 {
        assert(free_of(s.skip(1), a));
        lemma_replace_absent(s.skip(1), a, b, to);
    }
}

/// A text without a backslash holds no escape to resolve.
proof fn lemma_unescape_plain(s: Seq<char>)
    requires
        free_of(s, '\\'),
    ensures
        unescape(s) == s,
{
    lemma_replace_absent(s, '\\', 'n', '\n');
    lemma_replace_absent(s, '\\', 't', '\t');
    lemma_replace_absent(s, '\\', '"', '"');
    lemma_replace_absent(s, '\\', '\'', '\'');
    lemma_replace_absent(s, '\\', '\\', '\\');
}

proof fn lemma_gather_plain(acc: Seq<char>, rest: Seq<Seq<char>>, quote: char)
    requires
        free_of(acc, '\\'),
        all_free_of(rest, '\\'),
    ensures
        free_of(gather(acc, rest, quote).0, '\\'),
        all_free_of(gather(acc, rest, quote).1, '\\'),
    decreases rest.len(),
{
    if rest.len() > 0 {
        assert(all_free_of(rest.skip(1), '\\'));
        lemma_gather_plain(acc + seq![' '] + rest[0], rest.skip(1), quote);
    }
}

proof fn lemma_tokens_plain(parts: Seq<Seq<char>>)
    requires
        all_free_of(parts, '\\'),
        tokens_of(parts) is Ok,
    ensures
        tokens_of(parts) == Ok::<Seq<Seq<char>>, Seq<char>>(raw_tokens_of(parts)),
    decreases parts.len(),
{
    if parts.len() > 0 {
        let value = parts[0];
        let rest = parts.skip(1);
        assert(all_free_of(rest, '\\'));
        lemma_fetch_shortens(value, rest);
        if let Some(quote) = literal_quote(value) {
            lemma_gather_plain(value, rest, quote);
            lemma_unescape_plain(fetch_raw(value, rest).0);
        }
        lemma_tokens_plain(fetch_raw(value, rest).1);
    }
}

/// A text without a backslash is well formed where it scans: it holds
/// no escape at all.
pub proof fn lemma_plain_text_well_formed(text: Seq<char>)
    requires
        free_of(text, '\\'),
        scan(text) is Ok,
    ensures
        well_formed(text),
{
    lemma_words_clean(text, '\\');
    lemma_tokens_plain(words(text));
}

} // verus!
