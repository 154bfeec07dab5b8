//! Character-level helpers: Unicode whitespace, trimming, whitespace-delimited
//! tokens and character search, over sequences of characters.
//!
//! The specifications speak of `Seq<char>`, the view of a string. The
//! executable functions work on the characters of a string collected into a
//! vector, and return positions in it.

use vstd::prelude::*;
use vstd::std_specs::iter::IteratorSpec;

verus! {

/// True for the code points that carry the Unicode `White_Space` property.
pub open spec fn is_whitespace(c: char) -> bool {
    let code = c as u32;
    ||| 0x09 <= code <= 0x0D
    ||| code == 0x20
    ||| code == 0x85
    ||| code == 0xA0
    ||| code == 0x1680
    ||| 0x2000 <= code <= 0x200A
    ||| code == 0x2028
    ||| code == 0x2029
    ||| code == 0x202F
    ||| code == 0x205F
    ||| code == 0x3000
}

/// `s` without its leading whitespace.
pub open spec fn trim_start(s: Seq<char>) -> Seq<char>
    decreases s.len(),
{
    if s.len() > 0 && is_whitespace(s.first()) {
        trim_start(s.drop_first())
    } else {
        s
    }
}

/// `s` without its trailing whitespace.
pub open spec fn trim_end(s: Seq<char>) -> Seq<char>
    decreases s.len(),
{
    if s.len() > 0 && is_whitespace(s.last()) {
        trim_end(s.drop_last())
    } else {
        s
    }
}

/// `s` without its leading and trailing whitespace.
pub open spec fn trim(s: Seq<char>) -> Seq<char> {
    trim_end(trim_start(s))
}

/// Neither the first nor the last character of `s` is whitespace.
pub open spec fn is_trimmed(s: Seq<char>) -> bool {
    s.len() > 0 ==> !is_whitespace(s.first()) && !is_whitespace(s.last())
}

/// Number of characters at the start of `s` that are not whitespace.
pub open spec fn token_len(s: Seq<char>) -> nat
    decreases s.len(),
{
    if s.len() > 0 && !is_whitespace(s.first()) {
        1 + token_len(s.drop_first())
    } else {
        0
    }
}

/// The maximal runs of non-whitespace characters of `s`, in order.
pub open spec fn tokens(s: Seq<char>) -> Seq<Seq<char>>
    decreases s.len(),
    via tokens_decreases
{
    let rest = trim_start(s);
    if rest.len() == 0 {
        Seq::empty()
    } else {
        seq![rest.take(token_len(rest) as int)] + tokens(rest.skip(token_len(rest) as int))
    }
}

#[via_fn]
proof fn tokens_decreases(s: Seq<char>) {
    lemma_trim_start_shape(s);
    lemma_token_len_shape(trim_start(s));
}

/// What is left after trimming the start is no longer than `s` and does not
/// begin with whitespace.
pub proof fn lemma_trim_start_shape(s: Seq<char>)
    ensures
        trim_start(s).len() <= s.len(),
        trim_start(s).len() > 0 ==> !is_whitespace(trim_start(s).first()),
    decreases s.len(),
{
    if s.len() > 0 && is_whitespace(s.first()) {
        lemma_trim_start_shape(s.drop_first());
    }
}

/// What is left after trimming the end is a prefix of `s` and does not end
/// with whitespace.
pub proof fn lemma_trim_end_shape(s: Seq<char>)
    ensures
        trim_end(s).len() <= s.len(),
        trim_end(s) == s.take(trim_end(s).len() as int),
        trim_end(s).len() > 0 ==> !is_whitespace(trim_end(s).last()),
    decreases s.len(),
{
    if s.len() > 0 && is_whitespace(s.last()) {
        let rest = s.drop_last();
        lemma_trim_end_shape(rest);
        assert(rest.take(trim_end(rest).len() as int) =~= s.take(trim_end(rest).len() as int));
    } else {
        assert(s.take(s.len() as int) =~= s);
    }
}

/// A trimmed sequence neither starts nor ends with whitespace.
pub proof fn lemma_trim_is_trimmed(s: Seq<char>)
    ensures
        is_trimmed(trim(s)),
{
    lemma_trim_start_shape(s);
    lemma_trim_end_shape(trim_start(s));
}

/// The token at the start of `s` lies within `s`, holds no whitespace, and
/// ends where `s` ends or before a whitespace character.
pub proof fn lemma_token_len_shape(s: Seq<char>)
    ensures
        token_len(s) <= s.len(),
        forall|i: int| 0 <= i < token_len(s) ==> !is_whitespace(#[trigger] s[i]),
        token_len(s) < s.len() ==> is_whitespace(s[token_len(s) as int]),
    decreases s.len(),
{
    if s.len() > 0 && !is_whitespace(s.first()) {
        let rest = s.drop_first();
        lemma_token_len_shape(rest);
        assert forall|i: int| 0 <= i < token_len(s) implies !is_whitespace(#[trigger] s[i]) by {
            if i > 0 {
                assert(s[i] == rest[i - 1]);
            }
        }
        if token_len(s) < s.len() {
            assert(s[token_len(s) as int] == rest[token_len(rest) as int]);
        }
    }
}

/// Trimming the start drops exactly the first `n` characters, where `n` is
/// the position of the first character that is not whitespace.
pub proof fn lemma_trim_start_is_skip(s: Seq<char>, n: int)
    requires
        0 <= n <= s.len(),
        forall|i: int| 0 <= i < n ==> is_whitespace(#[trigger] s[i]),
        n < s.len() ==> !is_whitespace(s[n]),
    ensures
        trim_start(s) == s.skip(n),
    decreases n,
{
    if n == 0 {
        assert(s.skip(0) =~= s);
    } else {
        let rest = s.drop_first();
        assert(is_whitespace(s[0]));
        assert forall|i: int| 0 <= i < n - 1 implies is_whitespace(#[trigger] rest[i]) by {
            assert(rest[i] == s[i + 1]);
        }
        if n < s.len() {
            assert(rest[n - 1] == s[n]);
        }
        lemma_trim_start_is_skip(rest, n - 1);
        assert(rest.skip(n - 1) =~= s.skip(n));
    }
}

/// Trimming the end keeps exactly the first `n` characters, where `n` is one
/// past the position of the last character that is not whitespace.
pub proof fn lemma_trim_end_is_take(s: Seq<char>, n: int)
    requires
        0 <= n <= s.len(),
        forall|i: int| n <= i < s.len() ==> is_whitespace(#[trigger] s[i]),
        n > 0 ==> !is_whitespace(s[n - 1]),
    ensures
        trim_end(s) == s.take(n),
    decreases s.len() - n,
{
    if n == s.len() {
        assert(s.take(n) =~= s);
    } else {
        let rest = s.drop_last();
        assert(is_whitespace(s[s.len() - 1]));
        assert forall|i: int| n <= i < rest.len() implies is_whitespace(#[trigger] rest[i]) by {
            assert(rest[i] == s[i]);
        }
        if n > 0 {
            assert(rest[n - 1] == s[n - 1]);
        }
        lemma_trim_end_is_take(rest, n);
        assert(rest.take(n) =~= s.take(n));
    }
}

/// The token at the start of `s` ends at the first whitespace character.
pub proof fn lemma_token_len_is(s: Seq<char>, n: int)
    requires
        0 <= n <= s.len(),
        forall|i: int| 0 <= i < n ==> !is_whitespace(#[trigger] s[i]),
        n < s.len() ==> is_whitespace(s[n]),
    ensures
        token_len(s) == n,
    decreases n,
{
    if n > 0 {
        let rest = s.drop_first();
        assert(!is_whitespace(s[0]));
        assert forall|i: int| 0 <= i < n - 1 implies !is_whitespace(#[trigger] rest[i]) by {
            assert(rest[i] == s[i + 1]);
        }
        if n < s.len() {
            assert(rest[n - 1] == s[n]);
        }
        lemma_token_len_is(rest, n - 1);
    }
}

/// A token: at least one character, none of them whitespace.
pub open spec fn is_token(s: Seq<char>) -> bool {
    &&& s.len() > 0
    &&& forall|i: int| 0 <= i < s.len() ==> !is_whitespace(#[trigger] s[i])
}

/// Whitespace before the first token does not change the tokens.
pub proof fn lemma_tokens_after_whitespace(s: Seq<char>, n: int)
    requires
        0 <= n <= s.len(),
        forall|i: int| 0 <= i < n ==> is_whitespace(#[trigger] s[i]),
    ensures
        tokens(s) == tokens(s.skip(n)),
    decreases n,
{
    if n == 0 {
        assert(s.skip(0) =~= s);
    } else {
        let rest = s.drop_first();
        assert(is_whitespace(s[0]));
        assert forall|i: int| 0 <= i < n - 1 implies is_whitespace(#[trigger] rest[i]) by {
            assert(rest[i] == s[i + 1]);
        }
        lemma_tokens_after_whitespace(rest, n - 1);
        assert(rest.skip(n - 1) =~= s.skip(n));
        assert(trim_start(s) == trim_start(rest));
        assert(tokens(s) == tokens(rest));
    }
}

/// A sequence that starts with a token of `n` characters has that token
/// first, and then the tokens of what follows it.
pub proof fn lemma_tokens_split_first(s: Seq<char>, n: int)
    requires
        0 < n <= s.len(),
        forall|i: int| 0 <= i < n ==> !is_whitespace(#[trigger] s[i]),
        n < s.len() ==> is_whitespace(s[n]),
    ensures
        tokens(s) == seq![s.take(n)] + tokens(s.skip(n)),
{
    assert(!is_whitespace(s[0]));
    lemma_token_len_is(s, n);
}

/// The tokens of two tokens with one whitespace character between them are
/// these two.
pub proof fn lemma_tokens_of_pair(first: Seq<char>, gap: char, second: Seq<char>)
    requires
        is_token(first),
        is_whitespace(gap),
        is_token(second),
    ensures
        tokens(first + seq![gap] + second) == seq![first, second],
{
    let s = first + seq![gap] + second;
    let tail = seq![gap] + second;
    assert forall|i: int| 0 <= i < first.len() implies !is_whitespace(#[trigger] s[i]) by {
        assert(s[i] == first[i]);
    }
    assert(s[first.len() as int] == gap);
    lemma_tokens_split_first(s, first.len() as int);
    assert(s.take(first.len() as int) =~= first);
    assert(s.skip(first.len() as int) =~= tail);
    assert(tail[0] == gap);
    lemma_tokens_after_whitespace(tail, 1);
    assert(tail.skip(1) =~= second);
    lemma_tokens_split_first(second, second.len() as int);
    assert(second.take(second.len() as int) =~= second);
    assert(second.skip(second.len() as int) =~= Seq::<char>::empty());
    assert(tokens(Seq::<char>::empty()) =~= Seq::<Seq<char>>::empty());
    assert(tokens(s) =~= seq![first, second]);
}

/// Decides whether `c` is Unicode whitespace.
pub fn is_whitespace_char(c: char) -> (white: bool)
    ensures
        white == is_whitespace(c),
{
    let code: u32 = c as u32;
    (0x09 <= code && code <= 0x0D) || code == 0x20 || code == 0x85 || code == 0xA0
        || code == 0x1680 || (0x2000 <= code && code <= 0x200A) || code == 0x2028
        || code == 0x2029 || code == 0x202F || code == 0x205F || code == 0x3000
}

/// The characters of `text`, in order.
pub fn chars_of(text: &str) -> (chars: Vec<char>)
    ensures
        chars@ == text@,
{
    broadcast use vstd::string::group_string_axioms;

    let mut chars: Vec<char> = Vec::new();
    let mut iter = text.chars();
    loop
        invariant
            chars@ + iter.remaining() == text@,
            iter.decrease() is Some,
        ensures
            chars@ == text@,
        decreases iter.decrease()->0,
    {
        match iter.next() {
            Some(c) => {
                chars.push(c);
            },
            None => {
                break;
            },
        }
    }
    chars
}

/// The first position in `from..to` that holds no whitespace, or `to` if
/// there is none: where `chars[from..to]` starts once trimmed at the start.
pub fn skip_whitespace(chars: &Vec<char>, from: usize, to: usize) -> (stop: usize)
    requires
        from <= to <= chars.len(),
    ensures
        from <= stop <= to,
        chars@.subrange(stop as int, to as int) == trim_start(
            chars@.subrange(from as int, to as int),
        ),
{
    let mut stop: usize = from;
    while stop < to && is_whitespace_char(chars[stop])
        invariant
            from <= stop <= to <= chars.len(),
            forall|i: int| from <= i < stop ==> is_whitespace(#[trigger] chars@[i]),
        decreases to - stop,
    {
        stop += 1;
    }
    proof {
        let s = chars@.subrange(from as int, to as int);
        lemma_trim_start_is_skip(s, stop - from);
        assert(s.skip(stop - from) =~= chars@.subrange(stop as int, to as int));
    }
    stop
}

/// One past the last position in `from..to` that holds no whitespace, or
/// `from` if there is none: where `chars[from..to]` ends once trimmed at the
/// end.
pub fn skip_whitespace_back(chars: &Vec<char>, from: usize, to: usize) -> (stop: usize)
    requires
        from <= to <= chars.len(),
    ensures
        from <= stop <= to,
        chars@.subrange(from as int, stop as int) == trim_end(
            chars@.subrange(from as int, to as int),
        ),
{
    let mut stop: usize = to;
    while stop > from && is_whitespace_char(chars[stop - 1])
        invariant
            from <= stop <= to <= chars.len(),
            forall|i: int| stop <= i < to ==> is_whitespace(#[trigger] chars@[i]),
        decreases stop - from,
    {
        stop -= 1;
    }
    proof {
        let s = chars@.subrange(from as int, to as int);
        lemma_trim_end_is_take(s, stop - from);
        assert(s.take(stop - from) =~= chars@.subrange(from as int, stop as int));
    }
    stop
}

/// The bounds of `chars[from..to]` once trimmed on both sides: it starts
/// where the leading whitespace ends, also where nothing else is left.
pub fn trim_bounds(chars: &Vec<char>, from: usize, to: usize) -> (bounds: (usize, usize))
    requires
        from <= to <= chars.len(),
    ensures
        from <= bounds.0 <= bounds.1 <= to,
        chars@.subrange(bounds.0 as int, to as int) == trim_start(
            chars@.subrange(from as int, to as int),
        ),
        chars@.subrange(bounds.0 as int, bounds.1 as int) == trim(
            chars@.subrange(from as int, to as int),
        ),
{
    let start = skip_whitespace(chars, from, to);
    let end = skip_whitespace_back(chars, start, to);
    (start, end)
}

/// The first whitespace position in `from..to`, or `to` if there is none:
/// where the token that starts at `from` ends.
pub fn skip_token(chars: &Vec<char>, from: usize, to: usize) -> (stop: usize)
    requires
        from <= to <= chars.len(),
    ensures
        from <= stop <= to,
        stop - from == token_len(chars@.subrange(from as int, to as int)),
{
    let mut stop: usize = from;
    while stop < to && !is_whitespace_char(chars[stop])
        invariant
            from <= stop <= to <= chars.len(),
            forall|i: int| from <= i < stop ==> !is_whitespace(#[trigger] chars@[i]),
        decreases to - stop,
    {
        stop += 1;
    }
    proof {
        lemma_token_len_is(chars@.subrange(from as int, to as int), stop - from);
    }
    stop
}

/// The bounds of the first token at or after `from`, if there is one: it
/// starts where the whitespace after `from` ends, and ends at the next
/// whitespace. The tokens from `from` on are this one and those that follow
/// it.
pub fn next_token(chars: &Vec<char>, from: usize) -> (bounds: Option<(usize, usize)>)
    requires
        from <= chars.len(),
    ensures
        match bounds {
            None => tokens(chars@.skip(from as int)) == Seq::<Seq<char>>::empty(),
            Some((start, end)) => {
                &&& from <= start < end <= chars.len()
                &&& chars@.skip(start as int) == trim_start(chars@.skip(from as int))
                &&& end - start == token_len(chars@.skip(start as int))
                &&& tokens(chars@.skip(from as int)) == seq![
                    chars@.subrange(start as int, end as int),
                ] + tokens(chars@.skip(end as int))
            },
        },
{
    let len = chars.len();
    let start = skip_whitespace(chars, from, len);
    if start == len {
        assert(chars@.subrange(start as int, len as int).len() == 0);
        None
    } else {
        let end = skip_token(chars, start, len);
        proof {
            let rest = chars@.subrange(start as int, len as int);
            lemma_trim_start_shape(chars@.skip(from as int));
            assert(rest.take(end - start) =~= chars@.subrange(start as int, end as int));
            assert(rest.skip(end - start) =~= chars@.skip(end as int));
        }
        Some((start, end))
    }
}

/// Whether `chars[from..to]` spells `word`.
pub fn range_equals(chars: &Vec<char>, from: usize, to: usize, word: &Vec<char>) -> (same: bool)
    requires
        from <= to <= chars.len(),
    ensures
        same == (chars@.subrange(from as int, to as int) == word@),
{
    if to - from != word.len() {
        return false;
    }
    let mut i: usize = 0;
    while i < word.len()
        invariant
            from <= to <= chars.len(),
            to - from == word.len(),
            i <= word.len(),
            forall|j: int| 0 <= j < i ==> chars@[from + j] == #[trigger] word@[j],
        decreases word.len() - i,
    {
        if chars[from + i] != word[i] {
            assert(chars@.subrange(from as int, to as int)[i as int] != word@[i as int]);
            return false;
        }
        i += 1;
    }
    assert(chars@.subrange(from as int, to as int) =~= word@);
    true
}

/// The position of the first `needle` in `chars`, if it occurs.
pub fn find_first(chars: &Vec<char>, needle: char) -> (found: Option<usize>)
    ensures
        match found {
            Some(i) => i < chars.len() && chars@.index_of_first(needle) == Some(i as int),
            None => chars@.index_of_first(needle) is None,
        },
{
    let mut i: usize = 0;
    while i < chars.len()
        invariant
            i <= chars.len(),
            forall|j: int| 0 <= j < i ==> chars@[j] != needle,
        decreases chars.len() - i,
    {
        if chars[i] == needle {
            proof {
                chars@.index_of_first_ensures(needle);
            }
            return Some(i);
        }
        i += 1;
    }
    proof {
        chars@.index_of_first_ensures(needle);
    }
    None
}

} // verus!
