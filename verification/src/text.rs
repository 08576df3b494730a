//! String-formatting helpers: capitalization, slugs, truncation, word
//! counts, and character cleanup, each pinned to a spec over the
//! character sequence.

use vstd::prelude::*;
use vstd::string::StringExecFns;
use crate::chars::{is_alnum, is_space, lower_of, upper_of};
use crate::chars::{alnum_char, chars_of, lowercase, push_char, space_char, upper_string};

verus! {

/// The input with its first character replaced by its uppercase mapping;
/// empty input stays empty.
pub open spec fn capitalized(s: Seq<char>) -> Seq<char> {
    if s.len() == 0 {
        Seq::empty()
    } else {
        upper_of(s[0]) + s.skip(1)
    }
}

/// The slug of a sequence: its maximal alphanumeric runs joined by
/// single dashes, separators elsewhere dropped. `first` says whether no
/// run has been emitted yet, so no dash is owed.
pub open spec fn slug_skip(s: Seq<char>, first: bool) -> Seq<char>
    decreases s.len(), 0int,
{
    if s.len() == 0 {
        Seq::empty()
    } else if !is_alnum(s[0]) {
        slug_skip(s.drop_first(), first)
    } else {
        (if first {
            Seq::empty()
        } else {
            seq!['-']
        }) + seq![s[0]] + slug_word(s.drop_first())
    }
}

/// The continuation of a slug inside an alphanumeric run.
pub open spec fn slug_word(s: Seq<char>) -> Seq<char>
    decreases s.len(), 1int,
{
    if s.len() == 0 {
        Seq::empty()
    } else if is_alnum(s[0]) {
        seq![s[0]] + slug_word(s.drop_first())
    } else {
        slug_skip(s, false)
    }
}

/// The slug of a whole sequence.
pub open spec fn slug_of(s: Seq<char>) -> Seq<char> {
    slug_skip(s, true)
}

/// The number of maximal runs of non-whitespace characters; `in_word`
/// says whether the previous character belonged to such a run.
pub open spec fn words_from(s: Seq<char>, in_word: bool) -> nat
    decreases s.len(),
{
    if s.len() == 0 {
        0
    } else if is_space(s[0]) {
        words_from(s.drop_first(), false)
    } else if in_word {
        words_from(s.drop_first(), true)
    } else {
        1 + words_from(s.drop_first(), true)
    }
}

/// The number of whitespace-separated words of a sequence.
pub open spec fn word_count_of(s: Seq<char>) -> nat {
    words_from(s, false)
}

/// Whether a character survives `remove_special_chars`.
pub open spec fn keepable(c: char) -> bool {
    is_alnum(c) || is_space(c)
}

/// The subsequence of characters that survive `remove_special_chars`.
pub open spec fn kept(s: Seq<char>) -> Seq<char>
    decreases s.len(),
{
    if s.len() == 0 {
        Seq::empty()
    } else if keepable(s[0]) {
        seq![s[0]] + kept(s.drop_first())
    } else {
        kept(s.drop_first())
    }
}

/// Uppercases the first character of a string, leaving the rest
/// unchanged; the empty string comes back empty.
pub fn capitalize_first(s: &str) -> (r: String)
    ensures
        r@ == capitalized(s@),
{
    let cs = chars_of(s);
    if cs.len() == 0 {
        return String::new();
    }
    let mut out = upper_string(cs[0]);
    let mut i: usize = 1;
    while i < cs.len()
        invariant
            cs@ == s@,
            1 <= i <= cs.len(),
            out@ == upper_of(cs@[0]) + cs@.subrange(1, i as int),
        decreases cs.len() - i,
    {
        proof {
            assert((upper_of(cs@[0]) + cs@.subrange(1, i as int)).push(cs@[i as int]) =~= upper_of(
                cs@[0],
            ) + cs@.subrange(1, i + 1));
        }
        push_char(&mut out, cs[i]);
        i = i + 1;
    }
    proof {
        assert(cs@.subrange(1, cs@.len() as int) =~= cs@.skip(1));
        assert(upper_of(cs@[0]) + cs@.subrange(1, 1) =~= upper_of(cs@[0]));
    }
    out
}

/// Lowercases the input, keeps its alphanumeric runs, and joins them
/// with single dashes, dropping leading, trailing, and repeated
/// separators.
pub fn slugify(input: &str) -> (r: String)
    ensures
        r@ == slug_of(lower_of(input@)),
{
    let lower = lowercase(input);
    let cs = chars_of(lower.as_str());
    let mut out = String::new();
    let mut started = false;
    let mut in_word = false;
    let mut i: usize = 0;
    proof {
        assert(cs@.skip(0) =~= cs@);
        assert(Seq::<char>::empty() + slug_skip(cs@, true) =~= slug_skip(cs@, true));
    }
    while i < cs.len()
        invariant
            cs@ == lower_of(input@),
            i <= cs.len(),
            !in_word ==> slug_of(cs@) == out@ + slug_skip(cs@.skip(i as int), !started),
            in_word ==> slug_of(cs@) == out@ + slug_word(cs@.skip(i as int)),
            in_word ==> started,
        decreases cs.len() - i,
    {
        let ghost rest = cs@.skip(i as int);
        proof {
            assert(rest.drop_first() =~= cs@.skip(i + 1));
            assert(rest[0] == cs@[i as int]);
        }
        if alnum_char(cs[i]) {
            if in_word {
                proof {
                    assert(out@ + (seq![rest[0]] + slug_word(rest.drop_first())) =~= out@.push(
                        rest[0],
                    ) + slug_word(rest.drop_first()));
                }
                push_char(&mut out, cs[i]);
            } else {
                if started {
                    proof {
                        assert(out@ + (seq!['-'] + seq![rest[0]] + slug_word(rest.drop_first()))
                            =~= out@.push('-').push(rest[0]) + slug_word(rest.drop_first()));
                    }
                    push_char(&mut out, '-');
                    push_char(&mut out, cs[i]);
                } else {
                    proof {
                        assert(out@ + (Seq::empty() + seq![rest[0]] + slug_word(rest.drop_first()))
                            =~= out@.push(rest[0]) + slug_word(rest.drop_first()));
                    }
                    push_char(&mut out, cs[i]);
                }
                started = true;
                in_word = true;
            }
        } else {
            proof {
                if in_word {
                    assert(slug_word(rest) == slug_skip(rest, false));
                    assert(slug_skip(rest, false) == slug_skip(rest.drop_first(), false));
                } else {
                    assert(slug_skip(rest, !started) == slug_skip(rest.drop_first(), !started));
                }
            }
            if in_word {
                in_word = false;
            }
        }
        i = i + 1;
    }
    proof {
        assert(cs@.skip(cs@.len() as int) =~= Seq::<char>::empty());
        assert(out@ + Seq::<char>::empty() =~= out@);
    }
    out
}

/// Returns the text unchanged when it fits in `max_length` characters;
/// otherwise keeps the first `max_length - 3` characters (none when
/// `max_length < 3`) and appends an ellipsis.
pub fn truncate_text(text: &str, max_length: usize) -> (r: String)
    ensures
        text@.len() <= max_length ==> r@ == text@,
        text@.len() > max_length ==> r@ == text@.take(
            if max_length >= 3 {
                (max_length - 3) as int
            } else {
                0
            },
        ) + seq!['.', '.', '.'],
{
    let cs = chars_of(text);
    if cs.len() <= max_length {
        return String::from_str(text);
    }
    let keep: usize = if max_length >= 3 {
        max_length - 3
    } else {
        0
    };
    let mut out = String::new();
    let mut i: usize = 0;
    while i < keep
        invariant
            cs@ == text@,
            keep < cs.len(),
            i <= keep,
            out@ =~= cs@.take(i as int),
        decreases keep - i,
    {
        push_char(&mut out, cs[i]);
        proof {
            assert(cs@.take(i as int).push(cs@[i as int]) =~= cs@.take(i + 1));
        }
        i = i + 1;
    }
    proof {
        reveal_strlit("...");
        assert(out@ + "..."@ =~= cs@.take(keep as int) + seq!['.', '.', '.']);
    }
    out.append("...");
    out
}

/// Counts the whitespace-separated words of the text.
pub fn word_count(text: &str) -> (r: usize)
    ensures
        r == word_count_of(text@),
{
    let cs = chars_of(text);
    let mut count: usize = 0;
    let mut in_word = false;
    let mut i: usize = 0;
    proof {
        assert(cs@.skip(0) =~= cs@);
    }
    while i < cs.len()
        invariant
            cs@ == text@,
            i <= cs.len(),
            count <= i,
            word_count_of(cs@) == count + words_from(cs@.skip(i as int), in_word),
        decreases cs.len() - i,
    {
        let ghost rest = cs@.skip(i as int);
        proof {
            assert(rest.drop_first() =~= cs@.skip(i + 1));
            assert(rest[0] == cs@[i as int]);
        }
        if space_char(cs[i]) {
            in_word = false;
        } else {
            if !in_word {
                count = count + 1;
                in_word = true;
            }
        }
        i = i + 1;
    }
    proof {
        assert(cs@.skip(cs@.len() as int) =~= Seq::<char>::empty());
    }
    count
}

/// Keeps only the alphanumeric and whitespace characters of the input.
pub fn remove_special_chars(input: &str) -> (r: String)
    ensures
        r@ == kept(input@),
{
    let cs = chars_of(input);
    let mut out = String::new();
    let mut i: usize = 0;
    proof {
        assert(cs@.skip(0) =~= cs@);
        assert(Seq::<char>::empty() + kept(cs@) =~= kept(cs@));
    }
    while i < cs.len()
        invariant
            cs@ == input@,
            i <= cs.len(),
            kept(cs@) == out@ + kept(cs@.skip(i as int)),
        decreases cs.len() - i,
    {
        let ghost rest = cs@.skip(i as int);
        proof {
            assert(rest.drop_first() =~= cs@.skip(i + 1));
            assert(rest[0] == cs@[i as int]);
        }
        if alnum_char(cs[i]) || space_char(cs[i]) {
            proof {
                assert(out@ + (seq![rest[0]] + kept(rest.drop_first())) =~= out@.push(rest[0])
                    + kept(rest.drop_first()));
            }
            push_char(&mut out, cs[i]);
        }
        i = i + 1;
    }
    proof {
        assert(cs@.skip(cs@.len() as int) =~= Seq::<char>::empty());
        assert(out@ + Seq::<char>::empty() =~= out@);
    }
    out
}

/// Capitalizes both names and joins them with a single space.
pub fn format_name(first: &str, last: &str) -> (r: String)
    ensures
        r@ == capitalized(first@) + seq![' '] + capitalized(last@),
{
    let mut out = capitalize_first(first);
    push_char(&mut out, ' ');
    let rest = capitalize_first(last);
    proof {
        assert(capitalized(first@).push(' ') + rest@ =~= capitalized(first@) + seq![' ']
            + capitalized(last@));
    }
    out.append(rest.as_str());
    out
}

} // verus!
