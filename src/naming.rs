//! Identifier case conversions used for generated names.

use vstd::prelude::*;
use vstd::string::*;

use crate::outside::{is_upper, is_uppercase, lower_of, lowercase, split_words, upper_of, uppercase, words_of};

verus! {

/// `s` repeated `count` times.
pub open spec fn repeated(s: Seq<char>, count: nat) -> Seq<char>
    decreases count,
{
    if count == 0 {
        Seq::empty()
    } else {
        repeated(s, (count - 1) as nat) + s
    }
}

/// Whether an underscore goes before position `i` of `s`: the character
/// there is uppercase and the one before it, if any, is not.
pub open spec fn starts_word(s: Seq<char>, i: int) -> bool {
    is_upper(s[i]) && (i == 0 || !is_upper(s[i - 1]))
}

/// `s` with an underscore before each run of uppercase characters.
pub open spec fn underscored(s: Seq<char>) -> Seq<char>
    decreases s.len(),
{
    if s.len() == 0 {
        Seq::empty()
    } else {
        let i = s.len() - 1;
        underscored(s.drop_last()) + (if starts_word(s, i) {
            seq!['_']
        } else {
            Seq::empty()
        }) + seq![s[i]]
    }
}

/// The constant-case form of an identifier: `myModule` becomes `MY_MODULE`.
pub open spec fn constant_case(s: Seq<char>) -> Seq<char> {
    upper_of(underscored(s))
}

/// `word` with its first character upper-cased (`capitalize`) or
/// lower-cased, the rest kept.
pub open spec fn recased_word(word: Seq<char>, capitalize: bool) -> Seq<char> {
    if word.len() == 0 {
        Seq::empty()
    } else if capitalize {
        upper_of(word.take(1)) + word.skip(1)
    } else {
        lower_of(word.take(1)) + word.skip(1)
    }
}

/// Whether some word of `words` is non-empty.
pub open spec fn has_word(words: Seq<Seq<char>>) -> bool
    decreases words.len(),
{
    words.len() > 0 && (has_word(words.drop_last()) || words.last().len() > 0)
}

/// The words joined with no separator, each word but the first capitalized,
/// the first one capitalized only when `pascal`.
pub open spec fn joined_words(words: Seq<Seq<char>>, pascal: bool) -> Seq<char>
    decreases words.len(),
{
    if words.len() == 0 {
        Seq::empty()
    } else {
        let prev = words.drop_last();
        joined_words(prev, pascal) + recased_word(words.last(), pascal || has_word(prev))
    }
}

/// `s` repeated `count` times, used for indentation.
pub fn repeat_string(s: &str, count: usize) -> (r: String)
    ensures
        r@ == repeated(s@, count as nat),
{
    let mut r = String::new();
    let mut i: usize = 0;
    while i < count
        invariant
            i <= count,
            r@ == repeated(s@, i as nat),
        decreases count - i,
    {
        r.append(s);
        i += 1;
    }
    r
}

/// Converts an identifier to constant case: an underscore goes before each
/// run of uppercase characters, then the whole is upper-cased
/// (`MyModule` gives `_MY_MODULE`).
pub fn to_constant_case(name: &str) -> (r: String)
    ensures
        r@ == constant_case(name@),
{
    let n = name.unicode_len();
    let mut result = String::new();
    let mut prev_is_uppercase = false;
    let mut i: usize = 0;
    while i < n
        invariant
            i <= n,
            n == name@.len(),
            result@ == underscored(name@.take(i as int)),
            prev_is_uppercase == (i > 0 && is_upper(name@[i - 1])),
        decreases n - i,
    {
        let c = name.get_char(i);
        let up = is_uppercase(c);
        let ghost before = result@;
        if up {
            if !prev_is_uppercase {
                result.append("_");
            }
            prev_is_uppercase = true;
        } else {
            prev_is_uppercase = false;
        }
        result.append(name.substring_char(i, i + 1));
        proof {
            reveal_strlit("_");
            let t = name@.take(i + 1);
            assert(t.drop_last() =~= name@.take(i as int));
            assert(starts_word(t, i as int) == starts_word(name@, i as int));
            assert(name@.subrange(i as int, i + 1) =~= seq![t[i as int]]);
            assert(result@ =~= underscored(t));
        }
        i += 1;
    }
    proof {
        assert(name@.take(n as int) =~= name@);
    }
    uppercase(result.as_str())
}

/// Joins the whitespace-separated words of `input` into one identifier:
/// every word after the first starts with an uppercase character, and the
/// first one does too when `is_pascal_case`, else it starts lowercase.
pub fn format_identifier(input: &str, is_pascal_case: bool) -> (r: String)
    ensures
        r@ == joined_words(words_of(input@), is_pascal_case),
{
    let words = split_words(input);
    let ghost ws = words_of(input@);
    let mut result = String::new();
    let mut capitalize_next = is_pascal_case;
    let mut i: usize = 0;
    while i < words.len()
        invariant
            i <= words@.len(),
            words@.map_values(|w: String| w@) == ws,
            result@ == joined_words(ws.take(i as int), is_pascal_case),
            capitalize_next == (is_pascal_case || has_word(ws.take(i as int))),
        decreases words@.len() - i,
    {
        let word = words[i].as_str();
        let len = word.unicode_len();
        proof {
            assert(ws[i as int] == word@);
        }
        if len > 0 {
            let first = word.substring_char(0, 1);
            let rest = word.substring_char(1, len);
            let head = if capitalize_next {
                uppercase(first)
            } else {
                lowercase(first)
            };
            result.append(head.as_str());
            result.append(rest);
            capitalize_next = true;
        }
        proof {
            let t = ws.take(i + 1);
            assert(t.drop_last() =~= ws.take(i as int));
            assert(word@.take(1) =~= word@.subrange(0, 1));
            assert(word@.skip(1) =~= word@.subrange(1, len as int));
            assert(result@ =~= joined_words(t, is_pascal_case));
        }
        i += 1;
    }
    proof {
        assert(ws.take(words@.len() as int) =~= ws);
    }
    result
}

} // verus!
