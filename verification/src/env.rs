//! The text of an environment file: lines of the form `KEY=value`.
//!
//! Blank lines and lines that start with `#` are comments. A value may
//! stand between a pair of double or of single quotes.

use crate::text::{
    chars_of, first_index, lemma_first_index_is, split, split_text, texts, trim, trim_text,
};
use vstd::prelude::*;
use vstd::string::*;

verus! {

/// The mark that may stand at the very start of a text file.
pub const BYTE_ORDER_MARK: char = '\u{FEFF}';

/// `value` trimmed, and without the pair of quotes around it if it stands
/// between two double or two single quotes.
pub open spec fn unquoted(value: Seq<char>) -> Seq<char> {
    let inner = trim(value);
    if inner.len() >= 2 && ((inner.first() == '"' && inner.last() == '"') || (inner.first()
        == '\'' && inner.last() == '\'')) {
        inner.subrange(1, inner.len() - 1)
    } else {
        inner
    }
}

/// The key and the value that a line assigns, if it assigns one: the line
/// is no comment, has an equals sign that is not its first character, and
/// has a key before it that is not blank.
pub open spec fn assignment(line: Seq<char>) -> Option<(Seq<char>, Seq<char>)> {
    let entry = trim(line);
    let sep = first_index(entry, '=');
    if entry.len() == 0 || entry.first() == '#' || sep <= 0 || sep >= entry.len() {
        None
    } else {
        let key = trim(entry.take(sep));
        if key.len() == 0 {
            None
        } else {
            Some((key, unquoted(entry.skip(sep + 1))))
        }
    }
}

/// `content` without a byte-order mark at its start.
pub open spec fn without_mark(content: Seq<char>) -> Seq<char> {
    if content.len() > 0 && content.first() == BYTE_ORDER_MARK {
        content.drop_first()
    } else {
        content
    }
}

/// The assignments of an environment file, in the order of its lines.
pub open spec fn assignments(content: Seq<char>) -> Seq<(Seq<char>, Seq<char>)> {
    split(without_mark(content), '\n').filter_map(|line: Seq<char>| assignment(line))
}

/// The texts of a list of pairs of strings.
pub open spec fn pairs_of(list: Seq<(String, String)>) -> Seq<(Seq<char>, Seq<char>)> {
    list.map_values(|pair: (String, String)| (pair.0@, pair.1@))
}

/// Trims `value` and takes off the pair of quotes around it, if any.
pub fn strip_quotes<'a>(value: &'a str) -> (r: &'a str)
    ensures
        r@ == unquoted(value@),
{
    let trimmed = trim_text(value);
    let chars = chars_of(trimmed);
    let n = chars.len();
    if n >= 2 && ((chars[0] == '"' && chars[n - 1] == '"') || (chars[0] == '\'' && chars[n - 1]
        == '\'')) {
        trimmed.substring_char(1, n - 1)
    } else {
        trimmed
    }
}

/// The key and the value that a line of an environment file assigns.
pub fn parse_env_line(line: &str) -> (r: Option<(String, String)>)
    ensures
        match r {
            Some(pair) => assignment(line@) == Some((pair.0@, pair.1@)),
            None => assignment(line@) is None,
        },
{
    let entry = trim_text(line);
    let chars = chars_of(entry);
    let n = chars.len();
    if n == 0 || chars[0] == '#' {
        return None;
    }
    let mut sep: usize = 0;
    while sep < n && chars[sep] != '='
        invariant
            sep <= n,
            n == chars@.len(),
            forall|j: int| 0 <= j < sep ==> chars@[j] != '=',
        decreases n - sep,
    {
        sep += 1;
    }
    proof {
        lemma_first_index_is(chars@, '=', sep as int);
    }
    if sep == 0 || sep == n {
        return None;
    }
    assert(entry@.take(sep as int) == entry@.subrange(0, sep as int));
    assert(entry@.skip(sep + 1) == entry@.subrange(sep + 1, n as int));
    let key = trim_text(entry.substring_char(0, sep));
    if chars_of(key).len() == 0 {
        return None;
    }
    let value = strip_quotes(entry.substring_char(sep + 1, n));
    Some((key.to_owned(), value.to_owned()))
}

/// The assignments of an environment file, in the order of its lines. It
/// is for the caller to pass over a key that the environment defines.
pub fn parse_env(content: &str) -> (r: Vec<(String, String)>)
    ensures
        pairs_of(r@) == assignments(content@),
{
    let chars = chars_of(content);
    let body = if chars.len() > 0 && chars[0] == BYTE_ORDER_MARK {
        assert(content@.drop_first() == content@.subrange(1, chars.len() as int));
        content.substring_char(1, chars.len())
    } else {
        content
    };
    let lines = split_text(body, '\n');
    let ghost all = texts(lines@);
    let ghost pick = |line: Seq<char>| assignment(line);
    let mut r: Vec<(String, String)> = Vec::new();
    let n = lines.len();
    let mut i: usize = 0;
    assert(all.take(0).filter_map(pick) == Seq::<(Seq<char>, Seq<char>)>::empty());
    while i < n
        invariant
            i <= n,
            n == lines@.len(),
            all == texts(lines@),
            pick == (|line: Seq<char>| assignment(line)),
            pairs_of(r@) == all.take(i as int).filter_map(pick),
        decreases n - i,
    {
        proof {
            all.lemma_filter_map_take_succ(pick, i as int);
            assert(all[i as int] == lines@[i as int]@);
        }
        match parse_env_line(lines[i]) {
            Some(pair) => {
                assert(pairs_of(r@.push(pair)) == pairs_of(r@).push((pair.0@, pair.1@)));
                r.push(pair);
            },
            None => {},
        }
        i += 1;
    }
    assert(all.take(n as int) == all);
    r
}

} // verus!
