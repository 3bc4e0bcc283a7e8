//! Text as sequences of characters: substring search, joining and splitting.
//!
//! Every contract here speaks of `Seq<char>`, the view of `str` and `String`.

use vstd::prelude::*;
use vstd::string::*;

verus! {

/// `needle` stands in `hay` at position `at`.
pub open spec fn occurs_at(hay: Seq<char>, needle: Seq<char>, at: int) -> bool {
    &&& 0 <= at
    &&& at + needle.len() <= hay.len()
    &&& hay.subrange(at, at + needle.len()) =~= needle
}

/// `needle` stands somewhere in `hay`.
pub open spec fn has_substring(hay: Seq<char>, needle: Seq<char>) -> bool {
    exists|at: int| occurs_at(hay, needle, at)
}

/// The first position at or after `start` at which `needle` stands in `hay`.
pub open spec fn find_from(hay: Seq<char>, needle: Seq<char>, start: int) -> Option<int>
    decreases hay.len() - start,
{
    if start < 0 || start + needle.len() > hay.len() {
        None
    } else if occurs_at(hay, needle, start) {
        Some(start)
    } else {
        find_from(hay, needle, start + 1)
    }
}

/// The parts joined into one text, with `sep` between neighbours.
pub open spec fn join_seq(parts: Seq<Seq<char>>, sep: Seq<char>) -> Seq<char>
    decreases parts.len(),
{
    if parts.len() == 0 {
        Seq::empty()
    } else if parts.len() == 1 {
        parts[0]
    } else {
        parts[0] + sep + join_seq(parts.drop_first(), sep)
    }
}

/// The text cut at each occurrence of `sep`, taken from the left. An empty
/// separator cuts nowhere.
pub open spec fn split_seq(text: Seq<char>, sep: Seq<char>) -> Seq<Seq<char>>
    decreases text.len(),
{
    match find_from(text, sep, 0) {
        Some(at) if sep.len() > 0 && 0 <= at && at + sep.len() <= text.len() => seq![
            text.subrange(0, at),
        ] + split_seq(text.subrange(at + sep.len(), text.len() as int), sep),
        _ => seq![text],
    }
}

/// `find_from` gives the least position from `start` on, and `None` only
/// where there is no occurrence from `start` on.
pub proof fn lemma_find_from(hay: Seq<char>, needle: Seq<char>, start: int)
    requires
        0 <= start,
    ensures
        match find_from(hay, needle, start) {
            Some(at) => {
                &&& start <= at
                &&& occurs_at(hay, needle, at)
                &&& forall|j: int| start <= j < at ==> !occurs_at(hay, needle, j)
            },
            None => forall|j: int| start <= j ==> !occurs_at(hay, needle, j),
        },
    decreases hay.len() - start,
{
    if start + needle.len() > hay.len() {
    } else if occurs_at(hay, needle, start) {
    } else {
        lemma_find_from(hay, needle, start + 1);
    }
}

/// A position that has an occurrence and none before it from `start` on is
/// the one `find_from` gives.
pub proof fn lemma_find_from_is(hay: Seq<char>, needle: Seq<char>, start: int, at: int)
    requires
        0 <= start <= at,
        occurs_at(hay, needle, at),
        forall|j: int| start <= j < at ==> !occurs_at(hay, needle, j),
    ensures
        find_from(hay, needle, start) == Some(at),
    decreases at - start,
{
    if start < at {
        lemma_find_from_is(hay, needle, start + 1, at);
    }
}

/// Searching a suffix is searching the whole text from where the suffix
/// begins.
pub proof fn lemma_find_from_suffix(hay: Seq<char>, needle: Seq<char>, begin: int, start: int)
    requires
        0 <= begin <= hay.len(),
        0 <= start,
    ensures
        find_from(hay.subrange(begin, hay.len() as int), needle, start) == match find_from(
            hay,
            needle,
            begin + start,
        ) {
            Some(at) => Some(at - begin),
            None => None,
        },
    decreases hay.len() - begin - start,
{
    let tail = hay.subrange(begin, hay.len() as int);
    if start + needle.len() > tail.len() {
    } else {
        assert(tail.subrange(start, start + needle.len()) =~= hay.subrange(
            begin + start,
            begin + start + needle.len(),
        ));
        if !occurs_at(hay, needle, begin + start) {
            lemma_find_from_suffix(hay, needle, begin, start + 1);
        }
    }
}

/// No character of `hay` is `c`.
pub open spec fn lacks_char(hay: Seq<char>, c: char) -> bool {
    forall|i: int| 0 <= i < hay.len() ==> hay[i] != c
}

/// A text that lacks the first character of `needle` cannot hold `needle`.
pub proof fn lemma_lacking_first_char(hay: Seq<char>, needle: Seq<char>)
    requires
        needle.len() > 0,
        lacks_char(hay, needle[0]),
    ensures
        !has_substring(hay, needle),
{
    assert forall|at: int| !occurs_at(hay, needle, at) by {
        if occurs_at(hay, needle, at) {
            assert(hay.subrange(at, at + needle.len())[0] == hay[at]);
        }
    }
}

/// Joining with one more part at the end appends the separator and the part.
pub proof fn lemma_join_push(parts: Seq<Seq<char>>, sep: Seq<char>, last: Seq<char>)
    requires
        parts.len() >= 1,
    ensures
        join_seq(parts.push(last), sep) == join_seq(parts, sep) + sep + last,
    decreases parts.len(),
{
    let all = parts.push(last);
    assert(all.drop_first() =~= parts.drop_first().push(last));
    if parts.len() == 1 {
        assert(join_seq(all.drop_first(), sep) == last);
    } else {
        lemma_join_push(parts.drop_first(), sep, last);
        assert(join_seq(all, sep) =~= join_seq(parts, sep) + sep + last);
    }
}

/// Splitting undoes joining: where the separator has two different
/// characters and stands in none of the parts, cutting the joined text gives
/// the parts back, each as it was.
pub proof fn law_split_undoes_join(parts: Seq<Seq<char>>, sep: Seq<char>)
    requires
        parts.len() >= 1,
        sep.len() == 2,
        sep[0] != sep[1],
        forall|k: int| 0 <= k < parts.len() ==> !has_substring(#[trigger] parts[k], sep),
    ensures
        split_seq(join_seq(parts, sep), sep) == parts,
    decreases parts.len(),
{
    let text = join_seq(parts, sep);
    let head = parts[0];
    if parts.len() == 1 {
        lemma_find_from(text, sep, 0);
        assert(!has_substring(parts[0], sep));
        assert(split_seq(text, sep) =~= parts);
    } else {
        let rest = parts.drop_first();
        let tail = join_seq(rest, sep);
        let at = head.len() as int;
        assert(text == head + sep + tail);
        assert(text.subrange(at, at + 2) =~= sep);
        assert forall|j: int| 0 <= j < at implies !occurs_at(text, sep, j) by {
            if occurs_at(text, sep, j) {
                if j + 2 <= at {
                    assert(head.subrange(j, j + 2) =~= text.subrange(j, j + 2));
                    assert(occurs_at(head, sep, j));
                    assert(!has_substring(parts[0], sep));
                } else {
                    assert(text.subrange(j, j + 2)[1] == text[j + 1]);
                    assert(text[j + 1] == sep[0]);
                }
            }
        }
        lemma_find_from_is(text, sep, 0, at);
        assert(text.subrange(0, at) =~= head);
        assert(text.subrange(at + 2, text.len() as int) =~= tail);
        assert forall|k: int| 0 <= k < rest.len() implies !has_substring(
            #[trigger] rest[k],
            sep,
        ) by {
            assert(rest[k] == parts[k + 1]);
        }
        law_split_undoes_join(rest, sep);
        assert(split_seq(text, sep) =~= seq![head] + rest);
        assert(seq![head] + rest =~= parts);
    }
}

/// The characters of a string slice, in order.
pub fn chars_of(s: &str) -> (v: Vec<char>)
    ensures
        v@ == s@,
{
    let mut v: Vec<char> = Vec::new();
    for c in it: s.chars()
        invariant
            v@ == it.history(),
    {
        v.push(c);
    }
    v
}

fn matches_at(hay: &Vec<char>, needle: &Vec<char>, at: usize) -> (r: bool)
    requires
        at + needle.len() <= hay.len(),
    ensures
        r == occurs_at(hay@, needle@, at as int),
{
    let mut k: usize = 0;
    while k < needle.len()
        invariant
            k <= needle.len(),
            at + needle.len() <= hay.len(),
            forall|j: int| 0 <= j < k ==> hay@[at + j] == needle@[j],
        decreases needle.len() - k,
    {
        if hay[at + k] != needle[k] {
            assert(hay@.subrange(at as int, at + needle.len())[k as int] == hay@[at + k]);
            return false;
        }
        k += 1;
    }
    true
}

/// Searches `hay` for `needle` from position `start` on.
pub fn find_in(hay: &Vec<char>, needle: &Vec<char>, start: usize) -> (r: Option<usize>)
    ensures
        match r {
            Some(at) => find_from(hay@, needle@, start as int) == Some(at as int),
            None => find_from(hay@, needle@, start as int) is None,
        },
{
    if needle.len() > hay.len() {
        return None;
    }
    let limit: usize = hay.len() - needle.len();
    let mut at: usize = start;
    while at <= limit
        invariant
            start <= at,
            limit + needle.len() == hay.len(),
            find_from(hay@, needle@, at as int) == find_from(hay@, needle@, start as int),
        decreases limit + 1 - at,
    {
        if matches_at(hay, needle, at) {
            return Some(at);
        }
        at += 1;
    }
    None
}

/// Whether `needle` stands somewhere in the characters `hay`.
pub fn contains_in(hay: &Vec<char>, needle: &str) -> (r: bool)
    ensures
        r == has_substring(hay@, needle@),
{
    let pattern = chars_of(needle);
    let found = find_in(hay, &pattern, 0);
    proof {
        lemma_find_from(hay@, pattern@, 0);
    }
    found.is_some()
}

/// Whether `needle` stands somewhere in `hay`, character for character.
pub fn contains(hay: &str, needle: &str) -> (r: bool)
    ensures
        r == has_substring(hay@, needle@),
{
    let chars = chars_of(hay);
    contains_in(&chars, needle)
}

/// Joins the parts into one string, with `sep` between neighbours.
pub fn join(parts: &Vec<&str>, sep: &str) -> (r: String)
    ensures
        r@ == join_seq(parts.deep_view(), sep@),
{
    let mut r = String::new();
    let mut i: usize = 0;
    while i < parts.len()
        invariant
            i <= parts.len(),
            r@ == join_seq(parts.deep_view().take(i as int), sep@),
        decreases parts.len() - i,
    {
        proof {
            let done = parts.deep_view().take(i as int);
            assert(parts.deep_view().take(i + 1) =~= done.push(parts[i as int]@));
            if i > 0 {
                lemma_join_push(done, sep@, parts[i as int]@);
            }
        }
        if i > 0 {
            r.append(sep);
        }
        r.append(parts[i]);
        i += 1;
    }
    proof {
        assert(parts.deep_view().take(i as int) =~= parts.deep_view());
    }
    r
}

/// Cuts the text at each occurrence of `sep`, from the left.
pub fn split(text: &str, sep: &str) -> (parts: Vec<String>)
    ensures
        parts.deep_view() == split_seq(text@, sep@),
{
    let chars = chars_of(text);
    let pattern = chars_of(sep);
    let mut parts: Vec<String> = Vec::new();
    let mut start: usize = 0;
    proof {
        assert(text@.subrange(0, text@.len() as int) =~= text@);
        assert(parts.deep_view() + split_seq(text@, sep@) =~= split_seq(text@, sep@));
    }
    loop
        invariant
            start <= chars.len(),
            chars@ == text@,
            pattern@ == sep@,
            parts.deep_view() + split_seq(text@.subrange(start as int, text@.len() as int), sep@)
                == split_seq(text@, sep@),
        decreases chars.len() - start,
    {
        let ghost rest = text@.subrange(start as int, text@.len() as int);
        let ghost before = parts.deep_view();
        let found = if pattern.len() == 0 {
            None
        } else {
            find_in(&chars, &pattern, start)
        };
        proof {
            lemma_find_from_suffix(text@, sep@, start as int, 0);
            lemma_find_from(text@, sep@, start as int);
        }
        match found {
            Some(at) => {
                let part = String::from_str(text.substring_char(start, at));
                parts.push(part);
                proof {
                    let cut = at + pattern.len();
                    assert(part@ =~= rest.subrange(0, at - start));
                    assert(text@.subrange(cut, text@.len() as int) =~= rest.subrange(
                        cut - start,
                        rest.len() as int,
                    ));
                    assert(parts.deep_view() =~= before.push(part@));
                    assert(before.push(part@) + split_seq(
                        text@.subrange(cut, text@.len() as int),
                        sep@,
                    ) =~= before + split_seq(rest, sep@));
                }
                start = at + pattern.len();
            },
            None => {
                let part = String::from_str(text.substring_char(start, chars.len()));
                parts.push(part);
                proof {
                    assert(part@ =~= rest);
                    assert(split_seq(rest, sep@) =~= seq![rest]);
                    assert(parts.deep_view() =~= before.push(part@));
                    assert(before.push(rest) =~= before + seq![rest]);
                }
                return parts;
            },
        }
    }
}

} // verus!
