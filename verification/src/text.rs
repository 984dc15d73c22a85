//! Keys as text: the delimiter, the segments of a key, and the names that a
//! listing shows for objects and for emulated directories.

use vstd::prelude::*;
use vstd::string::{StrSliceExecFns, StringExecFns};
use crate::fetcher::S3DataFetcher;

verus! {

/// The character that groups keys into emulated directories.
pub const DELIMITER: char = '/';

/// The pieces of `s` between delimiters, in order. A key without a delimiter
/// is one segment; two delimiters in a row enclose an empty segment.
pub open spec fn segments(s: Seq<char>) -> Seq<Seq<char>>
    decreases s.len(),
{
    if s.len() == 0 {
        seq![Seq::<char>::empty()]
    } else {
        let before = segments(s.drop_last());
        if s.last() == DELIMITER {
            before.push(Seq::<char>::empty())
        } else {
            before.drop_last().push(before.last().push(s.last()))
        }
    }
}

/// The last of `parts` that is not empty, if there is one.
pub open spec fn last_non_empty(parts: Seq<Seq<char>>) -> Option<Seq<char>>
    decreases parts.len(),
{
    if parts.len() == 0 {
        None
    } else if parts.last().len() > 0 {
        Some(parts.last())
    } else {
        last_non_empty(parts.drop_last())
    }
}

/// Whether `s` ends with the delimiter.
pub open spec fn ends_with_delimiter(s: Seq<char>) -> bool {
    s.len() > 0 && s.last() == DELIMITER
}

/// What follows the last delimiter of `s`: all of `s` where it has none.
pub open spec fn tail_segment(s: Seq<char>) -> Seq<char>
    decreases s.len(),
{
    if s.len() == 0 || s.last() == DELIMITER {
        Seq::<char>::empty()
    } else {
        tail_segment(s.drop_last()).push(s.last())
    }
}

/// `s` without the delimiters at its end.
pub open spec fn without_trailing_delimiters(s: Seq<char>) -> Seq<char>
    decreases s.len(),
{
    if ends_with_delimiter(s) {
        without_trailing_delimiters(s.drop_last())
    } else {
        s
    }
}

/// The name shown for the object at `path`: its last segment. A path that is
/// empty or ends with the delimiter names no object.
pub open spec fn filename_of(path: Seq<char>) -> Option<Seq<char>> {
    if ends_with_delimiter(path) {
        None
    } else {
        last_non_empty(segments(path))
    }
}

/// The name shown for the directory at `path`: its last non-empty segment with
/// the delimiter restored behind it.
pub open spec fn last_directory_of(path: Seq<char>) -> Option<Seq<char>> {
    match last_non_empty(segments(path)) {
        Some(segment) => Some(segment.push(DELIMITER)),
        None => None,
    }
}

/// The segments of a key are never none, and the last one is what follows the
/// key's last delimiter.
pub proof fn lemma_segments_end_with_tail(s: Seq<char>)
    ensures
        segments(s).len() >= 1,
        segments(s).last() == tail_segment(s),
    decreases s.len(),
{
    if s.len() > 0 {
        lemma_segments_end_with_tail(s.drop_last());
    }
}

/// The last non-empty segment of a key is what follows the last delimiter once
/// the delimiters at the key's end are set aside.
pub proof fn lemma_last_non_empty_segment(s: Seq<char>)
    ensures
        last_non_empty(segments(s)) == if tail_segment(without_trailing_delimiters(s)).len() > 0 {
            Some(tail_segment(without_trailing_delimiters(s)))
        } else {
            None::<Seq<char>>
        },
    decreases s.len(),
{
    if s.len() == 0 {
        assert(segments(s).drop_last().len() == 0);
        assert(last_non_empty(segments(s).drop_last()) is None);
    } else if s.last() == DELIMITER {
        let before = segments(s.drop_last());
        lemma_last_non_empty_segment(s.drop_last());
        assert(before.push(Seq::<char>::empty()).drop_last() =~= before);
    } else {
        lemma_segments_end_with_tail(s);
    }
}

/// The characters of `s`, in order.
pub fn chars_of(s: &str) -> (chars: Vec<char>)
    ensures
        chars@ == s@,
{
    let mut chars: Vec<char> = Vec::new();
    for c in it: s.chars()
        invariant
            it.seq() == s@,
            chars@ == s@.take(it.index() as int),
    {
        chars.push(c);
    }
    chars
}

/// How many characters of `chars` are left once the delimiters at its end are
/// set aside.
pub fn trimmed_length(chars: &Vec<char>) -> (end: usize)
    ensures
        end <= chars.len(),
        chars@.take(end as int) == without_trailing_delimiters(chars@),
{
    let mut end: usize = chars.len();
    assert(chars@.take(end as int) =~= chars@);
    while end > 0 && chars[end - 1] == DELIMITER
        invariant
            end <= chars.len(),
            without_trailing_delimiters(chars@.take(end as int)) == without_trailing_delimiters(
                chars@,
            ),
        decreases end,
    {
        assert(chars@.take(end as int).drop_last() =~= chars@.take(end - 1));
        end = end - 1;
    }
    end
}

/// Where the segment that ends at `end` begins.
pub fn segment_start(chars: &Vec<char>, end: usize) -> (start: usize)
    requires
        end <= chars.len(),
    ensures
        start <= end,
        chars@.subrange(start as int, end as int) == tail_segment(chars@.take(end as int)),
{
    let mut start: usize = end;
    assert(chars@.subrange(start as int, end as int) =~= Seq::<char>::empty());
    while start > 0 && chars[start - 1] != DELIMITER
        invariant
            start <= end <= chars.len(),
            tail_segment(chars@.take(end as int)) == tail_segment(chars@.take(start as int))
                + chars@.subrange(start as int, end as int),
        decreases start,
    {
        assert(chars@.take(start as int).drop_last() =~= chars@.take(start - 1));
        assert(tail_segment(chars@.take(start - 1)).push(chars@[start - 1]) + chars@.subrange(
            start as int,
            end as int,
        ) =~= tail_segment(chars@.take(start - 1)) + chars@.subrange(start - 1, end as int));
        start = start - 1;
    }
    start
}

impl S3DataFetcher {
    /// The name of the object at `path`, as [`filename_of`] states it.
    pub fn get_filename(path: &str) -> (name: Option<String>)
        ensures
            name is Some == filename_of(path@) is Some,
            name is Some ==> name->0@ == filename_of(path@)->0,
    {
        let chars = chars_of(path);
        let end = chars.len();
        if end == 0 || chars[end - 1] == DELIMITER {
            proof {
                lemma_last_non_empty_segment(path@);
            }
            return None;
        }
        let start = segment_start(&chars, end);
        proof {
            lemma_last_non_empty_segment(path@);
            assert(chars@.take(end as int) =~= path@);
        }
        Some(path.substring_char(start, end).to_owned())
    }

    /// The name of the directory at `path`, as [`last_directory_of`] states it.
    pub fn get_last_directory(path: &str) -> (name: Option<String>)
        ensures
            name is Some == last_directory_of(path@) is Some,
            name is Some ==> name->0@ == last_directory_of(path@)->0,
    {
        let chars = chars_of(path);
        let end = trimmed_length(&chars);
        let start = segment_start(&chars, end);
        proof {
            lemma_last_non_empty_segment(path@);
        }
        if start == end {
            return None;
        }
        let mut name = path.substring_char(start, end).to_owned();
        name.append("/");
        proof {
            reveal_strlit("/");
            assert(name@ =~= path@.subrange(start as int, end as int).push(DELIMITER));
        }
        Some(name)
    }
}

/// The text of an optional string.
pub open spec fn optional_text(text: Option<String>) -> Option<Seq<char>> {
    match text {
        Some(text) => Some(text@),
        None => None,
    }
}

/// The text of an optional string, empty where there is none.
pub open spec fn text_or_empty(text: Option<Seq<char>>) -> Seq<char> {
    match text {
        Some(text) => text,
        None => Seq::<char>::empty(),
    }
}

/// A copy of an optional string.
pub fn copy_optional(text: &Option<String>) -> (copy: Option<String>)
    ensures
        copy == *text,
{
    match text {
        Some(text) => Some(text.clone()),
        None => None,
    }
}

/// The string inside `text`, or an empty one.
pub fn owned_or_empty(text: &Option<String>) -> (owned: String)
    ensures
        owned@ == text_or_empty(optional_text(*text)),
{
    match text {
        Some(text) => text.clone(),
        None => String::new(),
    }
}

/// Whether a segment names nothing: it is empty, or a dot alone.
pub open spec fn names_nothing(segment: Seq<char>) -> bool {
    segment.len() == 0 || segment == seq!['.']
}

/// The last of `parts` that names something, if there is one.
pub open spec fn last_naming(parts: Seq<Seq<char>>) -> Option<Seq<char>>
    decreases parts.len(),
{
    if parts.len() == 0 {
        None
    } else if names_nothing(parts.last()) {
        last_naming(parts.drop_last())
    } else {
        Some(parts.last())
    }
}

/// The file name of the object at `path`: the last segment of the path that
/// is neither empty nor a dot alone. A path whose last such segment is two
/// dots has no file name, and a path without such a segment has none.
pub open spec fn file_name_of(path: Seq<char>) -> Option<Seq<char>> {
    match last_naming(segments(path)) {
        Some(name) => if name == seq!['.', '.'] {
            None
        } else {
            Some(name)
        },
        None => None,
    }
}

/// Where the last dot of `name` stands; minus one where it has none.
pub open spec fn last_dot(name: Seq<char>) -> int
    decreases name.len(),
{
    if name.len() == 0 {
        -1
    } else if name.last() == '.' {
        name.len() - 1
    } else {
        last_dot(name.drop_last())
    }
}

/// The extension of a file name: what follows its last dot. A name without a
/// dot has none, and a name whose only dot is its first character has none.
pub open spec fn extension_of(name: Seq<char>) -> Option<Seq<char>> {
    if last_dot(name) <= 0 {
        None
    } else {
        Some(name.skip(last_dot(name) + 1))
    }
}

/// The type shown for the object at `path`: the extension of its file name,
/// and nothing where it has no file name or the name has no extension.
pub open spec fn file_type_of(path: Seq<char>) -> Seq<char> {
    match file_name_of(path) {
        Some(name) => text_or_empty(extension_of(name)),
        None => Seq::<char>::empty(),
    }
}

/// The segments of a text are the segments of what stands before its last
/// delimiter, followed by what stands behind it; a text without a delimiter
/// is one segment.
pub proof fn lemma_segments_split(s: Seq<char>)
    ensures
        tail_segment(s).len() <= s.len(),
        s.len() == tail_segment(s).len() ==> tail_segment(s) == s && segments(s) == seq![s],
        s.len() > tail_segment(s).len() ==> segments(s) == segments(
            s.take(s.len() - tail_segment(s).len() - 1),
        ).push(tail_segment(s)),
    decreases s.len(),
{
    if s.len() == 0 {
        assert(s =~= Seq::<char>::empty());
        assert(tail_segment(s) =~= s);
    } else if s.last() == DELIMITER {
        assert(s.take(s.len() - 1) =~= s.drop_last());
    } else {
        let shorter = s.drop_last();
        let tail = tail_segment(shorter);
        lemma_segments_split(shorter);
        let before = segments(shorter);
        if shorter.len() == tail.len() {
            assert(tail.push(s.last()) =~= s);
            assert(before.drop_last().push(before.last().push(s.last())) =~= seq![s]);
        } else {
            let cut = shorter.len() - tail.len() - 1;
            assert(shorter.take(cut) =~= s.take(cut));
            assert(before.drop_last() =~= segments(shorter.take(cut)));
        }
    }
}

/// In a text that ends with a character other than a dot, the last dot is
/// where it is in the text without that character.
proof fn lemma_last_dot_step(name: Seq<char>, length: int)
    requires
        0 < length <= name.len(),
        name[length - 1] != '.',
    ensures
        last_dot(name.take(length)) == last_dot(name.take(length - 1)),
{
    assert(name.take(length).drop_last() =~= name.take(length - 1));
}

/// Where the file name of `chars` begins and ends; the same place twice where
/// it has none.
fn file_name_span(chars: &Vec<char>) -> (span: (usize, usize))
    ensures
        span.0 <= span.1 <= chars.len(),
        span.0 < span.1 ==> last_naming(segments(chars@)) == Some(
            chars@.subrange(span.0 as int, span.1 as int),
        ),
        span.0 == span.1 ==> last_naming(segments(chars@)) is None,
{
    let mut end: usize = chars.len();
    assert(chars@.take(end as int) =~= chars@);
    while end > 0
        invariant
            end <= chars.len(),
            last_naming(segments(chars@)) == last_naming(segments(chars@.take(end as int))),
        decreases end,
    {
        let ghost text = chars@.take(end as int);
        if chars[end - 1] == DELIMITER {
            proof {
                let before = segments(text.drop_last());
                assert(text.drop_last() =~= chars@.take(end - 1));
                assert(before.push(Seq::<char>::empty()).drop_last() =~= before);
            }
            end = end - 1;
        } else {
            let start = segment_start(chars, end);
            let ghost tail = chars@.subrange(start as int, end as int);
            proof {
                lemma_segments_split(text);
                assert(tail.len() >= 1) by {
                    assert(tail_segment(text) == tail_segment(text.drop_last()).push(text.last()));
                }
                if start > 0 {
                    assert(text.take(start - 1) =~= chars@.take(start - 1));
                    assert(segments(text.take(start - 1)).push(tail).drop_last() =~= segments(
                        text.take(start - 1),
                    ));
                } else {
                    assert(seq![text].drop_last() =~= Seq::<Seq<char>>::empty());
                }
            }
            if end - start == 1 && chars[start] == '.' {
                assert(tail =~= seq!['.']);
                if start == 0 {
                    proof {
                        let none = Seq::<Seq<char>>::empty();
                        assert(last_naming(none) is None);
                        assert(seq![text].last() == text);
                        assert(last_naming(seq![text]) == last_naming(none));
                    }
                    return (0, 0);
                }
                end = start - 1;
            } else {
                proof {
                    if tail == seq!['.'] {
                        assert(tail[0] == '.');
                    }
                }
                return (start, end);
            }
        }
    }
    proof {
        let nothing = Seq::<char>::empty();
        let none = Seq::<Seq<char>>::empty();
        assert(chars@.take(0) =~= nothing);
        assert(segments(nothing).drop_last() =~= none);
        assert(last_naming(none) is None);
        assert(last_naming(segments(nothing)) == last_naming(none));
    }
    (0, 0)
}

/// The type shown for the object at `path`, as [`file_type_of`] states it.
pub fn file_type(path: &str) -> (shown: String)
    ensures
        shown@ == file_type_of(path@),
{
    let chars = chars_of(path);
    let (start, end) = file_name_span(&chars);
    if start == end {
        return String::new();
    }
    let ghost name = chars@.subrange(start as int, end as int);
    if end - start == 2 && chars[start] == '.' && chars[start + 1] == '.' {
        assert(name =~= seq!['.', '.']);
        return String::new();
    }
    proof {
        if name == seq!['.', '.'] {
            assert(name[0] == '.' && name[1] == '.');
        }
    }
    let mut at: usize = end;
    assert(name.take(at - start) =~= name);
    while at > start && chars[at - 1] != '.'
        invariant
            start <= at <= end <= chars.len(),
            name == chars@.subrange(start as int, end as int),
            last_dot(name) == last_dot(name.take(at - start)),
        decreases at,
    {
        proof {
            lemma_last_dot_step(name, at - start);
        }
        at = at - 1;
    }
    proof {
        if at > start {
            assert(name.take(at - start).last() == '.');
        }
    }
    if at <= start + 1 {
        return String::new();
    }
    assert(name.skip(at - start) =~= path@.subrange(at as int, end as int));
    path.substring_char(at, end).to_owned()
}

} // verus!
