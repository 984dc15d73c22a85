//! A bucket as the set of its keys, and what a listing with the delimiter
//! holds of it: the objects directly under a prefix, and the common prefixes
//! that stand for everything deeper.

use vstd::prelude::*;
use crate::page::ListPageView;
use crate::text::DELIMITER;

verus! {

/// Where the first delimiter of `s` stands; the length of `s` where it has none.
pub open spec fn first_delimiter(s: Seq<char>) -> int
    decreases s.len(),
{
    if s.len() == 0 || s[0] == DELIMITER {
        0
    } else {
        1 + first_delimiter(s.drop_first())
    }
}

/// Whether `key` lies directly under `prefix`: it begins with the prefix, and
/// what follows holds no delimiter.
pub open spec fn is_direct(prefix: Seq<char>, key: Seq<char>) -> bool {
    prefix.is_prefix_of(key) && first_delimiter(key.skip(prefix.len() as int)) == key.len()
        - prefix.len()
}

/// Whether `key` lies deeper under `prefix`: it begins with the prefix, and
/// what follows holds a delimiter.
pub open spec fn is_nested(prefix: Seq<char>, key: Seq<char>) -> bool {
    prefix.is_prefix_of(key) && !is_direct(prefix, key)
}

/// The common prefix that stands for `key` in a listing of `prefix`: the key
/// up to the first delimiter behind the prefix, that delimiter included.
pub open spec fn child_prefix(prefix: Seq<char>, key: Seq<char>) -> Seq<char> {
    key.take(prefix.len() + first_delimiter(key.skip(prefix.len() as int)) + 1)
}

/// Whether `candidate` is a common prefix of the listing of `prefix`: some key
/// of the bucket lies deeper under the prefix and is stood for by it.
pub open spec fn is_common_prefix(
    keys: Set<Seq<char>>,
    prefix: Seq<char>,
    candidate: Seq<char>,
) -> bool {
    exists|key: Seq<char>|
        keys.contains(key) && is_nested(prefix, key) && candidate == #[trigger] child_prefix(
            prefix,
            key,
        )
}

/// How often `key` stands in `run`.
pub open spec fn occurrences(run: Seq<Seq<char>>, key: Seq<char>) -> nat
    decreases run.len(),
{
    if run.len() == 0 {
        0
    } else {
        occurrences(run.drop_first(), key) + if run.first() == key {
            1nat
        } else {
            0nat
        }
    }
}

/// One where `key` is a key of the bucket that begins with `prefix`, else zero.
pub open spec fn holds(keys: Set<Seq<char>>, prefix: Seq<char>, key: Seq<char>) -> nat {
    if keys.contains(key) && prefix.is_prefix_of(key) {
        1
    } else {
        0
    }
}

/// Under how many of `prefixes` the key lies, where it is a key of the bucket.
pub open spec fn held_by(keys: Set<Seq<char>>, prefixes: Seq<Seq<char>>, key: Seq<char>) -> nat
    decreases prefixes.len(),
{
    if prefixes.len() == 0 {
        0
    } else {
        holds(keys, prefixes.first(), key) + held_by(keys, prefixes.drop_first(), key)
    }
}

/// The keys of the objects of `pages`, page after page.
pub open spec fn all_keys(pages: Seq<ListPageView>) -> Seq<Seq<char>>
    decreases pages.len(),
{
    if pages.len() == 0 {
        Seq::empty()
    } else {
        pages.first().keys() + all_keys(pages.drop_first())
    }
}

/// The common prefixes of `pages`, page after page.
pub open spec fn all_prefixes(pages: Seq<ListPageView>) -> Seq<Seq<char>>
    decreases pages.len(),
{
    if pages.len() == 0 {
        Seq::empty()
    } else {
        pages.first().prefixes() + all_prefixes(pages.drop_first())
    }
}

/// How often `key` comes out of `pages` when each is read and each of its
/// common prefixes is listed to full depth: once for each time it stands
/// among the objects, and once for each common prefix that it lies under.
pub open spec fn yield_of(keys: Set<Seq<char>>, pages: Seq<ListPageView>, key: Seq<char>) -> nat
    decreases pages.len(),
{
    if pages.len() == 0 {
        0
    } else {
        occurrences(pages.first().keys(), key) + held_by(keys, pages.first().prefixes(), key)
            + yield_of(keys, pages.drop_first(), key)
    }
}

/// Whether `pages` are a listing of `prefix` in the bucket with the keys
/// `keys`: their objects are the keys directly under the prefix, each once,
/// and their common prefixes are those of the keys deeper under it, each once.
pub open spec fn lists(pages: Seq<ListPageView>, keys: Set<Seq<char>>, prefix: Seq<char>) -> bool {
    &&& all_keys(pages).no_duplicates()
    &&& forall|key: Seq<char>| #[trigger]
        all_keys(pages).contains(key) <==> keys.contains(key) && is_direct(prefix, key)
    &&& all_prefixes(pages).no_duplicates()
    &&& forall|candidate: Seq<char>| #[trigger]
        all_prefixes(pages).contains(candidate) <==> is_common_prefix(keys, prefix, candidate)
}

/// The first delimiter stands within the text or at its end, nothing before
/// it is a delimiter, and where it stands within the text it is one.
pub proof fn lemma_first_delimiter(s: Seq<char>)
    ensures
        0 <= first_delimiter(s) <= s.len(),
        forall|i: int| 0 <= i < first_delimiter(s) ==> s[i] != DELIMITER,
        first_delimiter(s) < s.len() ==> s[first_delimiter(s)] == DELIMITER,
    decreases s.len(),
{
    if s.len() == 0 || s[0] == DELIMITER {
    } else {
        let rest = s.drop_first();
        lemma_first_delimiter(rest);
        assert forall|i: int| 0 <= i < first_delimiter(s) implies s[i] != DELIMITER by {
            if i > 0 {
                assert(s[i] == rest[i - 1]);
            }
        }
        if first_delimiter(s) < s.len() {
            assert(s[first_delimiter(s)] == rest[first_delimiter(rest)]);
        }
    }
}

/// A delimiter with none before it is the first.
pub proof fn lemma_first_delimiter_is(s: Seq<char>, at: int)
    requires
        0 <= at < s.len(),
        s[at] == DELIMITER,
        forall|i: int| 0 <= i < at ==> s[i] != DELIMITER,
    ensures
        first_delimiter(s) == at,
    decreases s.len(),
{
    if at > 0 {
        let rest = s.drop_first();
        assert(rest[at - 1] == s[at]);
        assert forall|i: int| 0 <= i < at - 1 implies rest[i] != DELIMITER by {
            assert(rest[i] == s[i + 1]);
        }
        lemma_first_delimiter_is(rest, at - 1);
    }
}

/// A key that begins with the common prefix of another key lies deeper under
/// the prefix too, and is stood for by the same common prefix.
pub proof fn lemma_child_prefix_is_shared(prefix: Seq<char>, first: Seq<char>, second: Seq<char>)
    requires
        is_nested(prefix, first),
        child_prefix(prefix, first).is_prefix_of(second),
    ensures
        is_nested(prefix, second),
        child_prefix(prefix, second) == child_prefix(prefix, first),
{
    let depth = prefix.len() as int;
    let rest_first = first.skip(depth);
    let rest_second = second.skip(depth);
    let at = first_delimiter(rest_first);
    lemma_first_delimiter(rest_first);
    let shared = child_prefix(prefix, first);
    assert(shared.len() == depth + at + 1);
    assert forall|i: int| 0 <= i < depth + at + 1 implies second[i] == first[i] by {
        assert(shared[i] == first[i]);
        assert(second.subrange(0, shared.len() as int)[i] == second[i]);
    }
    assert(prefix =~= second.subrange(0, depth)) by {
        assert forall|i: int| 0 <= i < depth implies prefix[i] == second[i] by {
            assert(first.subrange(0, depth)[i] == first[i]);
        }
    }
    assert(rest_second[at] == DELIMITER) by {
        assert(rest_second[at] == second[depth + at]);
        assert(rest_first[at] == first[depth + at]);
    }
    assert forall|i: int| 0 <= i < at implies rest_second[i] != DELIMITER by {
        assert(rest_second[i] == second[depth + i]);
        assert(rest_first[i] == first[depth + i]);
    }
    lemma_first_delimiter_is(rest_second, at);
    assert(child_prefix(prefix, second) =~= shared);
}

/// A key that lies deeper under a prefix begins with the common prefix that
/// stands for it.
pub proof fn lemma_child_prefix_holds_key(prefix: Seq<char>, key: Seq<char>)
    requires
        is_nested(prefix, key),
    ensures
        child_prefix(prefix, key).is_prefix_of(key),
{
    lemma_first_delimiter(key.skip(prefix.len() as int));
}

/// Occurrences add up over two runs, one after the other.
pub proof fn lemma_occurrences_concat(first: Seq<Seq<char>>, second: Seq<Seq<char>>, key: Seq<char>)
    ensures
        occurrences(first + second, key) == occurrences(first, key) + occurrences(second, key),
    decreases first.len(),
{
    if first.len() == 0 {
        assert(first + second =~= second);
    } else {
        assert((first + second).drop_first() =~= first.drop_first() + second);
        lemma_occurrences_concat(first.drop_first(), second, key);
    }
}

/// In a run without duplicates a key stands once or not at all.
pub proof fn lemma_occurrences_unique(run: Seq<Seq<char>>, key: Seq<char>)
    requires
        run.no_duplicates(),
    ensures
        occurrences(run, key) == if run.contains(key) {
            1nat
        } else {
            0nat
        },
    decreases run.len(),
{
    if run.len() > 0 {
        let rest = run.drop_first();
        assert forall|i: int, j: int|
            0 <= i < rest.len() && 0 <= j < rest.len() && i != j implies rest[i] != rest[j] by {
            assert(rest[i] == run[i + 1] && rest[j] == run[j + 1]);
        }
        lemma_occurrences_unique(rest, key);
        if run.first() == key {
            if rest.contains(key) {
                let i = choose|i: int| 0 <= i < rest.len() && rest[i] == key;
                assert(run[i + 1] == run[0]);
            }
            assert(run[0] == key);
        } else {
            if run.contains(key) {
                let i = choose|i: int| 0 <= i < run.len() && run[i] == key;
                assert(rest[i - 1] == key);
            }
            if rest.contains(key) {
                let i = choose|i: int| 0 <= i < rest.len() && rest[i] == key;
                assert(run[i + 1] == key);
            }
        }
    }
}

/// The count of prefixes that hold a key adds up over two runs of prefixes.
pub proof fn lemma_held_by_concat(
    keys: Set<Seq<char>>,
    first: Seq<Seq<char>>,
    second: Seq<Seq<char>>,
    key: Seq<char>,
)
    ensures
        held_by(keys, first + second, key) == held_by(keys, first, key) + held_by(
            keys,
            second,
            key,
        ),
    decreases first.len(),
{
    if first.len() == 0 {
        assert(first + second =~= second);
    } else {
        assert((first + second).drop_first() =~= first.drop_first() + second);
        lemma_held_by_concat(keys, first.drop_first(), second, key);
    }
}

/// Where a key of the bucket lies under those of `prefixes` that equal
/// `holder` and under no other, it lies under as many as `holder` occurs.
proof fn lemma_held_by_one(
    keys: Set<Seq<char>>,
    prefixes: Seq<Seq<char>>,
    key: Seq<char>,
    holder: Seq<char>,
)
    requires
        keys.contains(key),
        forall|i: int|
            0 <= i < prefixes.len() ==> (#[trigger] prefixes[i].is_prefix_of(key) <==> prefixes[i]
                == holder),
    ensures
        held_by(keys, prefixes, key) == occurrences(prefixes, holder),
    decreases prefixes.len(),
{
    if prefixes.len() > 0 {
        let rest = prefixes.drop_first();
        assert forall|i: int| 0 <= i < rest.len() implies (#[trigger] rest[i].is_prefix_of(key)
            <==> rest[i] == holder) by {
            assert(rest[i] == prefixes[i + 1]);
        }
        lemma_held_by_one(keys, rest, key, holder);
        assert(prefixes[0].is_prefix_of(key) <==> prefixes[0] == holder);
    }
}

/// A key that lies under none of `prefixes`, or is no key of the bucket, is
/// held by none.
proof fn lemma_held_by_none(keys: Set<Seq<char>>, prefixes: Seq<Seq<char>>, key: Seq<char>)
    requires
        !keys.contains(key) || forall|i: int|
            0 <= i < prefixes.len() ==> !(#[trigger] prefixes[i].is_prefix_of(key)),
    ensures
        held_by(keys, prefixes, key) == 0,
    decreases prefixes.len(),
{
    if prefixes.len() > 0 {
        let rest = prefixes.drop_first();
        if keys.contains(key) {
            assert forall|i: int| 0 <= i < rest.len() implies !(#[trigger] rest[i].is_prefix_of(
                key,
            )) by {
                assert(rest[i] == prefixes[i + 1]);
            }
            assert(!prefixes[0].is_prefix_of(key));
        }
        lemma_held_by_none(keys, rest, key);
    }
}

/// What comes out of pages is what comes out of all their objects and all
/// their common prefixes.
pub proof fn lemma_yield_of_pages(keys: Set<Seq<char>>, pages: Seq<ListPageView>, key: Seq<char>)
    ensures
        yield_of(keys, pages, key) == occurrences(all_keys(pages), key) + held_by(
            keys,
            all_prefixes(pages),
            key,
        ),
    decreases pages.len(),
{
    if pages.len() > 0 {
        lemma_yield_of_pages(keys, pages.drop_first(), key);
        lemma_occurrences_concat(pages.first().keys(), all_keys(pages.drop_first()), key);
        lemma_held_by_concat(
            keys,
            pages.first().prefixes(),
            all_prefixes(pages.drop_first()),
            key,
        );
    }
}

/// The keys under a prefix are the keys directly under it together with the
/// keys under each of its common prefixes, and no key is counted twice: a
/// listing of the prefix, read and followed into each common prefix, yields
/// every key of the bucket under the prefix once and nothing else.
pub proof fn lemma_listing_yields_each_key_once(
    pages: Seq<ListPageView>,
    keys: Set<Seq<char>>,
    prefix: Seq<char>,
    key: Seq<char>,
)
    requires
        lists(pages, keys, prefix),
    ensures
        yield_of(keys, pages, key) == holds(keys, prefix, key),
{
    let objects = all_keys(pages);
    let folders = all_prefixes(pages);
    lemma_yield_of_pages(keys, pages, key);
    lemma_occurrences_unique(objects, key);
    assert(objects.contains(key) <==> keys.contains(key) && is_direct(prefix, key));
    if keys.contains(key) && is_nested(prefix, key) {
        let holder = child_prefix(prefix, key);
        lemma_child_prefix_holds_key(prefix, key);
        assert(is_common_prefix(keys, prefix, holder));
        assert(folders.contains(holder));
        assert forall|i: int| 0 <= i < folders.len() implies (#[trigger] folders[i].is_prefix_of(
            key,
        ) <==> folders[i] == holder) by {
            if folders[i].is_prefix_of(key) {
                assert(folders.contains(folders[i]));
                assert(is_common_prefix(keys, prefix, folders[i]));
                let witness = choose|witness: Seq<char>|
                    keys.contains(witness) && is_nested(prefix, witness) && folders[i]
                        == #[trigger] child_prefix(prefix, witness);
                lemma_child_prefix_is_shared(prefix, witness, key);
            }
        }
        lemma_held_by_one(keys, folders, key, holder);
        lemma_occurrences_unique(folders, holder);
    } else {
        if keys.contains(key) {
            assert forall|i: int| 0 <= i < folders.len() implies !(#[trigger] folders[i].is_prefix_of(
                key,
            )) by {
                if folders[i].is_prefix_of(key) {
                    assert(folders.contains(folders[i]));
                    assert(is_common_prefix(keys, prefix, folders[i]));
                    let witness = choose|witness: Seq<char>|
                        keys.contains(witness) && is_nested(prefix, witness) && folders[i]
                            == #[trigger] child_prefix(prefix, witness);
                    lemma_child_prefix_is_shared(prefix, witness, key);
                }
            }
        }
        lemma_held_by_none(keys, folders, key);
    }
}

} // verus!
