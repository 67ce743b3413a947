//! The slugs of a catalog as a sorted list without repeats.

use crate::types::mutations::{mutation_views, slugs_of, Mutation};
use vstd::prelude::*;
use vstd::utf8::*;

verus! {

/// `a` stands before `b` in the order of strings: byte by byte, a text
/// before each of its longer continuations.
pub open spec fn text_before(a: Seq<u8>, b: Seq<u8>) -> bool
    decreases a.len(),
{
    if b.len() == 0 {
        false
    } else if a.len() == 0 {
        true
    } else if a[0] != b[0] {
        a[0] < b[0]
    } else {
        text_before(a.drop_first(), b.drop_first())
    }
}

/// Each string of the list stands before the next one.
pub open spec fn strictly_ascending(items: Seq<Seq<char>>) -> bool {
    forall|i: int|
        0 <= i < items.len() - 1 ==> text_before(
            encode_utf8(#[trigger] items[i]),
            encode_utf8(items[i + 1]),
        )
}

/// The strings of a list of strings.
pub open spec fn string_views(items: Seq<String>) -> Seq<Seq<char>> {
    items.map_values(|s: String| s@)
}

/// How two texts stand to each other.
pub enum Standing {
    Before,
    Same,
    After,
}

/// How `a` stands to `b` in the order of strings.
pub fn standing(a: &[u8], b: &[u8]) -> (r: Standing)
    ensures
        match r {
            Standing::Before => text_before(a@, b@),
            Standing::Same => a@ == b@,
            Standing::After => text_before(b@, a@),
        },
{
    let mut i: usize = 0;
    assert(a@.subrange(0, a@.len() as int) =~= a@);
    assert(b@.subrange(0, b@.len() as int) =~= b@);
    while i < a.len() && i < b.len()
        invariant
            i <= a@.len(),
            i <= b@.len(),
            forall|k: int| 0 <= k < i ==> a@[k] == b@[k],
            text_before(a@, b@) == text_before(
                a@.subrange(i as int, a@.len() as int),
                b@.subrange(i as int, b@.len() as int),
            ),
            text_before(b@, a@) == text_before(
                b@.subrange(i as int, b@.len() as int),
                a@.subrange(i as int, a@.len() as int),
            ),
        decreases a@.len() - i,
    {
        let ghost ra = a@.subrange(i as int, a@.len() as int);
        let ghost rb = b@.subrange(i as int, b@.len() as int);
        assert(ra[0] == a@[i as int] && rb[0] == b@[i as int]);
        assert(ra.drop_first() =~= a@.subrange(i + 1, a@.len() as int));
        assert(rb.drop_first() =~= b@.subrange(i + 1, b@.len() as int));
        if a[i] < b[i] {
            return Standing::Before;
        }
        if a[i] > b[i] {
            return Standing::After;
        }
        i += 1;
    }
    if a.len() < b.len() {
        Standing::Before
    } else if a.len() > b.len() {
        Standing::After
    } else {
        assert(a@ =~= b@);
        Standing::Same
    }
}

/// The slugs of the mutations as a list in the order of strings, each
/// slug once.
pub fn sorted_unique_slugs(mutations: &[Mutation]) -> (r: Vec<String>)
    ensures
        strictly_ascending(string_views(r@)),
        forall|s: Seq<char>|
            string_views(r@).contains(s) <==> slugs_of(mutation_views(mutations@)).contains(s),
{
    let ghost slugs = slugs_of(mutation_views(mutations@));
    let mut out: Vec<String> = Vec::new();
    let mut k: usize = 0;
    while k < mutations.len()
        invariant
            k <= mutations@.len(),
            slugs == slugs_of(mutation_views(mutations@)),
            strictly_ascending(string_views(out@)),
            forall|s: Seq<char>|
                string_views(out@).contains(s) <==> slugs.subrange(0, k as int).contains(s),
        decreases mutations@.len() - k,
    {
        let slug = mutations[k].slug;
        let ghost before = string_views(out@);
        let ghost seen = slugs.subrange(0, k as int);
        assert(slugs[k as int] == slug@);
        assert(slugs.subrange(0, k + 1) =~= seen.push(slug@));
        // Find the first entry that does not stand before the slug.
        let mut at: usize = 0;
        let mut present = false;
        while at < out.len()
            invariant_except_break
                !present,
                forall|j: int|
                    0 <= j < at ==> text_before(
                        encode_utf8(#[trigger] before[j]),
                        encode_utf8(slug@),
                    ),
            invariant
                at <= out@.len(),
                before == string_views(out@),
            ensures
                at <= out@.len(),
                present ==> at < out@.len() && before[at as int] == slug@,
                !present ==> (forall|j: int|
                    0 <= j < at ==> text_before(
                        encode_utf8(#[trigger] before[j]),
                        encode_utf8(slug@),
                    )) && (at < out@.len() ==> text_before(
                    encode_utf8(slug@),
                    encode_utf8(before[at as int]),
                )),
            decreases out@.len() - at,
        {
            assert(before[at as int] == out@[at as int]@);
            match standing(out[at].as_str().as_bytes(), slug.as_bytes()) {
                Standing::Before => {
                    at += 1;
                },
                Standing::Same => {
                    proof {
                        crate::text::lemma_utf8_injective(out@[at as int]@, slug@);
                    }
                    present = true;
                    break ;
                },
                Standing::After => {
                    break ;
                },
            }
        }
        if present {
            proof {
                lemma_seen_again(before, seen, slug@, at as int);
            }
        } else {
            out.insert(at, slug.to_owned());
            assert(string_views(out@) =~= before.insert(at as int, slug@));
            proof {
                lemma_insert_keeps_order(before, slug@, at as int);
                lemma_insert_adds_one(before, seen, slug@, at as int);
            }
        }
        k += 1;
    }
    assert(slugs.subrange(0, mutations@.len() as int) =~= slugs);
    out
}

/// A slug that the list already holds adds nothing to what was seen.
proof fn lemma_seen_again(before: Seq<Seq<char>>, seen: Seq<Seq<char>>, slug: Seq<char>, at: int)
    requires
        0 <= at < before.len(),
        before[at] == slug,
        forall|s: Seq<char>| before.contains(s) <==> seen.contains(s),
    ensures
        forall|s: Seq<char>| before.contains(s) <==> seen.push(slug).contains(s),
{
    assert forall|s: Seq<char>| before.contains(s) <==> seen.push(slug).contains(s) by {
        if seen.push(slug).contains(s) {
            let j = choose|j: int| 0 <= j < seen.len() + 1 && seen.push(slug)[j] == s;
            if j < seen.len() {
                assert(seen[j] == s);
                assert(seen.contains(s));
            }
        }
        if before.contains(s) {
            assert(seen.contains(s));
            let j = choose|j: int| 0 <= j < seen.len() && seen[j] == s;
            assert(seen.push(slug)[j] == s);
        }
    }
}

/// A slug put between the entries that stand before it and the entry
/// that stands after it leaves the list in order.
proof fn lemma_insert_keeps_order(before: Seq<Seq<char>>, slug: Seq<char>, at: int)
    requires
        0 <= at <= before.len(),
        strictly_ascending(before),
        forall|j: int|
            0 <= j < at ==> text_before(encode_utf8(#[trigger] before[j]), encode_utf8(slug)),
        at < before.len() ==> text_before(encode_utf8(slug), encode_utf8(before[at])),
    ensures
        strictly_ascending(before.insert(at, slug)),
{
    let after = before.insert(at, slug);
    assert forall|i: int| 0 <= i < after.len() - 1 implies text_before(
        encode_utf8(#[trigger] after[i]),
        encode_utf8(after[i + 1]),
    ) by {
        if i + 1 < at {
            assert(after[i] == before[i] && after[i + 1] == before[i + 1]);
        } else if i + 1 == at {
            assert(after[i] == before[i]);
        } else if i == at {
            assert(after[i + 1] == before[i]);
        } else {
            assert(after[i] == before[i - 1] && after[i + 1] == before[i]);
        }
    }
}

/// A slug put into the list adds just itself to what the list holds.
proof fn lemma_insert_adds_one(
    before: Seq<Seq<char>>,
    seen: Seq<Seq<char>>,
    slug: Seq<char>,
    at: int,
)
    requires
        0 <= at <= before.len(),
        forall|s: Seq<char>| before.contains(s) <==> seen.contains(s),
    ensures
        forall|s: Seq<char>| before.insert(at, slug).contains(s) <==> seen.push(slug).contains(s),
{
    let after = before.insert(at, slug);
    assert forall|s: Seq<char>| after.contains(s) <==> seen.push(slug).contains(s) by {
        if after.contains(s) {
            let j = choose|j: int| 0 <= j < after.len() && after[j] == s;
            if j < at {
                assert(before[j] == s);
                assert(before.contains(s));
            } else if j > at {
                assert(before[j - 1] == s);
                assert(before.contains(s));
            }
            if j == at {
                assert(seen.push(slug)[seen.len() as int] == s);
            } else {
                assert(seen.contains(s));
                let n = choose|n: int| 0 <= n < seen.len() && seen[n] == s;
                assert(seen.push(slug)[n] == s);
            }
        }
        if seen.push(slug).contains(s) {
            let j = choose|j: int| 0 <= j < seen.len() + 1 && seen.push(slug)[j] == s;
            if j < seen.len() {
                assert(seen[j] == s);
                assert(seen.contains(s));
                assert(before.contains(s));
                let n = choose|n: int| 0 <= n < before.len() && before[n] == s;
                if n < at {
                    assert(after[n] == s);
                } else {
                    assert(after[n + 1] == s);
                }
            } else {
                assert(after[at] == s);
            }
        }
    }
}

/// The order of strings is strict: no text stands before itself.
pub proof fn lemma_text_before_irreflexive(a: Seq<u8>)
    ensures
        !text_before(a, a),
    decreases a.len(),
{
    if a.len() > 0 {
        lemma_text_before_irreflexive(a.drop_first());
    }
}

/// The order of strings is transitive.
pub proof fn lemma_text_before_transitive(a: Seq<u8>, b: Seq<u8>, c: Seq<u8>)
    requires
        text_before(a, b),
        text_before(b, c),
    ensures
        text_before(a, c),
    decreases a.len(),
{
    if a.len() > 0 && b.len() > 0 && c.len() > 0 {
        if a[0] == b[0] && b[0] == c[0] {
            lemma_text_before_transitive(a.drop_first(), b.drop_first(), c.drop_first());
        }
    }
}

/// In a list in ascending order every entry stands before every later one.
pub proof fn lemma_ascending_pairs(items: Seq<Seq<char>>, i: int, j: int)
    requires
        strictly_ascending(items),
        0 <= i < j < items.len(),
    ensures
        text_before(encode_utf8(items[i]), encode_utf8(items[j])),
    decreases j - i,
{
    if j > i + 1 {
        lemma_ascending_pairs(items, i, j - 1);
        lemma_text_before_transitive(
            encode_utf8(items[i]),
            encode_utf8(items[j - 1]),
            encode_utf8(items[j]),
        );
    }
}

/// A list in ascending order holds no string twice.
pub proof fn lemma_ascending_is_distinct(items: Seq<Seq<char>>)
    requires
        strictly_ascending(items),
    ensures
        items.no_duplicates(),
{
    assert forall|i: int, j: int|
        0 <= i < items.len() && 0 <= j < items.len() && i != j implies items[i] != items[j] by {
        if i < j {
            lemma_ascending_pairs(items, i, j);
            lemma_text_before_irreflexive(encode_utf8(items[i]));
        } else {
            lemma_ascending_pairs(items, j, i);
            lemma_text_before_irreflexive(encode_utf8(items[j]));
        }
    }
}

} // verus!
