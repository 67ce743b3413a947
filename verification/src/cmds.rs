//! What the commands decide: which mutants are meant, which targets are
//! tested together, and which targets are stale.

use crate::text::{bytes_eq, str_eq, to_lower, trim, trimmed};
use crate::types::config::{pieces, split_bytes};
use crate::types::hash::sha256;
use crate::types::outcomes::{Outcome, OutcomeView};
use crate::types::targets::Target;
use vstd::prelude::*;
use vstd::utf8::*;

verus! {

// ---------------------------------------------------------------------
// Ids on the command line
// ---------------------------------------------------------------------
/// The number that a text stands for, as `i64`: decimal digits with or
/// without a sign before them. Any other text, and a number that no
/// `i64` holds, stands for no number.
pub open spec fn parsed_i64(text: Seq<u8>) -> Option<i64> {
    let negative = text.len() > 0 && text[0] == 0x2d;
    let digits = if text.len() > 0 && (text[0] == 0x2d || text[0] == 0x2b) {
        text.drop_first()
    } else {
        text
    };
    if digits.len() == 0 || !crate::text::all_digits(digits) {
        None
    } else if negative {
        if crate::text::digits_value(digits) <= 0x8000_0000_0000_0000 {
            Some((-crate::text::digits_value(digits)) as i64)
        } else {
            None
        }
    } else if crate::text::digits_value(digits) <= i64::MAX {
        Some(crate::text::digits_value(digits) as i64)
    } else {
        None
    }
}

/// Reads an `i64` from text: see [`parsed_i64`].
pub fn parse_i64(text: &[u8]) -> (r: Option<i64>)
    ensures
        r == parsed_i64(text@),
{
    let signed = text.len() > 0 && (text[0] == 0x2d || text[0] == 0x2b);
    let negative = text.len() > 0 && text[0] == 0x2d;
    let start: usize = if signed {
        1
    } else {
        0
    };
    let digits = &text[start..text.len()];
    assert(digits@ =~= if signed {
        text@.drop_first()
    } else {
        text@
    });
    if digits.len() == 0 {
        return None;
    }
    let limit: u64 = if negative {
        0x8000_0000_0000_0000
    } else {
        0x7fff_ffff_ffff_ffff
    };
    let mut value: u64 = 0;
    let mut i: usize = 0;
    while i < digits.len()
        invariant
            i <= digits@.len(),
            digits@.len() > 0,
            value == crate::text::digits_value(digits@.subrange(0, i as int)),
            value <= limit,
            limit == if negative {
                0x8000_0000_0000_0000u64
            } else {
                0x7fff_ffff_ffff_ffffu64
            },
            negative == (text@.len() > 0 && text@[0] == 0x2d),
            signed == (text@.len() > 0 && (text@[0] == 0x2d || text@[0] == 0x2b)),
            digits@ == if signed {
                text@.drop_first()
            } else {
                text@
            },
            forall|k: int| 0 <= k < i ==> 0x30 <= #[trigger] digits@[k] <= 0x39,
        decreases digits@.len() - i,
    {
        let d = digits[i];
        if d < 0x30 || d > 0x39 {
            assert(!(0x30 <= digits@[i as int] <= 0x39));
            return None;
        }
        assert(digits@.subrange(0, i + 1).drop_last() =~= digits@.subrange(0, i as int));
        assert(digits@.subrange(0, i + 1).last() == d);
        let next: u128 = value as u128 * 10 + (d - 0x30) as u128;
        if next > limit as u128 {
            proof {
                if crate::text::all_digits(digits@) {
                    crate::text::lemma_digits_value_grows(digits@, i + 1);
                }
            }
            return None;
        }
        value = next as u64;
        i += 1;
    }
    assert(digits@.subrange(0, digits@.len() as int) =~= digits@);
    if negative {
        if value == 0x8000_0000_0000_0000 {
            Some(i64::MIN)
        } else {
            Some(-(value as i64))
        }
    } else {
        Some(value as i64)
    }
}

/// The ids that a list of pieces names: every piece that, without the
/// white space around it, is a number.
pub open spec fn ids_of(list: Seq<Seq<u8>>) -> Seq<i64>
    decreases list.len(),
{
    if list.len() == 0 {
        Seq::empty()
    } else {
        match parsed_i64(encode_utf8(trimmed(crate::report::text_of(list.last())))) {
            Some(id) => ids_of(list.drop_last()).push(id),
            None => ids_of(list.drop_last()),
        }
    }
}

/// The ids of mutants that a list separated by commas names. What is no
/// number is passed over.
pub fn parse_ids(ids: &str) -> (r: Vec<i64>)
    ensures
        r@ == ids_of(pieces(encode_utf8(ids@), 0x2c)),
{
    let list = split_bytes(ids.as_bytes(), 0x2c);
    let ghost all = list@.map_values(|p: Vec<u8>| p@);
    let mut out: Vec<i64> = Vec::new();
    let mut k: usize = 0;
    assert(all.subrange(0, 0) =~= Seq::<Seq<u8>>::empty());
    while k < list.len()
        invariant
            k <= list@.len(),
            all == list@.map_values(|p: Vec<u8>| p@),
            out@ == ids_of(all.subrange(0, k as int)),
        decreases list@.len() - k,
    {
        assert(all.subrange(0, k + 1).drop_last() =~= all.subrange(0, k as int));
        assert(all.subrange(0, k + 1).last() == list@[k as int]@);
        let piece = crate::report::string_of(list[k].as_slice());
        match parse_i64(trim(piece.as_str()).as_bytes()) {
            Some(id) => {
                out.push(id);
            },
            None => {},
        }
        k += 1;
    }
    assert(all.subrange(0, list@.len() as int) =~= all);
    out
}

// ---------------------------------------------------------------------
// Targets that are tested together
// ---------------------------------------------------------------------
/// The test command and timeout of a target.
pub struct TestChoice {
    pub cmd: String,
    pub timeout: Option<u32>,
}

/// The two choices are the same command with the same timeout.
pub open spec fn same_choice(a: TestChoice, b: TestChoice) -> bool {
    a.cmd@ == b.cmd@ && a.timeout == b.timeout
}

/// The groups are the targets by their choice of test: every target is in
/// a group, a group holds targets of one choice in their order, and no
/// two groups have the same choice. The groups stand in the order of their
/// first targets.
pub open spec fn is_grouping(choices: Seq<TestChoice>, groups: Seq<Vec<usize>>) -> bool {
    &&& forall|g: int| 0 <= g < groups.len() ==> (#[trigger] groups[g])@.len() > 0
    &&& forall|g: int, k: int|
        0 <= g < groups.len() && 0 <= k < groups[g]@.len() ==> (#[trigger] groups[g]@[k])
            < choices.len() && same_choice(
            choices[groups[g]@[k] as int],
            choices[groups[g]@[0] as int],
        )
    &&& forall|g: int, k: int|
        0 <= g < groups.len() && 0 <= k < groups[g]@.len() - 1 ==> (#[trigger] groups[g]@[k])
            < groups[g]@[k + 1]
    &&& forall|g: int, h: int|
        0 <= g < h < groups.len() ==> !same_choice(
            choices[(#[trigger] groups[g])@[0] as int],
            choices[(#[trigger] groups[h])@[0] as int],
        ) && groups[g]@[0] < groups[h]@[0]
    &&& forall|i: int| 0 <= i < choices.len() ==> is_grouped(groups, i)
}

/// Target `i` is in one of the groups.
pub open spec fn is_grouped(groups: Seq<Vec<usize>>, i: int) -> bool {
    exists|g: int, k: int| 0 <= g < groups.len() && 0 <= k < groups[g]@.len() && groups[g]@[k] == i
}

/// Whether two choices are the same.
fn choices_equal(a: &TestChoice, b: &TestChoice) -> (r: bool)
    ensures
        r == same_choice(*a, *b),
{
    let same_timeout = match (a.timeout, b.timeout) {
        (Some(x), Some(y)) => x == y,
        (None, None) => true,
        _ => false,
    };
    str_eq(a.cmd.as_str(), b.cmd.as_str()) && same_timeout
}

/// A grouping stays one when the next target joins the group of its choice.
#[verifier::spinoff_prover]
#[verifier::rlimit(50)]
proof fn lemma_group_extended(
    seen: Seq<TestChoice>,
    next: TestChoice,
    before: Seq<Vec<usize>>,
    after: Seq<Vec<usize>>,
    g: int,
)
    requires
        is_grouping(seen, before),
        0 <= g < before.len(),
        after.len() == before.len(),
        after[g]@ == before[g]@.push(seen.len() as usize),
        forall|h: int| 0 <= h < before.len() && h != g ==> after[h] == before[h],
        same_choice(seen[before[g]@[0] as int], next),
        seen.len() < usize::MAX,
    ensures
        is_grouping(seen.push(next), after),
{
    let now = seen.push(next);
    let i = seen.len() as int;
    let old_group = before[g]@;
    assert(old_group.len() > 0);
    assert forall|h: int| 0 <= h < after.len() implies (#[trigger] after[h])@.len() > 0 by {
        if h != g {
            assert(after[h] == before[h]);
        }
    }
    assert forall|h: int, k: int|
        0 <= h < after.len() && 0 <= k < after[h]@.len() implies (#[trigger] after[h]@[k])
        < now.len() && same_choice(now[after[h]@[k] as int], now[after[h]@[0] as int]) by {
        if h == g {
            assert(after[h]@[0] == old_group[0]);
            assert(old_group[0] < seen.len());
            if k < old_group.len() {
                assert(after[h]@[k] == old_group[k]);
                assert(old_group[k] < seen.len());
            }
        } else {
            assert(after[h] == before[h]);
            assert(before[h]@[k] < seen.len());
            assert(before[h]@[0] < seen.len());
        }
    }
    assert forall|h: int, k: int|
        0 <= h < after.len() && 0 <= k < after[h]@.len() - 1 implies (#[trigger] after[h]@[k])
        < after[h]@[k + 1] by {
        if h == g {
            assert(after[h]@[k] == old_group[k]);
            assert(old_group[k] < seen.len());
            if k + 1 < old_group.len() {
                assert(after[h]@[k + 1] == old_group[k + 1]);
            }
        } else {
            assert(after[h] == before[h]);
        }
    }
    assert forall|a: int, b: int| 0 <= a < b < after.len() implies !same_choice(
        now[(#[trigger] after[a])@[0] as int],
        now[(#[trigger] after[b])@[0] as int],
    ) && after[a]@[0] < after[b]@[0] by {
        assert(before[a]@.len() > 0 && before[b]@.len() > 0);
        assert(after[a]@[0] == before[a]@[0]);
        assert(after[b]@[0] == before[b]@[0]);
        assert(before[a]@[0] < seen.len() && before[b]@[0] < seen.len());
    }
    assert forall|j: int| 0 <= j < now.len() implies is_grouped(after, j) by {
        if j < i {
            assert(is_grouped(before, j));
            let (h, k) = choose|h: int, k: int|
                0 <= h < before.len() && 0 <= k < before[h]@.len() && before[h]@[k] == j;
            if h == g {
                assert(after[g]@[k] == old_group[k]);
            } else {
                assert(after[h] == before[h]);
            }
            assert(after[h]@[k] == j);
        } else {
            assert(after[g]@[old_group.len() as int] == j);
        }
    }
}

/// A grouping stays one when the next target, whose choice no group has,
/// starts a group of its own.
#[verifier::spinoff_prover]
#[verifier::rlimit(50)]
proof fn lemma_group_added(
    seen: Seq<TestChoice>,
    next: TestChoice,
    before: Seq<Vec<usize>>,
    after: Seq<Vec<usize>>,
)
    requires
        is_grouping(seen, before),
        after.len() == before.len() + 1,
        forall|h: int| 0 <= h < before.len() ==> after[h] == before[h],
        after[before.len() as int]@ == seq![seen.len() as usize],
        forall|h: int|
            0 <= h < before.len() ==> !same_choice(seen[(#[trigger] before[h])@[0] as int], next),
        seen.len() < usize::MAX,
    ensures
        is_grouping(seen.push(next), after),
{
    let now = seen.push(next);
    let i = seen.len() as int;
    let last = before.len() as int;
    assert forall|h: int| 0 <= h < after.len() implies (#[trigger] after[h])@.len() > 0 by {
        if h < last {
            assert(after[h] == before[h]);
        }
    }
    assert forall|h: int, k: int|
        0 <= h < after.len() && 0 <= k < after[h]@.len() implies (#[trigger] after[h]@[k])
        < now.len() && same_choice(now[after[h]@[k] as int], now[after[h]@[0] as int]) by {
        if h < last {
            assert(after[h] == before[h]);
            assert(before[h]@[k] < seen.len());
            assert(before[h]@[0] < seen.len());
        }
    }
    assert forall|h: int, k: int|
        0 <= h < after.len() && 0 <= k < after[h]@.len() - 1 implies (#[trigger] after[h]@[k])
        < after[h]@[k + 1] by {
        if h < last {
            assert(after[h] == before[h]);
        }
    }
    assert forall|a: int, b: int| 0 <= a < b < after.len() implies !same_choice(
        now[(#[trigger] after[a])@[0] as int],
        now[(#[trigger] after[b])@[0] as int],
    ) && after[a]@[0] < after[b]@[0] by {
        assert(after[a] == before[a]);
        assert(before[a]@.len() > 0);
        assert(before[a]@[0] < seen.len());
        if b < last {
            assert(after[b] == before[b]);
            assert(before[b]@.len() > 0);
            assert(before[b]@[0] < seen.len());
        }
    }
    assert forall|j: int| 0 <= j < now.len() implies is_grouped(after, j) by {
        if j < i {
            assert(is_grouped(before, j));
            let (h, k) = choose|h: int, k: int|
                0 <= h < before.len() && 0 <= k < before[h]@.len() && before[h]@[k] == j;
            assert(after[h] == before[h]);
            assert(after[h]@[k] == j);
        } else {
            assert(after[last]@[0] == j);
        }
    }
}

/// Groups targets by their test command and timeout: see [`is_grouping`].
/// Each group is tested against one baseline.
pub fn group_by_test(choices: &Vec<TestChoice>) -> (r: Vec<Vec<usize>>)
    ensures
        is_grouping(choices@, r@),
{
    let mut groups: Vec<Vec<usize>> = Vec::new();
    let mut i: usize = 0;
    while i < choices.len()
        invariant
            i <= choices@.len(),
            is_grouping(choices@.subrange(0, i as int), groups@),
        decreases choices@.len() - i,
    {
        let ghost before = groups@;
        let ghost seen = choices@.subrange(0, i as int);
        let ghost now = choices@.subrange(0, i + 1);
        let mut g: usize = 0;
        let mut found = false;
        while g < groups.len()
            invariant_except_break
                !found,
                forall|h: int|
                    0 <= h < g ==> !same_choice(
                        choices@[(#[trigger] groups@[h])@[0] as int],
                        choices@[i as int],
                    ),
            invariant
                g <= groups@.len(),
                i < choices@.len(),
                groups@ == before,
                seen == choices@.subrange(0, i as int),
                is_grouping(seen, before),
            ensures
                g <= groups@.len(),
                found ==> g < groups@.len() && same_choice(
                    choices@[groups@[g as int]@[0] as int],
                    choices@[i as int],
                ),
                !found ==> forall|h: int|
                    0 <= h < groups@.len() ==> !same_choice(
                        choices@[(#[trigger] groups@[h])@[0] as int],
                        choices@[i as int],
                    ),
            decreases groups@.len() - g,
        {
            assert(groups@[g as int]@.len() > 0);
            assert(groups@[g as int]@[0] < seen.len());
            let first = groups[g][0];
            assert(seen[first as int] == choices@[first as int]);
            if choices_equal(&choices[first], &choices[i]) {
                found = true;
                break ;
            }
            g += 1;
        }
        if found {
            let ghost old_group = groups@[g as int]@;
            let mut group: Vec<usize> = Vec::new();
            let mut k: usize = 0;
            while k < groups[g].len()
                invariant
                    k <= groups@[g as int]@.len(),
                    g < groups@.len(),
                    groups@ == before,
                    group@ == before[g as int]@.subrange(0, k as int),
                decreases groups@[g as int]@.len() - k,
            {
                group.push(groups[g][k]);
                assert(group@ =~= before[g as int]@.subrange(0, k + 1));
                k += 1;
            }
            assert(before[g as int]@.subrange(0, old_group.len() as int) =~= old_group);
            group.push(i);
            groups.set(g, group);
            proof {
                assert(groups@[g as int]@ =~= old_group.push(i));
                assert(now =~= seen.push(choices@[i as int]));
                assert(seen[before[g as int]@[0] as int] == choices@[before[g as int]@[0] as int]);
                lemma_group_extended(seen, choices@[i as int], before, groups@, g as int);
            }
        } else {
            let mut group: Vec<usize> = Vec::new();
            group.push(i);
            groups.push(group);
            proof {
                assert(groups@ =~= before.push(groups@[before.len() as int]));
                assert(groups@[before.len() as int]@ =~= seq![i]);
                assert(now =~= seen.push(choices@[i as int]));
                assert forall|h: int| 0 <= h < before.len() implies !same_choice(
                    seen[(#[trigger] before[h])@[0] as int],
                    choices@[i as int],
                ) by {
                    assert(before[h]@.len() > 0);
                    assert(before[h]@[0] < seen.len());
                    assert(seen[before[h]@[0] as int] == choices@[before[h]@[0] as int]);
                }
                lemma_group_added(seen, choices@[i as int], before, groups@);
            }
        }
        i += 1;
    }
    assert(choices@.subrange(0, choices@.len() as int) =~= choices@);
    groups
}

// ---------------------------------------------------------------------
// Stale targets, answers, and runtimes
// ---------------------------------------------------------------------
/// A target is stale where its file is gone or cannot be read, and where
/// the file holds another text than the one that was registered.
pub open spec fn stale(target: Target, current: Option<Seq<char>>) -> bool {
    match current {
        Some(text) => sha256(encode_utf8(text)) != target.file_hash@,
        None => true,
    }
}

/// Whether a target is stale, given the text that its file holds now.
pub fn is_stale(target: &Target, current_text: Option<String>) -> (r: bool)
    ensures
        r == stale(*target, crate::types::config::optional_view(current_text)),
{
    match current_text {
        Some(text) => !crate::types::hash::Hash::digest(text).same_as(&target.file_hash),
        None => true,
    }
}

/// The answer says yes: it is `y` or `yes`, in small or capital letters,
/// with or without white space around it.
pub open spec fn says_yes(answer: Seq<char>) -> bool {
    crate::text::lower_bytes(encode_utf8(trimmed(answer))) == encode_utf8("y"@)
        || crate::text::lower_bytes(encode_utf8(trimmed(answer))) == encode_utf8("yes"@)
}

/// Whether an answer says yes.
pub fn is_confirmation(answer: &str) -> (r: bool)
    ensures
        r == says_yes(answer@),
{
    let lower = to_lower(trim(answer).as_bytes());
    bytes_eq(lower.as_slice(), "y".as_bytes()) || bytes_eq(lower.as_slice(), "yes".as_bytes())
}

/// The runtime of the first `n` outcomes together, in milliseconds.
pub open spec fn runtime_upto(outcomes: Seq<OutcomeView>, n: nat) -> nat
    decreases n,
{
    if n == 0 {
        0
    } else {
        runtime_upto(outcomes, (n - 1) as nat) + outcomes[n - 1].duration_ms as nat
    }
}

/// The runtime of the outcomes together, in milliseconds; the greatest
/// `u64` where the sum is greater.
pub fn total_duration(outcomes: &Vec<Outcome>) -> (r: u64)
    ensures
        r == if runtime_upto(crate::store::outcome_views(outcomes@), outcomes@.len()) > u64::MAX {
            u64::MAX as nat
        } else {
            runtime_upto(crate::store::outcome_views(outcomes@), outcomes@.len())
        },
{
    let ghost views = crate::store::outcome_views(outcomes@);
    let mut total: u64 = 0;
    let mut k: usize = 0;
    while k < outcomes.len()
        invariant
            k <= outcomes@.len(),
            views == crate::store::outcome_views(outcomes@),
            total == if runtime_upto(views, k as nat) > u64::MAX {
                u64::MAX as nat
            } else {
                runtime_upto(views, k as nat)
            },
        decreases outcomes@.len() - k,
    {
        assert(views[k as int] == outcomes@[k as int]@);
        let more = outcomes[k].duration_ms as u64;
        total = if total > u64::MAX - more {
            u64::MAX
        } else {
            total + more
        };
        k += 1;
    }
    total
}

} // verus!
