//! The Inbox: which pull requests its rows show, under which header, and in
//! what order.
use vstd::prelude::*;

use crate::api::{field_matches, PrGroups, PrSummary};
use crate::github::{priority_order, PrGroup, Priority};
use crate::inbox_rows::{
    belongs, gathered, inbox_rows, lemma_listing_is_strict, listing, matching_pr_is_listed,
    rows_upto, section_folded, section_members, section_members_are_ordered, section_of,
    section_order, section_rows, InboxSection, RowView,
};
use crate::sort::{
    lexically_less, stable_order_keeps_ties, stable_order_sorts, text_order_is_lexical,
};
use crate::text::{contained, decimal, found_at, lowercased};

verus! {

/// Whether priority `a` is more urgent than `b`; none is the least urgent.
pub open spec fn outranks(a: Option<Priority>, b: Option<Priority>) -> bool {
    match a {
        Some(Priority::High) => b != Some(Priority::High),
        Some(Priority::Medium) => b == Some(Priority::Low) || b is None,
        Some(Priority::Low) => b is None,
        None => false,
    }
}

/// Whether a machine wrote the pull request: it is flagged so, or the login
/// ends in `[bot]`.
pub open spec fn by_machine(pr: PrSummary) -> bool {
    pr.author_is_bot || exists|login: Seq<char>| pr.author@ == #[trigger] (login + "[bot]"@)
}

/// Whether others look at the pull requests of a group too.
pub open spec fn shared(group: PrGroup) -> bool {
    match group {
        PrGroup::ReviewNeeded | PrGroup::ReviewUpdate | PrGroup::ReviewDone | PrGroup::Other => true,
        _ => false,
    }
}

/// The section in which a pull request of `group` is to be found.
pub open spec fn home(group: PrGroup, pr: PrSummary) -> InboxSection {
    if shared(group) && by_machine(pr) {
        InboxSection::Dependencies
    } else {
        InboxSection::Group(group)
    }
}

/// Whether `text` has `wanted` in it, the case of letters aside.
pub open spec fn has_in_it(text: Seq<char>, wanted: Seq<char>) -> bool {
    exists|before: Seq<char>, after: Seq<char>| lowercased(text) == #[trigger] (before + lowercased(
        wanted,
    ) + after)
}

/// Whether the filter lets a pull request through.
pub open spec fn let_through(pr: PrSummary, filter: Seq<char>) -> bool {
    filter.len() == 0 || has_in_it(pr.title@, filter) || has_in_it(pr.author@, filter) || has_in_it(
        pr.owner@,
        filter,
    ) || has_in_it(pr.repo@, filter) || has_in_it(pr.id@, filter) || has_in_it(
        pr.next_action@,
        filter,
    ) || has_in_it(decimal(pr.number as nat), filter)
}

/// Whether a section is shut: as the user left it, else drafts, finished
/// reviews and dependencies are.
pub open spec fn shut(folds: Seq<Option<bool>>, section: InboxSection) -> bool {
    match folds[section.slot() as int] {
        Some(left) => left,
        None => match section {
            InboxSection::Dependencies => true,
            InboxSection::Group(PrGroup::Draft) => true,
            InboxSection::Group(PrGroup::ReviewDone) => true,
            _ => false,
        },
    }
}

/// The place of a section from the top.
pub open spec fn place(section: InboxSection) -> int {
    match section {
        InboxSection::Group(PrGroup::AuthoredActionNeeded) => 0,
        InboxSection::Group(PrGroup::AuthoredReadyToMerge) => 1,
        InboxSection::Group(PrGroup::AuthoredWaiting) => 2,
        InboxSection::Group(PrGroup::ReviewNeeded) => 3,
        InboxSection::Group(PrGroup::ReviewUpdate) => 4,
        InboxSection::Dependencies => 5,
        InboxSection::Group(PrGroup::ReviewDone) => 6,
        InboxSection::Group(PrGroup::Draft) => 7,
        InboxSection::Group(PrGroup::Other) => 8,
    }
}

/// How many pull requests of `group` are to be found in `section`.
pub open spec fn share(
    groups: PrGroups,
    group: PrGroup,
    section: InboxSection,
    filter: Seq<char>,
) -> nat {
    groups.members(group).filter(
        |pr: PrSummary| let_through(pr, filter) && home(group, pr) == section,
    ).len()
}

/// How many pull requests are to be found in `section`.
pub open spec fn total(groups: PrGroups, section: InboxSection, filter: Seq<char>) -> nat {
    share(groups, PrGroup::AuthoredActionNeeded, section, filter) + share(
        groups,
        PrGroup::AuthoredReadyToMerge,
        section,
        filter,
    ) + share(groups, PrGroup::AuthoredWaiting, section, filter) + share(
        groups,
        PrGroup::ReviewNeeded,
        section,
        filter,
    ) + share(groups, PrGroup::ReviewUpdate, section, filter) + share(
        groups,
        PrGroup::ReviewDone,
        section,
        filter,
    ) + share(groups, PrGroup::Draft, section, filter) + share(
        groups,
        PrGroup::Other,
        section,
        filter,
    )
}

/// Whether the row of `a` stands above the row of `b` under the same header.
pub open spec fn stands_above(rows: Seq<RowView>, a: Seq<char>, b: Seq<char>) -> bool {
    exists|i: int, j: int| #[trigger] rows_pair(rows, a, b, i, j)
}

pub open spec fn rows_pair(rows: Seq<RowView>, a: Seq<char>, b: Seq<char>, i: int, j: int) -> bool {
    &&& 0 <= i < j < rows.len()
    &&& rows[i] == (RowView::Pr { id: a })
    &&& rows[j] == (RowView::Pr { id: b })
    &&& forall|k: int| i < k < j ==> #[trigger] rows[k] is Pr
}

/// Whether row `h` is the header above row `i`.
pub open spec fn headed_by(rows: Seq<RowView>, h: int, i: int, section: InboxSection) -> bool {
    &&& 0 <= h < i < rows.len()
    &&& rows[h] is Header
    &&& rows[h]->section == section
    &&& forall|k: int| h < k < i ==> #[trigger] rows[k] is Pr
}

proof fn lemma_in_it(text: Seq<char>, wanted: Seq<char>)
    ensures
        has_in_it(text, wanted) <==> field_matches(text, lowercased(wanted)),
{
    let hay = lowercased(text);
    let needle = lowercased(wanted);
    if has_in_it(text, wanted) {
        let (before, after) = choose|before: Seq<char>, after: Seq<char>|
            lowercased(text) == #[trigger] (before + lowercased(wanted) + after);
        assert(hay.subrange(before.len() as int, (before.len() + needle.len()) as int) =~= needle);
        assert(found_at(hay, needle, before.len() as int));
    }
    if contained(hay, needle) {
        let at = choose|at: int| found_at(hay, needle, at);
        assert(hay =~= hay.take(at) + needle + hay.skip(at + needle.len()));
    }
}

pub(crate) proof fn lemma_let_through(pr: PrSummary, filter: Seq<char>)
    ensures
        let_through(pr, filter) <==> pr.passes(filter),
{
    lemma_in_it(pr.title@, filter);
    lemma_in_it(pr.author@, filter);
    lemma_in_it(pr.owner@, filter);
    lemma_in_it(pr.repo@, filter);
    lemma_in_it(pr.id@, filter);
    lemma_in_it(pr.next_action@, filter);
    lemma_in_it(decimal(pr.number as nat), filter);
}

proof fn lemma_home(group: PrGroup, pr: PrSummary)
    ensures
        home(group, pr) == section_of(group, pr),
{
    reveal_strlit("[bot]");
    let name = pr.author@;
    let from = name.len() - "[bot]"@.len();
    if exists|login: Seq<char>| name == #[trigger] (login + "[bot]"@) {
        let login = choose|login: Seq<char>| name == #[trigger] (login + "[bot]"@);
        assert(name.subrange(from, from + "[bot]"@.len()) =~= "[bot]"@);
        assert(found_at(name, "[bot]"@, from));
    }
    if found_at(name, "[bot]"@, from) {
        assert(name =~= name.take(from) + "[bot]"@);
    }
}

proof fn lemma_belongs(group: PrGroup, pr: PrSummary, section: InboxSection, filter: Seq<char>)
    ensures
        belongs(group, pr, section, filter) <==> let_through(pr, filter) && home(group, pr)
            == section,
{
    lemma_let_through(pr, filter);
    lemma_home(group, pr);
}

proof fn lemma_groups()
    ensures
        priority_order() =~= seq![
            PrGroup::AuthoredActionNeeded,
            PrGroup::AuthoredReadyToMerge,
            PrGroup::AuthoredWaiting,
            PrGroup::ReviewNeeded,
            PrGroup::ReviewUpdate,
            PrGroup::ReviewDone,
            PrGroup::Draft,
            PrGroup::Other,
        ],
        forall|g: PrGroup| #[trigger] priority_order().contains(g),
{
    assert forall|g: PrGroup| #[trigger] priority_order().contains(g) by {
        let i: int = match g {
            PrGroup::AuthoredActionNeeded => 0,
            PrGroup::AuthoredReadyToMerge => 1,
            PrGroup::AuthoredWaiting => 2,
            PrGroup::ReviewNeeded => 3,
            PrGroup::ReviewUpdate => 4,
            PrGroup::ReviewDone => 5,
            PrGroup::Draft => 6,
            PrGroup::Other => 7,
        };
        assert(priority_order()[i] == g);
    }
}

proof fn lemma_order()
    ensures
        section_order().len() == 9,
        forall|k: int| 0 <= k < 9 ==> place(#[trigger] section_order()[k]) == k,
        forall|s: InboxSection| section_order()[#[trigger] place(s)] == s,
{
}

proof fn lemma_folded(folds: Seq<Option<bool>>, section: InboxSection)
    ensures
        shut(folds, section) == section_folded(folds, section),
{
}

spec fn part(groups: PrGroups, folds: Seq<Option<bool>>, filter: Seq<char>, k: int) -> Seq<RowView> {
    section_rows(
        section_members(groups, section_order()[k], filter),
        section_order()[k],
        section_folded(folds, section_order()[k]),
    )
}

spec fn offset(groups: PrGroups, folds: Seq<Option<bool>>, filter: Seq<char>, k: int) -> int {
    rows_upto(groups, folds, filter, k).len() as int
}

proof fn lemma_part(
    groups: PrGroups,
    folds: Seq<Option<bool>>,
    filter: Seq<char>,
    n: int,
    k: int,
    i: int,
)
    requires
        0 <= k < n <= 9,
        0 <= i < part(groups, folds, filter, k).len(),
    ensures
        0 <= offset(groups, folds, filter, k) + i < offset(groups, folds, filter, n),
        rows_upto(groups, folds, filter, n)[offset(groups, folds, filter, k) + i] == part(
            groups,
            folds,
            filter,
            k,
        )[i],
        offset(groups, folds, filter, k + 1) == offset(groups, folds, filter, k) + part(
            groups,
            folds,
            filter,
            k,
        ).len(),
    decreases n,
{
    lemma_order();
    if k < n - 1 {
        lemma_part(groups, folds, filter, n - 1, k, i);
    }
}

/// The section that row `r` of the first `n` belongs to.
proof fn lemma_row_part(
    groups: PrGroups,
    folds: Seq<Option<bool>>,
    filter: Seq<char>,
    n: int,
    r: int,
) -> (k: int)
    requires
        0 <= n <= 9,
        0 <= r < offset(groups, folds, filter, n),
    ensures
        0 <= k < n,
        0 <= r - offset(groups, folds, filter, k) < part(groups, folds, filter, k).len(),
    decreases n,
{
    lemma_order();
    if r >= offset(groups, folds, filter, n - 1) {
        n - 1
    } else {
        lemma_row_part(groups, folds, filter, n - 1, r)
    }
}

proof fn lemma_contains_at(groups: PrGroups, group: PrGroup, pr: PrSummary) -> (at: (int, int))
    requires
        groups.members(group).contains(pr),
    ensures
        0 <= at.0 < priority_order().len(),
        priority_order()[at.0] == group,
        0 <= at.1 < groups.members(group).len(),
        groups.members(group)[at.1] == pr,
{
    lemma_groups();
    assert(priority_order().contains(group));
    let g = choose|g: int| 0 <= g < priority_order().len() && priority_order()[g] == group;
    let i = choose|i: int|
        0 <= i < groups.members(group).len() && groups.members(group)[i] == pr;
    (g, i)
}

/// Under one header the more urgent pull request stands above the less urgent
/// one, and of two that are as urgent, or both without a priority, the one
/// updated last stands above the other.
pub proof fn urgent_then_recent_first(
    groups: PrGroups,
    folds: Seq<Option<bool>>,
    filter: Seq<char>,
    group_a: PrGroup,
    a: PrSummary,
    group_b: PrGroup,
    b: PrSummary,
)
    requires
        groups.members(group_a).contains(a),
        groups.members(group_b).contains(b),
        let_through(a, filter),
        let_through(b, filter),
        home(group_a, a) == home(group_b, b),
        !shut(folds, home(group_a, a)),
        outranks(a.llm_priority, b.llm_priority) || (a.llm_priority == b.llm_priority
            && lexically_less(b.updated_at@, a.updated_at@)),
    ensures
        stands_above(inbox_rows(groups, folds, filter), a.id@, b.id@),
{
    reveal(inbox_rows);
    lemma_order();
    let section = home(group_a, a);
    lemma_home(group_a, a);
    lemma_home(group_b, b);
    lemma_let_through(a, filter);
    lemma_let_through(b, filter);
    let (ga, ia) = lemma_contains_at(groups, group_a, a);
    let (gb, ib) = lemma_contains_at(groups, group_b, b);
    matching_pr_is_listed(groups, filter, ga, ia);
    matching_pr_is_listed(groups, filter, gb, ib);
    section_members_are_ordered(groups, section, filter);
    let members = section_members(groups, section, filter);
    let i = choose|i: int| 0 <= i < members.len() && members[i] == a;
    let j = choose|j: int| 0 <= j < members.len() && members[j] == b;
    text_order_is_lexical(b.updated_at@, a.updated_at@);
    assert(listing()(a, b));
    lemma_listing_is_strict();
    assert(!listing()(b, a));
    assert(i < j) by {
        if j < i {
            assert(!listing()(members[i], members[j]));
        }
    }
    let k = place(section);
    let rows = rows_upto(groups, folds, filter, 9);
    let o = offset(groups, folds, filter, k);
    lemma_folded(folds, section);
    let own = part(groups, folds, filter, k);
    assert(own.len() == 1 + members.len());
    assert forall|r: int| 0 <= r < members.len() implies #[trigger] rows[o + 1 + r] == (RowView::Pr {
        id: members[r].id@,
    }) by {
        lemma_part(groups, folds, filter, 9, k, 1 + r);
    }
    lemma_part(groups, folds, filter, 9, k, 1 + j);
    lemma_part(groups, folds, filter, 9, k, 1 + i);
    assert(rows[o + 1 + i] == (RowView::Pr { id: a.id@ }));
    assert(rows[o + 1 + j] == (RowView::Pr { id: b.id@ }));
    assert forall|r: int| o + 1 + i < r < o + 1 + j implies #[trigger] rows[r] is Pr by {
        assert(rows[o + 1 + (r - o - 1)] is Pr);
    }
    assert(rows_pair(rows, a.id@, b.id@, o + 1 + i, o + 1 + j));
}

/// Every row of a pull request stands under the header of its own section, and
/// shows one that the filter lets through, in a section that is not shut.
pub proof fn row_stands_in_its_section(
    groups: PrGroups,
    folds: Seq<Option<bool>>,
    filter: Seq<char>,
    r: int,
)
    requires
        0 <= r < inbox_rows(groups, folds, filter).len(),
        inbox_rows(groups, folds, filter)[r] is Pr,
    ensures
        exists|h: int, group: PrGroup, pr: PrSummary|
            {
                &&& #[trigger] groups.members(group).contains(pr)
                &&& pr.id@ == inbox_rows(groups, folds, filter)[r]->id
                &&& let_through(pr, filter)
                &&& !shut(folds, home(group, pr))
                &&& #[trigger] headed_by(
                    inbox_rows(groups, folds, filter),
                    h,
                    r,
                    home(group, pr),
                )
            },
{
    reveal(inbox_rows);
    lemma_order();
    let rows = rows_upto(groups, folds, filter, 9);
    let k = lemma_row_part(groups, folds, filter, 9, r);
    let section = section_order()[k];
    let members = section_members(groups, section, filter);
    let o = offset(groups, folds, filter, k);
    lemma_folded(folds, section);
    lemma_part(groups, folds, filter, 9, k, r - o);
    lemma_part(groups, folds, filter, 9, k, 0);
    let i = r - o - 1;
    let pr = members[i];
    section_members_are_ordered(groups, section, filter);
    let g = choose|g: int|
        0 <= g < priority_order().len() && groups.members(#[trigger] priority_order()[g]).contains(
            section_members(groups, section, filter)[i],
        ) && belongs(priority_order()[g], section_members(groups, section, filter)[i], section, filter);
    let group = priority_order()[g];
    lemma_belongs(group, pr, section, filter);
    assert forall|j: int| o < j < r implies #[trigger] rows[j] is Pr by {
        lemma_part(groups, folds, filter, 9, k, j - o);
    }
    assert(headed_by(rows, o, r, home(group, pr)));
    assert(groups.members(group).contains(pr));
}

proof fn lemma_share(groups: PrGroups, section: InboxSection, filter: Seq<char>, n: int)
    requires
        0 < n <= priority_order().len(),
    ensures
        gathered(groups, section, filter, n).len() == gathered(groups, section, filter, n - 1).len()
            + share(groups, priority_order()[n - 1], section, filter),
{
    let group = priority_order()[n - 1];
    let mine = |pr: PrSummary| let_through(pr, filter) && home(group, pr) == section;
    let theirs = |pr: PrSummary| belongs(group, pr, section, filter);
    assert forall|pr: PrSummary| #[trigger] mine(pr) == theirs(pr) by {
        lemma_belongs(group, pr, section, filter);
    }
    lemma_filter_agrees(groups.members(group), mine, theirs);
}

proof fn lemma_filter_agrees<T>(s: Seq<T>, p: spec_fn(T) -> bool, q: spec_fn(T) -> bool)
    requires
        forall|x: T| #[trigger] p(x) == q(x),
    ensures
        s.filter(p) == s.filter(q),
    decreases s.len(),
{
    reveal(Seq::filter);
    if s.len() > 0 {
        lemma_filter_agrees(s.drop_last(), p, q);
        assert(p(s.last()) == q(s.last()));
    }
}

proof fn lemma_total(groups: PrGroups, section: InboxSection, filter: Seq<char>)
    ensures
        section_members(groups, section, filter).len() == total(groups, section, filter),
{
    lemma_groups();
    lemma_listing_is_strict();
    stable_order_sorts(gathered(groups, section, filter, 8), listing());
    assert(gathered(groups, section, filter, 0).len() == 0);
    lemma_share(groups, section, filter, 1);
    lemma_share(groups, section, filter, 2);
    lemma_share(groups, section, filter, 3);
    lemma_share(groups, section, filter, 4);
    lemma_share(groups, section, filter, 5);
    lemma_share(groups, section, filter, 6);
    lemma_share(groups, section, filter, 7);
    lemma_share(groups, section, filter, 8);
}

/// A section has a header just where some pull request is to be found in it.
/// The header counts them all and says whether the section is shut. Below it
/// stand as many rows as it counts, none where it is shut, and then the next
/// header.
pub proof fn header_tells_its_section(
    groups: PrGroups,
    folds: Seq<Option<bool>>,
    filter: Seq<char>,
    section: InboxSection,
)
    requires
        total(groups, section, filter) <= usize::MAX,
    ensures
        ({
            let rows = inbox_rows(groups, folds, filter);
            let n = total(groups, section, filter);
            let below: int = if shut(folds, section) {
                0
            } else {
                n as int
            };
            &&& n == 0 ==> forall|i: int|
                0 <= i < rows.len() ==> !((#[trigger] rows[i]) is Header && rows[i]->section
                    == section)
            &&& n > 0 ==> exists|h: int|
                {
                    &&& 0 <= h && h + below < rows.len()
                    &&& #[trigger] rows[h] == (RowView::Header {
                        section,
                        count: n as usize,
                        collapsed: shut(folds, section),
                    })
                    &&& forall|i: int| h < i <= h + below ==> #[trigger] rows[i] is Pr
                    &&& h + below + 1 < rows.len() ==> rows[h + below + 1] is Header
                }
        }),
{
    reveal(inbox_rows);
    lemma_order();
    lemma_total(groups, section, filter);
    lemma_folded(folds, section);
    if section_members(groups, section, filter).len() == 0 {
        lemma_no_header(groups, folds, filter, section);
    } else {
        lemma_header(groups, folds, filter, section);
        let rows = rows_upto(groups, folds, filter, 9);
        let h = offset(groups, folds, filter, place(section));
        assert(rows[h] is Header);
    }
}

proof fn lemma_no_header(
    groups: PrGroups,
    folds: Seq<Option<bool>>,
    filter: Seq<char>,
    section: InboxSection,
)
    requires
        section_members(groups, section, filter).len() == 0,
    ensures
        ({
            let rows = rows_upto(groups, folds, filter, 9);
            forall|i: int|
                0 <= i < rows.len() ==> !((#[trigger] rows[i]) is Header && rows[i]->section
                    == section)
        }),
{
    lemma_order();
    let rows = rows_upto(groups, folds, filter, 9);
    assert forall|i: int| 0 <= i < rows.len() implies !((#[trigger] rows[i]) is Header
        && rows[i]->section == section) by {
        let j = lemma_row_part(groups, folds, filter, 9, i);
        lemma_part(groups, folds, filter, 9, j, i - offset(groups, folds, filter, j));
        assert(place(section_order()[j]) == j);
    }
}

proof fn lemma_header(
    groups: PrGroups,
    folds: Seq<Option<bool>>,
    filter: Seq<char>,
    section: InboxSection,
)
    requires
        section_members(groups, section, filter).len() > 0,
    ensures
        ({
            let rows = rows_upto(groups, folds, filter, 9);
            let n = section_members(groups, section, filter).len();
            let below: int = if section_folded(folds, section) {
                0
            } else {
                n as int
            };
            let h = offset(groups, folds, filter, place(section));
            &&& 0 <= h && h + below < rows.len()
            &&& rows[h] == (RowView::Header {
                section,
                count: n as usize,
                collapsed: section_folded(folds, section),
            })
            &&& forall|i: int| h < i <= h + below ==> #[trigger] rows[i] is Pr
            &&& h + below + 1 < rows.len() ==> rows[h + below + 1] is Header
        }),
{
    lemma_order();
    let rows = rows_upto(groups, folds, filter, 9);
    let n = section_members(groups, section, filter).len();
    let k = place(section);
    let o = offset(groups, folds, filter, k);
    let own = part(groups, folds, filter, k);
    let below: int = if section_folded(folds, section) {
        0
    } else {
        n as int
    };
    assert(own.len() == below + 1);
    lemma_part(groups, folds, filter, 9, k, 0);
    lemma_part(groups, folds, filter, 9, k, below);
    assert forall|i: int| o < i <= o + below implies #[trigger] rows[i] is Pr by {
        lemma_part(groups, folds, filter, 9, k, i - o);
    }
    if o + below + 1 < rows.len() {
        let j = lemma_row_part(groups, folds, filter, 9, o + below + 1);
        lemma_next_part(groups, folds, filter, k, j, o + below + 1);
        lemma_part(groups, folds, filter, 9, j, 0);
    }
}

proof fn lemma_offsets_grow(groups: PrGroups, folds: Seq<Option<bool>>, filter: Seq<char>, i: int, j: int)
    requires
        0 <= i <= j <= 9,
    ensures
        offset(groups, folds, filter, i) <= offset(groups, folds, filter, j),
    decreases j - i,
{
    lemma_order();
    if i < j {
        lemma_offsets_grow(groups, folds, filter, i, j - 1);
    }
}

proof fn lemma_next_part(
    groups: PrGroups,
    folds: Seq<Option<bool>>,
    filter: Seq<char>,
    k: int,
    j: int,
    r: int,
)
    requires
        0 <= k < 9,
        0 <= j < 9,
        r == offset(groups, folds, filter, k) + part(groups, folds, filter, k).len(),
        part(groups, folds, filter, k).len() > 0,
        0 <= r - offset(groups, folds, filter, j) < part(groups, folds, filter, j).len(),
    ensures
        offset(groups, folds, filter, j) == r,
{
    lemma_order();
    lemma_part(groups, folds, filter, 9, k, 0);
    if j < k {
        lemma_offsets_grow(groups, folds, filter, j + 1, k);
        lemma_part(groups, folds, filter, 9, j, 0);
    } else if j > k {
        lemma_offsets_grow(groups, folds, filter, k + 1, j);
    }
}

/// The sections stand in one order, the user's own work first, then reviews,
/// and the dependencies above what is finished or a draft.
pub proof fn sections_stand_in_order(
    groups: PrGroups,
    folds: Seq<Option<bool>>,
    filter: Seq<char>,
    i: int,
    j: int,
)
    requires
        0 <= i < j < inbox_rows(groups, folds, filter).len(),
        inbox_rows(groups, folds, filter)[i] is Header,
        inbox_rows(groups, folds, filter)[j] is Header,
    ensures
        place(inbox_rows(groups, folds, filter)[i]->section) < place(
            inbox_rows(groups, folds, filter)[j]->section,
        ),
{
    reveal(inbox_rows);
    lemma_order();
    let a = lemma_row_part(groups, folds, filter, 9, i);
    let b = lemma_row_part(groups, folds, filter, 9, j);
    lemma_part(groups, folds, filter, 9, a, i - offset(groups, folds, filter, a));
    lemma_part(groups, folds, filter, 9, b, j - offset(groups, folds, filter, b));
    if b < a {
        lemma_offsets_grow(groups, folds, filter, b + 1, a);
    }
    assert(place(section_order()[a]) == a);
    assert(place(section_order()[b]) == b);
}

/// Pull requests that are as urgent and were updated at the same time keep the
/// order in which they came.
pub proof fn ties_keep_their_order(
    groups: PrGroups,
    section: InboxSection,
    filter: Seq<char>,
    priority: Option<Priority>,
    time: Seq<char>,
)
    ensures
        section_members(groups, section, filter).filter(
            |pr: PrSummary| pr.llm_priority == priority && pr.updated_at@ == time,
        ) == gathered(groups, section, filter, priority_order().len() as int).filter(
            |pr: PrSummary| pr.llm_priority == priority && pr.updated_at@ == time,
        ),
{
    let tied = |pr: PrSummary| pr.llm_priority == priority && pr.updated_at@ == time;
    assert forall|a: PrSummary, b: PrSummary| tied(a) && tied(b) implies !#[trigger] listing()(
        a,
        b,
    ) by {
        lemma_listing_is_strict();
    }
    stable_order_keeps_ties(
        gathered(groups, section, filter, priority_order().len() as int),
        listing(),
        tied,
    );
}

} // verus!
