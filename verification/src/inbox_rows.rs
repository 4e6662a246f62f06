//! The rows of the Inbox: which section each pull request stands in, in what
//! order, and which row the cursor rests on.
use vstd::prelude::*;

use crate::api::{PrGroups, PrListResponse, PrSummary};
use crate::github::{priority_order, PrGroup, Priority};
use crate::sort::{
    comes_before, in_order, lemma_insert_at, stable_order, stable_order_sorts, strict_order,
    text_before, text_order_is_asymmetric, text_order_is_transitive,
};
use crate::markdown::opt_text;
use crate::text::{chars_of, found_at, has_prefix, same_text, string_of};

verus! {

/// A rendered section of the Inbox. Most map one to one to a group;
/// `Dependencies` is synthetic: bot-authored pull requests pulled out of the
/// review lanes so they don't bury human review work.
#[derive(Debug, Clone, Copy, PartialEq, Eq, Hash, Structural)]
pub enum InboxSection {
    Group(PrGroup),
    Dependencies,
}

/// The sections from top to bottom.
pub open spec fn section_order() -> Seq<InboxSection> {
    seq![
        InboxSection::Group(PrGroup::AuthoredActionNeeded),
        InboxSection::Group(PrGroup::AuthoredReadyToMerge),
        InboxSection::Group(PrGroup::AuthoredWaiting),
        InboxSection::Group(PrGroup::ReviewNeeded),
        InboxSection::Group(PrGroup::ReviewUpdate),
        InboxSection::Dependencies,
        InboxSection::Group(PrGroup::ReviewDone),
        InboxSection::Group(PrGroup::Draft),
        InboxSection::Group(PrGroup::Other),
    ]
}

impl InboxSection {
    pub open spec fn label_spec(self) -> Seq<char> {
        match self {
            InboxSection::Group(PrGroup::AuthoredActionNeeded) => "MINE — ACTION NEEDED"@,
            InboxSection::Group(PrGroup::AuthoredReadyToMerge) => "MINE — READY TO MERGE"@,
            InboxSection::Group(PrGroup::AuthoredWaiting) => "MINE — WAITING"@,
            InboxSection::Group(PrGroup::ReviewNeeded) => "REVIEW — BLOCKED ON ME"@,
            InboxSection::Group(PrGroup::ReviewUpdate) => "REVIEW — NEW COMMITS"@,
            InboxSection::Group(PrGroup::ReviewDone) => "REVIEW — DONE"@,
            InboxSection::Group(PrGroup::Draft) => "DRAFTS"@,
            InboxSection::Group(PrGroup::Other) => "INVOLVED"@,
            InboxSection::Dependencies => "DEPENDENCIES"@,
        }
    }

    /// Human-readable section header label.
    pub fn label(&self) -> (r: &'static str)
        ensures
            r@ == self.label_spec(),
    {
        match self {
            InboxSection::Group(PrGroup::AuthoredActionNeeded) => "MINE — ACTION NEEDED",
            InboxSection::Group(PrGroup::AuthoredReadyToMerge) => "MINE — READY TO MERGE",
            InboxSection::Group(PrGroup::AuthoredWaiting) => "MINE — WAITING",
            InboxSection::Group(PrGroup::ReviewNeeded) => "REVIEW — BLOCKED ON ME",
            InboxSection::Group(PrGroup::ReviewUpdate) => "REVIEW — NEW COMMITS",
            InboxSection::Group(PrGroup::ReviewDone) => "REVIEW — DONE",
            InboxSection::Group(PrGroup::Draft) => "DRAFTS",
            InboxSection::Group(PrGroup::Other) => "INVOLVED",
            InboxSection::Dependencies => "DEPENDENCIES",
        }
    }

    /// Sections that start folded on launch: low-signal buckets the user rarely
    /// needs open. A section without a fold state of its own inherits this.
    #[verifier::allow_in_spec]
    pub fn default_collapsed(&self) -> bool
        returns
            (*self == InboxSection::Group(PrGroup::ReviewDone) || *self == InboxSection::Group(
                PrGroup::Draft,
            ) || *self == InboxSection::Dependencies),
    {
        match self {
            InboxSection::Group(PrGroup::ReviewDone) => true,
            InboxSection::Group(PrGroup::Draft) => true,
            InboxSection::Dependencies => true,
            _ => false,
        }
    }

    /// Sections in render order. `Dependencies` sits between the review lane's
    /// active work and its done pile.
    pub fn render_order() -> (r: Vec<InboxSection>)
        ensures
            r@ == section_order(),
    {
        let mut r: Vec<InboxSection> = Vec::new();
        r.push(InboxSection::Group(PrGroup::AuthoredActionNeeded));
        r.push(InboxSection::Group(PrGroup::AuthoredReadyToMerge));
        r.push(InboxSection::Group(PrGroup::AuthoredWaiting));
        r.push(InboxSection::Group(PrGroup::ReviewNeeded));
        r.push(InboxSection::Group(PrGroup::ReviewUpdate));
        r.push(InboxSection::Dependencies);
        r.push(InboxSection::Group(PrGroup::ReviewDone));
        r.push(InboxSection::Group(PrGroup::Draft));
        r.push(InboxSection::Group(PrGroup::Other));
        proof {
            assert(r@ =~= section_order());
        }
        r
    }

    /// The section's place in a fold table.
    #[verifier::allow_in_spec]
    pub fn slot(&self) -> usize
        returns
            (match *self {
                InboxSection::Group(PrGroup::AuthoredActionNeeded) => 0usize,
                InboxSection::Group(PrGroup::AuthoredReadyToMerge) => 1usize,
                InboxSection::Group(PrGroup::AuthoredWaiting) => 2usize,
                InboxSection::Group(PrGroup::ReviewNeeded) => 3usize,
                InboxSection::Group(PrGroup::ReviewUpdate) => 4usize,
                InboxSection::Dependencies => 5usize,
                InboxSection::Group(PrGroup::ReviewDone) => 6usize,
                InboxSection::Group(PrGroup::Draft) => 7usize,
                InboxSection::Group(PrGroup::Other) => 8usize,
            }),
    {
        match self {
            InboxSection::Group(PrGroup::AuthoredActionNeeded) => 0,
            InboxSection::Group(PrGroup::AuthoredReadyToMerge) => 1,
            InboxSection::Group(PrGroup::AuthoredWaiting) => 2,
            InboxSection::Group(PrGroup::ReviewNeeded) => 3,
            InboxSection::Group(PrGroup::ReviewUpdate) => 4,
            InboxSection::Dependencies => 5,
            InboxSection::Group(PrGroup::ReviewDone) => 6,
            InboxSection::Group(PrGroup::Draft) => 7,
            InboxSection::Group(PrGroup::Other) => 8,
        }
    }
}

/// Every section stands in the render order exactly once, at its slot.
pub proof fn render_order_is_complete(section: InboxSection)
    ensures
        section_order().contains(section),
        section_order()[section.slot() as int] == section,
        section_order().no_duplicates(),
        section.slot() < section_order().len(),
{
    assert(section_order()[section.slot() as int] == section);
    assert forall|i: int, j: int| 0 <= i < j < section_order().len() implies section_order()[i]
        != section_order()[j] by {
        assert(section_order()[i].slot() == i);
        assert(section_order()[j].slot() == j);
    }
}

/// Fold states of the sections, by slot; `None` where a section has none of
/// its own.
#[derive(Debug, Clone, Copy)]
pub struct SectionFolds {
    pub slots: [Option<bool>; 9],
}

/// Whether `section` is folded: its own state, or the default.
pub open spec fn section_folded(folds: Seq<Option<bool>>, section: InboxSection) -> bool {
    match folds[section.slot() as int] {
        Some(b) => b,
        None => section.default_collapsed(),
    }
}

impl SectionFolds {
    pub open spec fn get_spec(self, section: InboxSection) -> Option<bool> {
        self.slots@[section.slot() as int]
    }

    /// Whether `section` is folded: its own state, or the default.
    pub open spec fn folded(self, section: InboxSection) -> bool {
        section_folded(self.slots@, section)
    }

    /// No section has a fold state of its own.
    pub fn new() -> (r: SectionFolds)
        ensures
            forall|s: InboxSection| #[trigger] r.get_spec(s) is None,
            r.slots@ == Seq::new(9, |i: int| None::<bool>),
    {
        let r = SectionFolds { slots: [None, None, None, None, None, None, None, None, None] };
        proof {
            assert(r.slots@ =~= Seq::new(9, |i: int| None::<bool>));
        }
        r
    }

    pub fn get(&self, section: InboxSection) -> (r: Option<bool>)
        ensures
            r == self.get_spec(section),
    {
        self.slots[section.slot()]
    }

    pub fn insert(&mut self, section: InboxSection, collapsed: bool)
        ensures
            final(self).slots@ == old(self).slots@.update(section.slot() as int, Some(collapsed)),
            final(self).get_spec(section) == Some(collapsed),
            forall|s: InboxSection|
                s != section ==> #[trigger] final(self).get_spec(s) == old(self).get_spec(s),
    {
        let i: usize = section.slot();
        self.slots[i] = Some(collapsed);
        proof {
            assert(self.slots@ =~= old(self).slots@.update(section.slot() as int, Some(collapsed)));
            assert forall|s: InboxSection| s != section implies #[trigger] self.get_spec(s)
                == old(self).get_spec(s) by {
                render_order_is_complete(s);
                render_order_is_complete(section);
            }
        }
    }

    /// Whether `section` is folded: its own state, or the default.
    pub fn is_collapsed(&self, section: InboxSection) -> (r: bool)
        ensures
            r == self.folded(section),
    {
        match self.get(section) {
            Some(b) => b,
            None => section.default_collapsed(),
        }
    }
}

/// One rendered line of the Inbox body, in display order.
///
/// A `Header` is always emitted for a non-empty section, even when collapsed;
/// its `count` is the number of the section's pull requests regardless of
/// fold state. When `collapsed`, the section's `Pr` rows are omitted.
#[derive(Debug, Clone, PartialEq)]
pub enum InboxRow {
    Header { section: InboxSection, count: usize, collapsed: bool },
    Pr { id: String },
}

/// An Inbox row over the characters of its identifier.
#[verifier::ext_equal]
pub enum RowView {
    Header { section: InboxSection, count: usize, collapsed: bool },
    Pr { id: Seq<char> },
}

impl View for InboxRow {
    type V = RowView;

    open spec fn view(&self) -> RowView {
        match *self {
            InboxRow::Header { section, count, collapsed } => RowView::Header {
                section,
                count,
                collapsed,
            },
            InboxRow::Pr { id } => RowView::Pr { id: id@ },
        }
    }
}

pub open spec fn rows_view(rows: Seq<InboxRow>) -> Seq<RowView> {
    rows.map_values(|r: InboxRow| r@)
}

fn push_row(rows: &mut Vec<InboxRow>, row: InboxRow)
    ensures
        rows_view(final(rows)@) == rows_view(old(rows)@).push(row@),
{
    rows.push(row);
    proof {
        assert(rows_view(rows@) =~= rows_view(old(rows)@).push(row@));
    }
}

/// The Inbox cursor's identity. Section headers are selectable, so the cursor
/// can rest on a header (`Section`) or a pull-request row (`Pr`).
#[derive(Debug, Clone, PartialEq, Eq)]
pub enum InboxCursor {
    Section(InboxSection),
    Pr(String),
}

#[verifier::ext_equal]
pub enum CursorView {
    Section(InboxSection),
    Pr(Seq<char>),
}

impl View for InboxCursor {
    type V = CursorView;

    open spec fn view(&self) -> CursorView {
        match *self {
            InboxCursor::Section(s) => CursorView::Section(s),
            InboxCursor::Pr(id) => CursorView::Pr(id@),
        }
    }
}

/// Rank of a priority, the most urgent first and none last.
#[verifier::allow_in_spec]
fn priority_rank(p: Option<Priority>) -> u8
    returns
        (match p {
            Some(Priority::High) => 0u8,
            Some(Priority::Medium) => 1u8,
            Some(Priority::Low) => 2u8,
            None => 3u8,
        }),
{
    match p {
        Some(Priority::High) => 0,
        Some(Priority::Medium) => 1,
        Some(Priority::Low) => 2,
        None => 3,
    }
}

/// Rank of a priority, the most urgent first and none last.
pub open spec fn rank(p: Option<Priority>) -> int {
    match p {
        Some(Priority::High) => 0,
        Some(Priority::Medium) => 1,
        Some(Priority::Low) => 2,
        None => 3,
    }
}

/// Whether `a` is listed above `b`: by priority, then the most recently
/// updated first.
pub open spec fn listed_before(a: PrSummary, b: PrSummary) -> bool {
    rank(a.llm_priority) < rank(b.llm_priority) || (rank(a.llm_priority) == rank(b.llm_priority)
        && text_before(b.updated_at@, a.updated_at@))
}

fn is_listed_before(a: &PrSummary, b: &PrSummary) -> (r: bool)
    ensures
        r == listed_before(*a, *b),
{
    let x: u8 = priority_rank(a.llm_priority);
    let y: u8 = priority_rank(b.llm_priority);
    x < y || (x == y && comes_before(b.updated_at.as_str(), a.updated_at.as_str()))
}

/// The listing order.
pub open spec fn listing() -> spec_fn(PrSummary, PrSummary) -> bool {
    |a: PrSummary, b: PrSummary| listed_before(a, b)
}

pub(crate) proof fn lemma_listing_is_strict()
    ensures
        strict_order(listing()),
{
    assert forall|a: PrSummary, b: PrSummary| #[trigger] listing()(a, b) implies !listing()(
        b,
        a,
    ) by {
        if text_before(b.updated_at@, a.updated_at@) {
            text_order_is_asymmetric(b.updated_at@, a.updated_at@);
        }
    }
    assert forall|a: PrSummary, b: PrSummary, c: PrSummary|
        !#[trigger] listing()(b, a) && !#[trigger] listing()(c, b) implies !listing()(c, a) by {
        if !text_before(a.updated_at@, b.updated_at@) && !text_before(
            b.updated_at@,
            c.updated_at@,
        ) {
            text_order_is_transitive(c.updated_at@, b.updated_at@, a.updated_at@);
        }
    }
}

/// True for machine authors: those flagged so, or whose login ends in `[bot]`.
pub open spec fn machine_author(pr: PrSummary) -> bool {
    pr.author_is_bot || found_at(pr.author@, "[bot]"@, pr.author@.len() - "[bot]"@.len())
}

fn is_bot_author(pr: &PrSummary) -> (r: bool)
    ensures
        r == machine_author(*pr),
{
    if pr.author_is_bot {
        return true;
    }
    let suffix = chars_of("[bot]");
    let author = chars_of(pr.author.as_str());
    if author.len() < suffix.len() {
        return false;
    }
    let from: usize = author.len() - suffix.len();
    let tail = chars_of(string_of(&author, from, author.len()).as_str());
    let r = has_prefix(&tail, "[bot]");
    proof {
        assert(tail@.subrange(0, suffix@.len() as int) =~= tail@);
        assert(pr.author@.subrange(from as int, from + "[bot]"@.len()) =~= tail@);
    }
    r
}

/// The lanes whose machine-authored pull requests go to `Dependencies`.
pub open spec fn shared_lane(group: PrGroup) -> bool {
    group == PrGroup::ReviewNeeded || group == PrGroup::ReviewUpdate || group
        == PrGroup::ReviewDone || group == PrGroup::Other
}

/// The section that a pull request of `group` stands in.
pub open spec fn section_of(group: PrGroup, pr: PrSummary) -> InboxSection {
    if shared_lane(group) && machine_author(pr) {
        InboxSection::Dependencies
    } else {
        InboxSection::Group(group)
    }
}

fn section_for(group: PrGroup, pr: &PrSummary) -> (r: InboxSection)
    ensures
        r == section_of(group, *pr),
{
    let shared = match group {
        PrGroup::ReviewNeeded | PrGroup::ReviewUpdate | PrGroup::ReviewDone | PrGroup::Other => {
            true
        },
        _ => false,
    };
    if shared && is_bot_author(pr) {
        InboxSection::Dependencies
    } else {
        InboxSection::Group(group)
    }
}

/// Whether `pr` of lane `group` is shown in `section` under the filter.
pub open spec fn belongs(
    group: PrGroup,
    pr: PrSummary,
    section: InboxSection,
    filter: Seq<char>,
) -> bool {
    pr.passes(filter) && section_of(group, pr) == section
}

/// The pull requests of `section` that pass the filter among the first `n`
/// groups, group after group.
pub open spec fn gathered(
    groups: PrGroups,
    section: InboxSection,
    filter: Seq<char>,
    n: int,
) -> Seq<PrSummary>
    decreases n,
{
    if n <= 0 {
        Seq::empty()
    } else {
        let group = priority_order()[n - 1];
        gathered(groups, section, filter, n - 1) + groups.members(group).filter(
            |pr: PrSummary| belongs(group, pr, section, filter),
        )
    }
}

/// The pull requests of `section` that pass the filter, in listing order.
pub open spec fn section_members(
    groups: PrGroups,
    section: InboxSection,
    filter: Seq<char>,
) -> Seq<PrSummary> {
    stable_order(gathered(groups, section, filter, priority_order().len() as int), listing())
}

/// The rows of one section: nothing where it is empty, else a header with the
/// number of its pull requests and, unless it is folded, a row for each.
pub open spec fn section_rows(
    members: Seq<PrSummary>,
    section: InboxSection,
    collapsed: bool,
) -> Seq<RowView> {
    if members.len() == 0 {
        Seq::empty()
    } else {
        let header = seq![RowView::Header { section, count: members.len() as usize, collapsed }];
        if collapsed {
            header
        } else {
            header + members.map_values(|pr: PrSummary| RowView::Pr { id: pr.id@ })
        }
    }
}

/// The rows of the first `n` sections.
pub open spec fn rows_upto(
    groups: PrGroups,
    folds: Seq<Option<bool>>,
    filter: Seq<char>,
    n: int,
) -> Seq<RowView>
    decreases n,
{
    if n <= 0 {
        Seq::empty()
    } else {
        let section = section_order()[n - 1];
        rows_upto(groups, folds, filter, n - 1) + section_rows(
            section_members(groups, section, filter),
            section,
            section_folded(folds, section),
        )
    }
}

/// The rows of the Inbox.
#[verifier::opaque]
pub open spec fn inbox_rows(groups: PrGroups, folds: Seq<Option<bool>>, filter: Seq<char>) -> Seq<
    RowView,
> {
    rows_upto(groups, folds, filter, section_order().len() as int)
}

proof fn lemma_filter_take<T>(s: Seq<T>, p: spec_fn(T) -> bool, i: int)
    requires
        0 <= i < s.len(),
    ensures
        s.take(i + 1).filter(p) == if p(s[i]) {
            s.take(i).filter(p).push(s[i])
        } else {
            s.take(i).filter(p)
        },
{
    reveal(Seq::filter);
    assert(s.take(i + 1).drop_last() =~= s.take(i));
}

fn gather<'a>(prs: &'a PrListResponse, section: InboxSection, filter: &str) -> (r: Vec<
    &'a PrSummary,
>)
    ensures
        r@.map_values(|p: &PrSummary| *p) == gathered(
            prs.groups,
            section,
            filter@,
            priority_order().len() as int,
        ),
{
    let order = PrGroup::all_in_priority_order();
    let mut out: Vec<&'a PrSummary> = Vec::new();
    let mut g: usize = 0;
    proof {
        assert(out@.map_values(|p: &PrSummary| *p) =~= gathered(prs.groups, section, filter@, 0));
    }
    while g < order.len()
        invariant
            g <= order@.len(),
            order@ == priority_order(),
            out@.map_values(|p: &PrSummary| *p) == gathered(
                prs.groups,
                section,
                filter@,
                g as int,
            ),
        decreases order@.len() - g,
    {
        let group = order[g];
        let ghost keep = |pr: PrSummary| belongs(group, pr, section, filter@);
        let ghost start = out@.map_values(|p: &PrSummary| *p);
        match prs.groups.get(group) {
            Some(list) => {
                let mut i: usize = 0;
                proof {
                    reveal(Seq::filter);
                    assert(list@.take(0).filter(keep) =~= Seq::empty());
                    assert(start + list@.take(0).filter(keep) =~= start);
                }
                while i < list.len()
                    invariant
                        i <= list@.len(),
                        keep == (|pr: PrSummary| belongs(group, pr, section, filter@)),
                        out@.map_values(|p: &PrSummary| *p) == start + list@.take(i as int).filter(
                            keep,
                        ),
                    decreases list@.len() - i,
                {
                    let pr: &'a PrSummary = &list[i];
                    let ghost before = out@;
                    proof {
                        lemma_filter_take(list@, keep, i as int);
                    }
                    if pr.matches_filter(filter) && section_for(group, pr) == section {
                        out.push(pr);
                        proof {
                            assert(out@.map_values(|p: &PrSummary| *p) =~= before.map_values(
                                |p: &PrSummary| *p,
                            ).push(*pr));
                            assert(out@.map_values(|p: &PrSummary| *p) =~= start + list@.take(
                                i + 1,
                            ).filter(keep));
                        }
                    }
                    i += 1;
                }
                proof {
                    assert(list@.take(list@.len() as int) =~= list@);
                }
            },
            None => {
                proof {
                    reveal(Seq::filter);
                    assert(start + Seq::<PrSummary>::empty().filter(keep) =~= start);
                }
            },
        }
        g += 1;
    }
    out
}

fn sort_members<'a>(list: Vec<&'a PrSummary>) -> (r: Vec<&'a PrSummary>)
    ensures
        r@.map_values(|p: &PrSummary| *p) == stable_order(
            list@.map_values(|p: &PrSummary| *p),
            listing(),
        ),
{
    let ghost items = list@.map_values(|p: &PrSummary| *p);
    let mut out: Vec<&'a PrSummary> = Vec::new();
    let mut n: usize = 0;
    proof {
        assert(items.take(0) =~= Seq::empty());
        assert(out@.map_values(|p: &PrSummary| *p) =~= stable_order(items.take(0), listing()));
    }
    while n < list.len()
        invariant
            n <= list@.len(),
            items == list@.map_values(|p: &PrSummary| *p),
            out@.map_values(|p: &PrSummary| *p) == stable_order(items.take(n as int), listing()),
        decreases list@.len() - n,
    {
        let x: &'a PrSummary = list[n];
        let ghost sorted = out@.map_values(|p: &PrSummary| *p);
        let mut p: usize = out.len();
        while p > 0 && is_listed_before(x, out[p - 1])
            invariant
                p <= out@.len(),
                sorted == out@.map_values(|p: &PrSummary| *p),
                forall|j: int| p <= j < sorted.len() ==> listed_before(*x, #[trigger] sorted[j]),
            decreases p,
        {
            p -= 1;
        }
        proof {
            assert(p > 0 ==> !listed_before(*x, sorted[p - 1]));
            lemma_insert_at(sorted, *x, p as int, listing());
            assert(items.take(n + 1).drop_last() =~= items.take(n as int));
            assert(items.take(n + 1).last() == *x);
        }
        out.insert(p, x);
        proof {
            assert(out@.map_values(|p: &PrSummary| *p) =~= sorted.insert(p as int, *x));
        }
        n += 1;
    }
    proof {
        assert(items.take(list@.len() as int) =~= items);
    }
    out
}

/// Build the Inbox row list (section headers and pull-request rows) in display
/// order. This is the only place that decides Inbox grouping and order.
pub fn build_inbox_rows(prs: &PrListResponse, collapsed: &SectionFolds, filter: &str) -> (r: Vec<
    InboxRow,
>)
    ensures
        rows_view(r@) == inbox_rows(prs.groups, collapsed.slots@, filter@),
{
    proof {
        reveal(inbox_rows);
    }
    let order = InboxSection::render_order();
    let mut rows: Vec<InboxRow> = Vec::new();
    let mut n: usize = 0;
    proof {
        assert(rows_view(rows@) =~= rows_upto(prs.groups, collapsed.slots@, filter@, 0));
    }
    while n < order.len()
        invariant
            n <= order@.len(),
            order@ == section_order(),
            rows_view(rows@) == rows_upto(prs.groups, collapsed.slots@, filter@, n as int),
        decreases order@.len() - n,
    {
        let section = order[n];
        let list = sort_members(gather(prs, section, filter));
        let ghost members = section_members(prs.groups, section, filter@);
        let ghost start = rows_view(rows@);
        let folded = collapsed.is_collapsed(section);
        if list.len() > 0 {
            push_row(
                &mut rows,
                InboxRow::Header { section, count: list.len(), collapsed: folded },
            );
            let ghost header = seq![
                RowView::Header { section, count: members.len() as usize, collapsed: folded },
            ];
            proof {
                assert(rows_view(rows@) =~= start + header);
            }
            if !folded {
                let mut i: usize = 0;
                let ghost ids = members.map_values(|pr: PrSummary| RowView::Pr { id: pr.id@ });
                proof {
                    assert(start + (header + ids.take(0)) =~= start + header);
                }
                while i < list.len()
                    invariant
                        i <= list@.len(),
                        list@.map_values(|p: &PrSummary| *p) == members,
                        ids == members.map_values(|pr: PrSummary| RowView::Pr { id: pr.id@ }),
                        rows_view(rows@) == start + (header + ids.take(i as int)),
                    decreases list@.len() - i,
                {
                    proof {
                        assert(members[i as int] == *list@[i as int]);
                    }
                    push_row(&mut rows, InboxRow::Pr { id: list[i].id.clone() });
                    i += 1;
                    proof {
                        assert(rows_view(rows@) =~= start + (header + ids.take(i as int)));
                    }
                }
                proof {
                    assert(ids.take(list@.len() as int) =~= ids);
                }
            }
        } else {
            proof {
                assert(members.len() == list@.map_values(|p: &PrSummary| *p).len());
                assert(start + Seq::<RowView>::empty() =~= start);
            }
        }
        n += 1;
    }
    rows
}

/// Whether a row is what the cursor rests on.
pub open spec fn row_is(row: RowView, cursor: CursorView) -> bool {
    match (row, cursor) {
        (RowView::Header { section, .. }, CursorView::Section(s)) => section == s,
        (RowView::Pr { id }, CursorView::Pr(cid)) => id == cid,
        _ => false,
    }
}

/// The first row from `i` on that the cursor rests on.
pub open spec fn cursor_row(rows: Seq<RowView>, cursor: CursorView, i: int) -> Option<int>
    decreases rows.len() - i,
{
    if i < 0 || i >= rows.len() {
        None
    } else if row_is(rows[i], cursor) {
        Some(i)
    } else {
        cursor_row(rows, cursor, i + 1)
    }
}

/// The first pull-request row from `i` on.
pub open spec fn first_pr_row(rows: Seq<RowView>, i: int) -> Option<int>
    decreases rows.len() - i,
{
    if i < 0 || i >= rows.len() {
        None
    } else if rows[i] is Pr {
        Some(i)
    } else {
        first_pr_row(rows, i + 1)
    }
}

/// The row a cursor stands on: the one it names, else the first pull request,
/// else the first row.
#[verifier::opaque]
pub open spec fn resolved_row(rows: Seq<RowView>, cursor: CursorView) -> int {
    match cursor_row(rows, cursor, 0) {
        Some(i) => i,
        None => match first_pr_row(rows, 0) {
            Some(i) => i,
            None => 0,
        },
    }
}

/// What a cursor on `row` names; `cursor` where there is no such row.
#[verifier::opaque]
pub open spec fn cursor_at(rows: Seq<RowView>, row: int, cursor: CursorView) -> CursorView {
    if 0 <= row < rows.len() {
        match rows[row] {
            RowView::Header { section, .. } => CursorView::Section(section),
            RowView::Pr { id } => CursorView::Pr(id),
        }
    } else {
        cursor
    }
}

/// The pull request that a cursor on `row` implies: the one of the row, or the
/// first of the section whose header it is; none where that is folded.
#[verifier::opaque]
pub open spec fn pr_at(rows: Seq<RowView>, row: int) -> Option<Seq<char>> {
    if 0 <= row < rows.len() {
        match rows[row] {
            RowView::Pr { id } => Some(id),
            RowView::Header { .. } => if row + 1 < rows.len() {
                match rows[row + 1] {
                    RowView::Pr { id } => Some(id),
                    RowView::Header { .. } => None,
                }
            } else {
                None
            },
        }
    } else {
        None
    }
}

fn row_matches(row: &InboxRow, cursor: &InboxCursor) -> (r: bool)
    ensures
        r == row_is(row@, cursor@),
{
    match (row, cursor) {
        (InboxRow::Header { section, .. }, InboxCursor::Section(s)) => *section == *s,
        (InboxRow::Pr { id }, InboxCursor::Pr(cid)) => same_text(id.as_str(), cid.as_str()),
        _ => false,
    }
}

/// Row index the cursor anchor resolves to in the current row list, if present.
pub fn resolve_cursor_row(rows: &Vec<InboxRow>, cursor: &InboxCursor) -> (r: Option<usize>)
    ensures
        (match r {
            Some(i) => i < rows@.len() && cursor_row(rows_view(rows@), cursor@, 0) == Some(
                i as int,
            ),
            None => cursor_row(rows_view(rows@), cursor@, 0) is None,
        }),
{
    let mut i: usize = 0;
    while i < rows.len()
        invariant
            i <= rows@.len(),
            cursor_row(rows_view(rows@), cursor@, 0) == cursor_row(
                rows_view(rows@),
                cursor@,
                i as int,
            ),
        decreases rows@.len() - i,
    {
        proof {
            assert(rows_view(rows@)[i as int] == rows@[i as int]@);
        }
        if row_matches(&rows[i], cursor) {
            return Some(i);
        }
        i += 1;
    }
    None
}

fn find_first_pr(rows: &Vec<InboxRow>) -> (r: Option<usize>)
    ensures
        (match r {
            Some(i) => i < rows@.len() && first_pr_row(rows_view(rows@), 0) == Some(i as int),
            None => first_pr_row(rows_view(rows@), 0) is None,
        }),
{
    let mut i: usize = 0;
    while i < rows.len()
        invariant
            i <= rows@.len(),
            first_pr_row(rows_view(rows@), 0) == first_pr_row(rows_view(rows@), i as int),
        decreases rows@.len() - i,
    {
        proof {
            assert(rows_view(rows@)[i as int] == rows@[i as int]@);
        }
        if let InboxRow::Pr { .. } = &rows[i] {
            return Some(i);
        }
        i += 1;
    }
    None
}

/// The row a cursor stands on: the one it names, else the first pull request,
/// else the first row.
pub fn find_row(rows: &Vec<InboxRow>, cursor: &InboxCursor) -> (r: usize)
    ensures
        r == resolved_row(rows_view(rows@), cursor@),
        rows@.len() > 0 ==> r < rows@.len(),
{
    proof {
        reveal(resolved_row);
    }
    match resolve_cursor_row(rows, cursor) {
        Some(i) => i,
        None => match find_first_pr(rows) {
            Some(i) => i,
            None => 0,
        },
    }
}

/// The cursor anchor identity for the row at `row`, if any.
pub fn cursor_of_row(rows: &Vec<InboxRow>, row: usize) -> (r: Option<InboxCursor>)
    ensures
        r is Some <==> row < rows@.len(),
        r matches Some(c) ==> forall|other: CursorView|
            c@ == #[trigger] cursor_at(rows_view(rows@), row as int, other),
{
    proof {
        reveal(cursor_at);
    }
    if row >= rows.len() {
        return None;
    }
    proof {
        assert(rows_view(rows@)[row as int] == rows@[row as int]@);
    }
    match &rows[row] {
        InboxRow::Header { section, .. } => Some(InboxCursor::Section(*section)),
        InboxRow::Pr { id } => Some(InboxCursor::Pr(id.clone())),
    }
}

/// The pull request whose detail the cursor implies: the one at `row` when it
/// is a pull-request row, otherwise the first one of the section whose header
/// sits at `row`; none when that section is folded.
pub fn selected_pr_for_row(rows: &Vec<InboxRow>, row: usize) -> (r: Option<String>)
    ensures
        opt_text(r) == pr_at(rows_view(rows@), row as int),
{
    proof {
        reveal(pr_at);
    }
    if row >= rows.len() {
        return None;
    }
    proof {
        assert(rows_view(rows@)[row as int] == rows@[row as int]@);
    }
    match &rows[row] {
        InboxRow::Pr { id } => Some(id.clone()),
        InboxRow::Header { .. } => {
            if rows.len() - row < 2 {
                return None;
            }
            proof {
                assert(rows_view(rows@)[row + 1] == rows@[row + 1]@);
            }
            match &rows[row + 1] {
                InboxRow::Pr { id } => Some(id.clone()),
                InboxRow::Header { .. } => None,
            }
        },
    }
}

proof fn lemma_cursor_row(rows: Seq<RowView>, cursor: CursorView, i: int)
    requires
        0 <= i,
    ensures
        (match cursor_row(rows, cursor, i) {
            Some(k) => i <= k < rows.len() && row_is(rows[k], cursor) && forall|j: int|
                i <= j < k ==> !row_is(#[trigger] rows[j], cursor),
            None => forall|j: int| i <= j < rows.len() ==> !row_is(#[trigger] rows[j], cursor),
        }),
    decreases rows.len() - i,
{
    if i < rows.len() && !row_is(rows[i], cursor) {
        lemma_cursor_row(rows, cursor, i + 1);
    }
}

/// A cursor that some row matches stays on it: wherever the row has moved to,
/// the cursor resolves to a row with the same identity.
pub proof fn cursor_follows_its_row(rows: Seq<RowView>, cursor: CursorView, at: int)
    requires
        0 <= at < rows.len(),
        row_is(rows[at], cursor),
    ensures
        0 <= resolved_row(rows, cursor) < rows.len(),
        row_is(rows[resolved_row(rows, cursor)], cursor),
        cursor_at(rows, resolved_row(rows, cursor), cursor) == cursor,
{
    reveal(resolved_row);
    reveal(cursor_at);
    lemma_cursor_row(rows, cursor, 0);
}

proof fn lemma_first_pr_row(rows: Seq<RowView>, i: int)
    requires
        0 <= i,
    ensures
        (match first_pr_row(rows, i) {
            Some(k) => i <= k < rows.len() && rows[k] is Pr && forall|j: int|
                i <= j < k ==> !(#[trigger] rows[j] is Pr),
            None => forall|j: int| i <= j < rows.len() ==> !(#[trigger] rows[j] is Pr),
        }),
    decreases rows.len() - i,
{
    if i < rows.len() && !(rows[i] is Pr) {
        lemma_first_pr_row(rows, i + 1);
    }
}

/// A cursor that no row matches any more falls back to the first pull-request
/// row, where there is one.
pub proof fn lost_cursor_falls_back(rows: Seq<RowView>, cursor: CursorView, pr: int)
    requires
        forall|j: int| 0 <= j < rows.len() ==> !row_is(#[trigger] rows[j], cursor),
        0 <= pr < rows.len(),
        rows[pr] is Pr,
    ensures
        resolved_row(rows, cursor) <= pr,
        rows[resolved_row(rows, cursor)] is Pr,
        forall|j: int| 0 <= j < resolved_row(rows, cursor) ==> !(#[trigger] rows[j] is Pr),
{
    reveal(resolved_row);
    lemma_cursor_row(rows, cursor, 0);
    lemma_first_pr_row(rows, 0);
}

proof fn lemma_gathered(groups: PrGroups, section: InboxSection, filter: Seq<char>, n: int, g: int, i: int)
    requires
        0 <= g < n <= priority_order().len(),
        0 <= i < groups.members(priority_order()[g]).len(),
        belongs(
            priority_order()[g],
            groups.members(priority_order()[g])[i],
            section,
            filter,
        ),
    ensures
        gathered(groups, section, filter, n).contains(groups.members(priority_order()[g])[i]),
    decreases n,
{
    let group = priority_order()[n - 1];
    let keep = |pr: PrSummary| belongs(group, pr, section, filter);
    let pr = groups.members(priority_order()[g])[i];
    let before = gathered(groups, section, filter, n - 1);
    let here = groups.members(group).filter(keep);
    if g == n - 1 {
        groups.members(group).lemma_filter_contains(keep, i);
        let k = choose|k: int| 0 <= k < here.len() && here[k] == pr;
        assert((before + here)[before.len() + k] == pr);
    } else {
        lemma_gathered(groups, section, filter, n - 1, g, i);
        let k = choose|k: int| 0 <= k < before.len() && before[k] == pr;
        assert((before + here)[k] == pr);
    }
}

proof fn lemma_filter_source<T>(s: Seq<T>, keep: spec_fn(T) -> bool, k: int)
    requires
        0 <= k < s.filter(keep).len(),
    ensures
        s.contains(s.filter(keep)[k]),
    decreases s.len(),
{
    reveal(Seq::filter);
    let rest = s.drop_last();
    if k < rest.filter(keep).len() {
        lemma_filter_source(rest, keep, k);
        let j = choose|j: int| 0 <= j < rest.len() && rest[j] == rest.filter(keep)[k];
        assert(s[j] == rest[j]);
    } else {
        assert(s[s.len() - 1] == s.last());
    }
}

pub(crate) proof fn lemma_gathered_belongs(
    groups: PrGroups,
    section: InboxSection,
    filter: Seq<char>,
    n: int,
    k: int,
)
    requires
        0 <= n <= priority_order().len(),
        0 <= k < gathered(groups, section, filter, n).len(),
    ensures
        exists|g: int|
            0 <= g < n && groups.members(#[trigger] priority_order()[g]).contains(
                gathered(groups, section, filter, n)[k],
            ) && belongs(
                priority_order()[g],
                gathered(groups, section, filter, n)[k],
                section,
                filter,
            ),
    decreases n,
{
    let group = priority_order()[n - 1];
    let keep = |pr: PrSummary| belongs(group, pr, section, filter);
    let before = gathered(groups, section, filter, n - 1);
    let here = groups.members(group).filter(keep);
    let all = gathered(groups, section, filter, n);
    if k < before.len() {
        lemma_gathered_belongs(groups, section, filter, n - 1, k);
        assert(all[k] == before[k]);
        let g = choose|g: int|
            0 <= g < n - 1 && groups.members(#[trigger] priority_order()[g]).contains(before[k])
                && belongs(priority_order()[g], before[k], section, filter);
        assert(groups.members(priority_order()[g]).contains(all[k]));
    } else {
        groups.members(group).lemma_filter_pred(keep, k - before.len());
        lemma_filter_source(groups.members(group), keep, k - before.len());
        let x = here[k - before.len()];
        assert(all[k] == x);
        assert(groups.members(priority_order()[n - 1]).contains(x));
    }
}

/// Every pull request that passes the filter is listed in the section it
/// belongs to.
pub proof fn matching_pr_is_listed(groups: PrGroups, filter: Seq<char>, g: int, i: int)
    requires
        0 <= g < priority_order().len(),
        0 <= i < groups.members(priority_order()[g]).len(),
        groups.members(priority_order()[g])[i].passes(filter),
    ensures
        section_members(
            groups,
            section_of(priority_order()[g], groups.members(priority_order()[g])[i]),
            filter,
        ).contains(groups.members(priority_order()[g])[i]),
{
    broadcast use vstd::seq_lib::group_to_multiset_ensures;

    let pr = groups.members(priority_order()[g])[i];
    let section = section_of(priority_order()[g], pr);
    let n = priority_order().len() as int;
    lemma_gathered(groups, section, filter, n, g, i);
    lemma_listing_is_strict();
    let all = gathered(groups, section, filter, n);
    stable_order_sorts(all, listing());
    assert(all.to_multiset().contains(pr));
    assert(section_members(groups, section, filter).to_multiset().contains(pr));
}

/// A section lists only pull requests that pass the filter and belong to it,
/// the most urgent first and, among equals, the most recently updated first.
pub proof fn section_members_are_ordered(groups: PrGroups, section: InboxSection, filter: Seq<char>)
    ensures
        in_order(section_members(groups, section, filter), listing()),
        forall|k: int|
            0 <= k < section_members(groups, section, filter).len() ==> exists|g: int|
                0 <= g < priority_order().len() && groups.members(
                    #[trigger] priority_order()[g],
                ).contains(#[trigger] section_members(groups, section, filter)[k]) && belongs(
                    priority_order()[g],
                    section_members(groups, section, filter)[k],
                    section,
                    filter,
                ),
{
    broadcast use vstd::seq_lib::group_to_multiset_ensures;

    let n = priority_order().len() as int;
    let all = gathered(groups, section, filter, n);
    let listed = section_members(groups, section, filter);
    lemma_listing_is_strict();
    stable_order_sorts(all, listing());
    assert forall|k: int| 0 <= k < listed.len() implies exists|g: int|
        0 <= g < priority_order().len() && groups.members(#[trigger] priority_order()[g]).contains(
            #[trigger] listed[k],
        ) && belongs(priority_order()[g], listed[k], section, filter) by {
        assert(listed.to_multiset().contains(listed[k]));
        assert(all.to_multiset().contains(listed[k]));
        let j = choose|j: int| 0 <= j < all.len() && all[j] == listed[k];
        lemma_gathered_belongs(groups, section, filter, n, j);
    }
}

/// A section is listed by a header that counts its pull requests, folded or
/// not; folding leaves out exactly the rows below the header.
pub proof fn header_counts_section(members: Seq<PrSummary>, section: InboxSection, collapsed: bool)
    requires
        0 < members.len() <= usize::MAX,
    ensures
        section_rows(members, section, collapsed)[0] == (RowView::Header {
            section,
            count: members.len() as usize,
            collapsed,
        }),
        section_rows(members, section, true).len() == 1,
        section_rows(members, section, false).len() == 1 + members.len(),
        forall|i: int|
            0 <= i < members.len() ==> #[trigger] section_rows(members, section, false)[1 + i] == (
            RowView::Pr { id: members[i].id@ }),
{
}

/// An empty section has no rows, not even a header.
pub proof fn empty_section_is_hidden(section: InboxSection, collapsed: bool)
    ensures
        section_rows(Seq::empty(), section, collapsed).len() == 0,
{
}

/// The cursor that names the row found for it finds that row again.
pub proof fn lemma_cursor_is_stable(rows: Seq<RowView>, cursor: CursorView)
    requires
        rows.len() > 0,
    ensures
        0 <= resolved_row(rows, cursor) < rows.len(),
        resolved_row(rows, cursor_at(rows, resolved_row(rows, cursor), cursor)) == resolved_row(
            rows,
            cursor,
        ),
        cursor_at(
            rows,
            resolved_row(rows, cursor),
            cursor_at(rows, resolved_row(rows, cursor), cursor),
        ) == cursor_at(rows, resolved_row(rows, cursor), cursor),
{
    reveal(resolved_row);
    reveal(cursor_at);
    lemma_cursor_row(rows, cursor, 0);
    lemma_first_pr_row(rows, 0);
    let at = resolved_row(rows, cursor);
    let named = cursor_at(rows, at, cursor);
    lemma_cursor_row(rows, named, 0);
    let again = cursor_row(rows, named, 0)->0;
    assert(row_is(rows[at], named));
    if again < at {
        assert(row_is(rows[again], named));
        if cursor_row(rows, cursor, 0) is Some {
            assert(row_is(rows[again], cursor));
        } else if first_pr_row(rows, 0) is Some {
            assert(rows[again] is Pr);
        }
    }
}

/// A pull request is listed in one section alone, unless it stands in two
/// groups.
pub proof fn sections_do_not_overlap(
    groups: PrGroups,
    filter: Seq<char>,
    a: InboxSection,
    b: InboxSection,
    pr: PrSummary,
)
    requires
        a != b,
        section_members(groups, a, filter).contains(pr),
        section_members(groups, b, filter).contains(pr),
    ensures
        exists|g: int, h: int|
            0 <= g < priority_order().len() && 0 <= h < priority_order().len() && g != h
                && groups.members(#[trigger] priority_order()[g]).contains(pr) && groups.members(
                #[trigger] priority_order()[h],
            ).contains(pr),
{
    section_members_are_ordered(groups, a, filter);
    section_members_are_ordered(groups, b, filter);
    let in_a = section_members(groups, a, filter);
    let in_b = section_members(groups, b, filter);
    let i = choose|i: int| 0 <= i < in_a.len() && in_a[i] == pr;
    let j = choose|j: int| 0 <= j < in_b.len() && in_b[j] == pr;
    let g = choose|g: int|
        0 <= g < priority_order().len() && groups.members(#[trigger] priority_order()[g]).contains(
            in_a[i],
        ) && belongs(priority_order()[g], in_a[i], a, filter);
    let h = choose|h: int|
        0 <= h < priority_order().len() && groups.members(#[trigger] priority_order()[h]).contains(
            in_b[j],
        ) && belongs(priority_order()[h], in_b[j], b, filter);
    assert(g != h);
    assert(groups.members(priority_order()[g]).contains(pr));
    assert(groups.members(priority_order()[h]).contains(pr));
}

/// The section headers among `rows`, each with its count.
pub open spec fn headings(rows: Seq<RowView>) -> Seq<(InboxSection, usize)>
    decreases rows.len(),
{
    if rows.len() == 0 {
        Seq::empty()
    } else {
        let before = headings(rows.drop_last());
        match rows.last() {
            RowView::Header { section, count, collapsed } => before.push((section, count)),
            RowView::Pr { id } => before,
        }
    }
}

proof fn lemma_headings_join(a: Seq<RowView>, b: Seq<RowView>)
    ensures
        headings(a + b) == headings(a) + headings(b),
    decreases b.len(),
{
    if b.len() == 0 {
        assert(a + b =~= a);
    } else {
        assert((a + b).drop_last() =~= a + b.drop_last());
        lemma_headings_join(a, b.drop_last());
    }
    assert(headings(a + b) =~= headings(a) + headings(b));
}

proof fn lemma_headings_of_prs(members: Seq<PrSummary>)
    ensures
        headings(members.map_values(|pr: PrSummary| RowView::Pr { id: pr.id@ })).len() == 0,
    decreases members.len(),
{
    let rows = members.map_values(|pr: PrSummary| RowView::Pr { id: pr.id@ });
    if members.len() > 0 {
        lemma_headings_of_prs(members.drop_last());
        assert(rows.drop_last() =~= members.drop_last().map_values(
            |pr: PrSummary| RowView::Pr { id: pr.id@ },
        ));
    }
}

proof fn lemma_section_heading(members: Seq<PrSummary>, section: InboxSection, collapsed: bool)
    ensures
        headings(section_rows(members, section, collapsed)) == if members.len() == 0 {
            Seq::<(InboxSection, usize)>::empty()
        } else {
            seq![(section, members.len() as usize)]
        },
{
    if members.len() > 0 {
        let header = seq![
            RowView::Header { section, count: members.len() as usize, collapsed },
        ];
        assert(header.drop_last() =~= Seq::empty());
        assert(headings(Seq::<RowView>::empty()).len() == 0);
        assert(headings(header.drop_last()).len() == 0);
        assert(headings(header) =~= seq![(section, members.len() as usize)]);
        let prs = members.map_values(|pr: PrSummary| RowView::Pr { id: pr.id@ });
        lemma_headings_join(header, prs);
        lemma_headings_of_prs(members);
        assert(headings(header) + headings(prs) =~= headings(header));
    }
}

proof fn lemma_headings_upto(
    groups: PrGroups,
    folds: Seq<Option<bool>>,
    other: Seq<Option<bool>>,
    filter: Seq<char>,
    n: int,
)
    ensures
        headings(rows_upto(groups, folds, filter, n)) == headings(
            rows_upto(groups, other, filter, n),
        ),
    decreases n,
{
    if n > 0 {
        lemma_headings_upto(groups, folds, other, filter, n - 1);
        let section = section_order()[n - 1];
        let members = section_members(groups, section, filter);
        lemma_section_heading(members, section, section_folded(folds, section));
        lemma_section_heading(members, section, section_folded(other, section));
        lemma_headings_join(
            rows_upto(groups, folds, filter, n - 1),
            section_rows(members, section, section_folded(folds, section)),
        );
        lemma_headings_join(
            rows_upto(groups, other, filter, n - 1),
            section_rows(members, section, section_folded(other, section)),
        );
    }
}

/// Which sections the Inbox has, and the counts they show, does not depend on
/// what is folded.
pub proof fn folding_keeps_headers(
    groups: PrGroups,
    folds: Seq<Option<bool>>,
    other: Seq<Option<bool>>,
    filter: Seq<char>,
)
    ensures
        headings(inbox_rows(groups, folds, filter)) == headings(inbox_rows(groups, other, filter)),
{
    reveal(inbox_rows);
    lemma_headings_upto(groups, folds, other, filter, section_order().len() as int);
}

} // verus!
