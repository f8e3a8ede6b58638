//! The live log viewer's scrollback: pages of the lines that are kept.

use vstd::prelude::*;
use vstd::string::*;

use crate::http_reply::{HttpReply, HttpView};
use crate::text::{quote, quoted, same_text};
use crate::wire::{line_views, LineView, LogLine};

verus! {

/// The most lines that one page holds.
pub const MAX_PAGE_SIZE: usize = 5000;

/// What a viewer of past lines asks for.
pub struct HistoryQuery {
    /// Only lines before the one of this number; without it the newest.
    pub before: Option<u64>,
    /// How many lines at most; without it a page.
    pub limit: Option<usize>,
}

/// How many lines a page holds: as many as asked for, or the page size, but
/// never more than the largest page.
pub open spec fn page_limit(limit: Option<usize>, page_size: usize) -> usize {
    let wanted = match limit {
        Some(n) => n,
        None => page_size,
    };
    if wanted <= MAX_PAGE_SIZE {
        wanted
    } else {
        MAX_PAGE_SIZE
    }
}

/// Whether a line is older than a mark.
pub open spec fn is_older(line: LineView, before: Option<u64>) -> bool {
    match before {
        Some(seq) => line.seq < seq,
        None => true,
    }
}

/// The lines that are older than a mark.
pub open spec fn older_lines(lines: Seq<LineView>, before: Option<u64>) -> Seq<LineView> {
    lines.filter(|line: LineView| is_older(line, before))
}

/// A page: the last so many of the lines that are older than a mark, the
/// oldest first.
pub open spec fn page(lines: Seq<LineView>, before: Option<u64>, limit: nat) -> Seq<LineView> {
    let older = older_lines(lines, before);
    if older.len() <= limit {
        older
    } else {
        older.skip(older.len() - limit)
    }
}

/// One more line adds itself to the older lines, or nothing.
proof fn lemma_older_step(lines: Seq<LineView>, before: Option<u64>, i: int)
    requires
        0 <= i < lines.len(),
    ensures
        older_lines(lines.take(i + 1), before) == if is_older(lines[i], before) {
            older_lines(lines.take(i), before).push(lines[i])
        } else {
            older_lines(lines.take(i), before)
        },
{
    reveal(Seq::filter);
    assert(lines.take(i + 1).drop_last() =~= lines.take(i));
    assert(lines.take(i + 1).last() == lines[i]);
}

/// Whether a line is older than a mark.
fn older(line: &LogLine, before: Option<u64>) -> (r: bool)
    ensures
        r == is_older(line@, before),
{
    match before {
        Some(seq) => line.seq < seq,
        None => true,
    }
}

/// Selects a page from the kept lines, which stand in the order in which
/// they came.
pub fn select_page(lines: &Vec<LogLine>, before: Option<u64>, limit: usize) -> (r: Vec<LogLine>)
    ensures
        line_views(r@) == page(line_views(lines@), before, limit as nat),
        r.len() <= limit,
{
    let ghost all = line_views(lines@);
    let mut count: usize = 0;
    let mut i: usize = 0;
    proof {
        reveal(Seq::filter);
        assert(all.take(0) =~= Seq::empty());
    }
    while i < lines.len()
        invariant
            i <= lines.len(),
            all == line_views(lines@),
            count == older_lines(all.take(i as int), before).len(),
            count <= i,
        decreases lines.len() - i,
    {
        proof {
            lemma_older_step(all, before, i as int);
        }
        if older(&lines[i], before) {
            count += 1;
        }
        i += 1;
    }
    assert(all.take(lines.len() as int) =~= all);
    let skip: usize = if count <= limit {
        0
    } else {
        count - limit
    };
    let mut selected: Vec<LogLine> = Vec::new();
    let mut seen: usize = 0;
    let mut j: usize = 0;
    proof {
        reveal(Seq::filter);
        assert(all.take(0) =~= Seq::empty());
        assert(line_views(selected@) =~= Seq::empty());
    }
    while j < lines.len()
        invariant
            j <= lines.len(),
            all == line_views(lines@),
            seen == older_lines(all.take(j as int), before).len(),
            seen <= j,
            line_views(selected@) == if seen <= skip {
                Seq::empty()
            } else {
                older_lines(all.take(j as int), before).skip(skip as int)
            },
        decreases lines.len() - j,
    {
        let ghost earlier = older_lines(all.take(j as int), before);
        let ghost views = line_views(selected@);
        proof {
            lemma_older_step(all, before, j as int);
        }
        if older(&lines[j], before) {
            if seen >= skip {
                let line = lines[j].copy();
                selected.push(line);
                proof {
                    assert(line_views(selected@) =~= views.push(all[j as int]));
                    if seen == skip {
                        assert(earlier.push(all[j as int]).skip(skip as int) =~= seq![all[j as int]]);
                        assert(views.push(all[j as int]) =~= seq![all[j as int]]);
                    } else {
                        assert(earlier.push(all[j as int]).skip(skip as int) =~= earlier.skip(
                            skip as int,
                        ).push(all[j as int]));
                    }
                }
            }
            seen += 1;
        }
        j += 1;
    }
    proof {
        assert(all.take(lines.len() as int) =~= all);
        let found = older_lines(all, before);
        if skip == 0 {
            assert(found.skip(0) =~= found);
            if seen == 0 {
                assert(found =~= Seq::empty());
            }
        } else if seen <= skip {
            assert(limit == 0);
            assert(found.skip(skip as int) =~= Seq::empty());
        }
        assert(line_views(selected@).len() == selected.len());
    }
    selected
}

/// What a viewer of past lines is answered.
pub enum HistoryReply {
    /// These lines, the oldest first.
    Page(Vec<LogLine>),
    /// That there are none.
    Reply(HttpReply),
}

/// An answer with its lines and texts as views.
pub enum HistoryView {
    Page(Seq<LineView>),
    Reply(HttpView),
}

impl View for HistoryReply {
    type V = HistoryView;

    open spec fn view(&self) -> HistoryView {
        match self {
            HistoryReply::Page(lines) => HistoryView::Page(line_views(lines@)),
            HistoryReply::Reply(reply) => HistoryView::Reply(reply@),
        }
    }
}

/// What a viewer of past lines of a source is answered.
pub open spec fn history_answer(
    source: Seq<char>,
    before: Option<u64>,
    limit: Option<usize>,
    page_size: usize,
    lines: Seq<LineView>,
) -> HistoryView {
    if source == "api"@ {
        HistoryView::Page(page(lines, before, page_limit(limit, page_size) as nat))
    } else {
        HistoryView::Reply(
            HttpView {
                status: 404,
                body: "log source "@ + quoted(source) + " is not available yet"@,
            },
        )
    }
}

/// One page of the kept lines of a source; only the controller's own log is
/// kept.
pub fn history(source: &str, query: &HistoryQuery, page_size: usize, lines: &Vec<LogLine>) -> (r:
    HistoryReply)
    ensures
        match r {
            HistoryReply::Page(found) => source@ == "api"@ && line_views(found@) == page(
                line_views(lines@),
                query.before,
                page_limit(query.limit, page_size) as nat,
            ),
            HistoryReply::Reply(reply) => source@ != "api"@ && reply@ == (HttpView {
                status: 404,
                body: "log source "@ + quoted(source@) + " is not available yet"@,
            }),
        },
        r@ == history_answer(
            source@,
            query.before,
            query.limit,
            page_size,
            line_views(lines@),
        ),
{
    if !same_text(source, "api") {
        let name = quote(source);
        return HistoryReply::Reply(
            HttpReply {
                status: 404,
                body: "log source ".to_owned().concat(name.as_str()).concat(
                    " is not available yet",
                ),
            },
        );
    }
    let wanted: usize = match query.limit {
        Some(limit) => limit,
        None => page_size,
    };
    let limit: usize = if wanted <= MAX_PAGE_SIZE {
        wanted
    } else {
        MAX_PAGE_SIZE
    };
    HistoryReply::Page(select_page(lines, query.before, limit))
}

/// The newest of some lines, at most so many.
pub open spec fn newest(lines: Seq<LineView>, limit: usize) -> Seq<LineView> {
    if lines.len() <= limit {
        lines
    } else {
        lines.skip(lines.len() - limit)
    }
}

/// The newest kept lines, at most so many, the oldest first: what a viewer
/// of the live log is sent before the new ones.
pub fn latest(lines: &Vec<LogLine>, limit: usize) -> (r: Vec<LogLine>)
    ensures
        line_views(r@) == newest(line_views(lines@), limit),
{
    let ghost all = line_views(lines@);
    proof {
        lemma_all_older(all);
    }
    select_page(lines, None, limit)
}

/// Without a mark every line counts.
proof fn lemma_all_older(lines: Seq<LineView>)
    ensures
        older_lines(lines, None) == lines,
    decreases lines.len(),
{
    reveal(Seq::filter);
    if lines.len() > 0 {
        lemma_all_older(lines.drop_last());
        assert(lines.drop_last().push(lines.last()) =~= lines);
    } else {
        assert(older_lines(lines, None) =~= lines);
    }
}

/// Whether lines stand in the order of their numbers.
pub open spec fn in_seq_order(lines: Seq<LineView>) -> bool {
    forall|i: int, j: int|
        #![trigger lines[i], lines[j]]
        0 <= i < j < lines.len() ==> lines[i].seq < lines[j].seq
}

/// In lines that stand in order, the older ones come first.
proof fn lemma_older_is_prefix(lines: Seq<LineView>, before: u64, k: int)
    requires
        in_seq_order(lines),
        0 <= k <= lines.len(),
        forall|i: int| 0 <= i < k ==> (#[trigger] lines[i]).seq < before,
        forall|i: int| k <= i < lines.len() ==> (#[trigger] lines[i]).seq >= before,
    ensures
        older_lines(lines, Some(before)) == lines.take(k),
    decreases lines.len(),
{
    reveal(Seq::filter);
    if lines.len() > 0 {
        let shorter = lines.drop_last();
        let last = lines.len() - 1;
        assert forall|i: int| 0 <= i < shorter.len() implies shorter[i] == lines[i] by {}
        assert(in_seq_order(shorter));
        if k == lines.len() {
            lemma_older_is_prefix(shorter, before, k - 1);
            assert(lines[last].seq < before);
            assert(shorter.take(k - 1).push(lines[last]) =~= lines.take(k));
        } else {
            lemma_older_is_prefix(shorter, before, k);
            assert(lines[last].seq >= before);
            assert(shorter.take(k) =~= lines.take(k));
        }
    } else {
        assert(lines.take(k) =~= lines);
    }
}

/// How many lines at the start are older than a mark.
pub open spec fn older_count(lines: Seq<LineView>, before: u64) -> int
    decreases lines.len(),
{
    if lines.len() == 0 {
        0
    } else if lines.last().seq < before {
        lines.len() as int
    } else {
        older_count(lines.drop_last(), before)
    }
}

/// In lines that stand in order, so many lines are older than a mark and
/// the others are not.
proof fn lemma_older_count(lines: Seq<LineView>, before: u64)
    requires
        in_seq_order(lines),
    ensures
        ({
            let k = older_count(lines, before);
            &&& 0 <= k <= lines.len()
            &&& forall|i: int| 0 <= i < k ==> (#[trigger] lines[i]).seq < before
            &&& forall|i: int| k <= i < lines.len() ==> (#[trigger] lines[i]).seq >= before
        }),
    decreases lines.len(),
{
    if lines.len() > 0 {
        let shorter = lines.drop_last();
        let last = lines.len() - 1;
        if lines.last().seq < before {
            assert forall|i: int| 0 <= i < lines.len() implies (#[trigger] lines[i]).seq < before by {
                if i < last {
                    assert(lines[i].seq < lines[last].seq);
                }
            }
        } else {
            assert forall|i: int, j: int|
                #![trigger shorter[i], shorter[j]]
                0 <= i < j < shorter.len() implies shorter[i].seq < shorter[j].seq by {
                assert(lines[i].seq < lines[j].seq);
            }
            lemma_older_count(shorter, before);
            let k = older_count(shorter, before);
            assert forall|i: int| 0 <= i < k implies (#[trigger] lines[i]).seq < before by {
                assert(shorter[i] == lines[i]);
            }
            assert forall|i: int| k <= i < lines.len() implies (#[trigger] lines[i]).seq
                >= before by {
                if i < last {
                    assert(shorter[i] == lines[i]);
                }
            }
        }
    }
}

/// Scrolling back page by page shows every line once: the page before a mark
/// ends with the last line that is older than the mark, it holds consecutive
/// lines, and the page before its first line goes on exactly where it ended.
pub proof fn law_pages_are_consecutive(lines: Seq<LineView>, before: u64, limit: nat)
    requires
        in_seq_order(lines),
        limit > 0,
        older_count(lines, before) > 0,
    ensures
        ({
            let k = older_count(lines, before);
            let start = if k <= limit {
                0
            } else {
                k - limit
            };
            let shown = page(lines, Some(before), limit);
            &&& shown == lines.subrange(start, k)
            &&& shown.len() > 0
            &&& older_count(lines, shown[0].seq) == start
            &&& older_lines(lines, Some(shown[0].seq)) == lines.take(start)
        }),
{
    let k = older_count(lines, before);
    let start = if k <= limit {
        0
    } else {
        k - limit
    };
    lemma_older_count(lines, before);
    lemma_older_is_prefix(lines, before, k);
    let shown = page(lines, Some(before), limit);
    assert(shown =~= lines.subrange(start, k));
    let mark = shown[0].seq;
    assert(shown[0] == lines[start]);
    assert forall|i: int| 0 <= i < start implies (#[trigger] lines[i]).seq < mark by {
        assert(lines[i].seq < lines[start].seq);
    }
    assert forall|i: int| start <= i < lines.len() implies (#[trigger] lines[i]).seq >= mark by {
        if start < i {
            assert(lines[start].seq < lines[i].seq);
        }
    }
    lemma_older_is_prefix(lines, mark, start);
    lemma_older_count(lines, mark);
    let c = older_count(lines, mark);
    if c < start {
        assert(lines[c].seq < mark);
    } else if c > start {
        assert(lines[start].seq < mark);
    }
}

/// Where a reader subscribes to a log before it reads the kept lines, every
/// line from the oldest of the newest kept ones on reaches it: as one of
/// those, or as a new one. The log has taken in the lines before
/// `subscribed` when the reader subscribes and those before `read` when it
/// reads, and has then kept those from `kept` on.
pub proof fn law_no_line_is_lost_after_subscribing(
    log: Seq<LineView>,
    subscribed: int,
    kept: int,
    read: int,
    limit: usize,
    i: int,
)
    requires
        0 <= subscribed <= read <= log.len(),
        0 <= kept <= read,
        read - newest(log.subrange(kept, read), limit).len() <= i < log.len(),
    ensures
        ({
            let replayed = newest(log.subrange(kept, read), limit);
            let live = log.skip(subscribed);
            let oldest = read - replayed.len();
            ||| i < read && replayed[i - oldest] == log[i]
            ||| i >= subscribed && live[i - subscribed] == log[i]
        }),
        subscribed <= i ==> log.skip(subscribed)[i - subscribed] == log[i],
{
}

/// The newest of some lines are their last ones, unchanged and in order: all
/// of them where they fit, and as many as fit otherwise.
pub proof fn law_newest_are_the_last_lines(lines: Seq<LineView>, limit: usize, i: int)
    ensures
        newest(lines, limit).len() == if lines.len() <= limit {
            lines.len()
        } else {
            limit as nat
        },
        0 <= i < newest(lines, limit).len() ==> newest(lines, limit)[i] == lines[lines.len()
            - newest(lines, limit).len() + i],
{
}

/// Without a mark every line may be shown, with one exactly those of a
/// smaller number.
pub proof fn law_mark_leaves_older_lines(line: LineView, seq: u64)
    ensures
        is_older(line, None),
        is_older(line, Some(seq)) <==> line.seq < seq,
{
}

/// A page holds as many lines as were asked for, or the usual number, and
/// never more than the largest page.
pub proof fn law_page_size(limit: Option<usize>, page_size: usize)
    ensures
        page_limit(limit, page_size) <= 5000,
        limit matches Some(n) ==> n <= 5000 ==> page_limit(limit, page_size) == n,
        limit matches Some(n) ==> n > 5000 ==> page_limit(limit, page_size) == 5000,
        limit is None && page_size <= 5000 ==> page_limit(limit, page_size) == page_size,
        limit is None && page_size > 5000 ==> page_limit(limit, page_size) == 5000,
{
}

/// Every line of a page is a kept line that is older than the mark; a page
/// has as many of them as fit; and without a mark it is the newest lines.
pub proof fn law_page_holds_older_lines(lines: Seq<LineView>, before: Option<u64>, limit: usize)
    ensures
        ({
            let shown = page(lines, before, limit as nat);
            let older = lines.filter(
                |line: LineView| before matches Some(seq) ==> line.seq < seq,
            );
            &&& shown.len() == if older.len() <= limit {
                older.len()
            } else {
                limit as nat
            }
            &&& shown == older.skip(older.len() - shown.len())
            &&& forall|i: int|
                0 <= i < shown.len() ==> lines.contains(#[trigger] shown[i]) && (
                before matches Some(seq) ==> shown[i].seq < seq)
            &&& before is None ==> shown == newest(lines, limit)
        }),
{
    let shown = page(lines, before, limit as nat);
    let wanted = |line: LineView| before matches Some(seq) ==> line.seq < seq;
    let older = lines.filter(wanted);
    lemma_same_older(lines, before);
    if older.len() <= limit {
        assert(older.skip(0) =~= older);
    }
    assert forall|i: int| 0 <= i < shown.len() implies lines.contains(#[trigger] shown[i]) && (
    before matches Some(seq) ==> shown[i].seq < seq) by {
        let k = older.len() - shown.len() + i;
        assert(shown[i] == older[k]);
        lines.lemma_filter_pred(wanted, k);
        lines.lemma_filter_contains_rev(wanted, older[k]);
    }
    if before is None {
        lemma_all_older(lines);
    }
}

/// The lines that are older than a mark are those of a smaller number.
proof fn lemma_same_older(lines: Seq<LineView>, before: Option<u64>)
    ensures
        older_lines(lines, before) == lines.filter(
            |line: LineView| before matches Some(seq) ==> line.seq < seq,
        ),
    decreases lines.len(),
{
    reveal(Seq::filter);
    if lines.len() > 0 {
        lemma_same_older(lines.drop_last(), before);
    }
}

/// Every kept line that is older than the mark is shown where the page has
/// room for all of them.
pub proof fn law_page_with_room_skips_nothing(
    lines: Seq<LineView>,
    before: Option<u64>,
    limit: nat,
    i: int,
)
    requires
        0 <= i < lines.len(),
        before matches Some(seq) ==> lines[i].seq < seq,
        lines.len() <= limit,
    ensures
        page(lines, before, limit).contains(lines[i]),
{
    let wanted = |line: LineView| before matches Some(seq) ==> line.seq < seq;
    lemma_same_older(lines, before);
    lines.lemma_filter_contains(wanted, i);
    lines.lemma_filter_len(wanted);
}

/// Scrolling back needs lines in the order of their numbers, and counts
/// those below the mark.
pub proof fn law_lines_below_a_mark(lines: Seq<LineView>, before: u64, i: int)
    requires
        forall|j: int, k: int|
            #![trigger lines[j], lines[k]]
            0 <= j < k < lines.len() ==> lines[j].seq < lines[k].seq,
        0 <= i < lines.len(),
    ensures
        0 <= older_count(lines, before) <= lines.len(),
        i < older_count(lines, before) <==> lines[i].seq < before,
{
    lemma_older_count(lines, before);
}

/// The controller's own log is answered with kept lines that are older than
/// the mark, the last of them and in order, as many as were asked for and
/// fit; any other source is not found under its name.
pub proof fn law_past_lines_of_a_source(
    source: Seq<char>,
    before: Option<u64>,
    limit: Option<usize>,
    page_size: usize,
    lines: Seq<LineView>,
)
    ensures
        ({
            let answer = history_answer(source, before, limit, page_size, lines);
            let older = lines.filter(
                |line: LineView| before matches Some(seq) ==> line.seq < seq,
            );
            let wanted = match limit {
                Some(n) => n,
                None => page_size,
            };
            &&& source != "api"@ ==> answer == HistoryView::Reply(
                HttpView {
                    status: 404,
                    body: "log source "@ + quoted(source) + " is not available yet"@,
                },
            )
            &&& source == "api"@ ==> (answer matches HistoryView::Page(shown) && shown.len()
                <= older.len() && shown == older.skip(older.len() - shown.len()) && shown.len()
                <= wanted && shown.len() <= 5000 && (shown.len() == older.len() || shown.len()
                == wanted || shown.len() == 5000))
        }),
{
    law_page_holds_older_lines(lines, before, page_limit(limit, page_size));
}

/// An answer is seen with its lines or its text as they are.
pub proof fn law_history_is_seen_in_full(lines: Vec<LogLine>, reply: HttpReply)
    ensures
        HistoryReply::Page(lines)@ == HistoryView::Page(line_views(lines@)),
        HistoryReply::Reply(reply)@ == HistoryView::Reply(reply@),
{
}

} // verus!
