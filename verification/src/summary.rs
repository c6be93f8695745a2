//! What a summary says: its title, its text and its statistics, as a
//! function of the period, the operations recorded in it and the moment of
//! writing.

use vstd::prelude::*;
use crate::audit::OperationLog;
use crate::seqs::lemma_filter_push;
use crate::calendar::holds_text;
use crate::json::{json_object_new, json_object_set, json_object_text, json_object_write, no_fields};
use crate::text::{decimal, push_decimal, text_eq};

verus! {

/// A summary of the operations of one period.
#[derive(Debug)]
pub struct Summary {
    pub id: i32,
    pub title: String,
    /// `daily`, `weekly`, `monthly`, `yearly` or `custom`.
    pub summary_type: String,
    pub start_date: String,
    pub end_date: String,
    pub content: String,
    pub statistics: Option<String>,
    pub is_auto_generated: bool,
    pub created_at: String,
}

/// A summary as a mathematical value.
pub struct SummaryView {
    pub id: int,
    pub title: Seq<char>,
    pub summary_type: Seq<char>,
    pub start_date: Seq<char>,
    pub end_date: Seq<char>,
    pub content: Seq<char>,
    pub statistics: Option<Seq<char>>,
    pub is_auto_generated: bool,
    pub created_at: Seq<char>,
}

impl View for Summary {
    type V = SummaryView;

    open spec fn view(&self) -> SummaryView {
        SummaryView {
            id: self.id as int,
            title: self.title@,
            summary_type: self.summary_type@,
            start_date: self.start_date@,
            end_date: self.end_date@,
            content: self.content@,
            statistics: match self.statistics {
                Some(text) => Some(text@),
                None => None,
            },
            is_auto_generated: self.is_auto_generated,
            created_at: self.created_at@,
        }
    }
}

impl Clone for Summary {
    fn clone(&self) -> (copy: Self)
        ensures
            copy == *self,
    {
        Summary {
            id: self.id,
            title: self.title.clone(),
            summary_type: self.summary_type.clone(),
            start_date: self.start_date.clone(),
            end_date: self.end_date.clone(),
            content: self.content.clone(),
            statistics: self.statistics.clone(),
            is_auto_generated: self.is_auto_generated,
            created_at: self.created_at.clone(),
        }
    }
}

/// The counts that a summary reports.
#[derive(Debug, Clone, Copy, PartialEq, Eq, Structural)]
pub struct SummaryStatistics {
    pub total_operations: u64,
    pub new_projects: u64,
    pub new_contacts: u64,
    pub new_events: u64,
    pub new_activities: u64,
}

/// The entry records the creation of an entity of the kind `kind`.
pub open spec fn is_creation_of(entry: OperationLog, kind: Seq<char>) -> bool {
    entry.operation_type@ == "create"@ && entry.entity_type@ == kind
}

/// How many entries record the creation of an entity of the kind `kind`.
pub open spec fn creations_of(entries: Seq<OperationLog>, kind: Seq<char>) -> nat {
    entries.filter(|entry: OperationLog| is_creation_of(entry, kind)).len()
}

/// The statistics of `entries`: the number of entries, and the creations
/// by the kind of entity.
pub open spec fn statistics_of(entries: Seq<OperationLog>) -> SummaryStatistics {
    SummaryStatistics {
        total_operations: entries.len() as u64,
        new_projects: creations_of(entries, "project"@) as u64,
        new_contacts: creations_of(entries, "contact"@) as u64,
        new_events: creations_of(entries, "event"@) as u64,
        new_activities: creations_of(entries, "activity"@) as u64,
    }
}

/// Counts the entries that record the creation of an entity of the kind
/// `kind`.
pub fn count_creations(entries: &Vec<OperationLog>, kind: &str) -> (count: u64)
    ensures
        count == creations_of(entries@, kind@),
        count <= entries.len(),
{
    let ghost pred = |entry: OperationLog| is_creation_of(entry, kind@);
    let mut count: u64 = 0;
    let mut i: usize = 0;
    proof {
        reveal(Seq::filter);
        assert(entries@.take(0).filter(pred) =~= Seq::<OperationLog>::empty());
    }
    while i < entries.len()
        invariant
            i <= entries.len(),
            pred == (|entry: OperationLog| is_creation_of(entry, kind@)),
            count == entries@.take(i as int).filter(pred).len(),
            count <= i,
        decreases entries.len() - i,
    {
        proof {
            lemma_filter_push(entries@.take(i as int), entries@[i as int], pred);
            assert(entries@.take(i + 1) =~= entries@.take(i as int).push(entries@[i as int]));
        }
        if text_eq(entries[i].operation_type.as_str(), "create") && text_eq(
            entries[i].entity_type.as_str(),
            kind,
        ) {
            count = count + 1;
        }
        i = i + 1;
    }
    assert(entries@.take(i as int) =~= entries@);
    count
}

/// The statistics of a period's entries.
pub fn summary_statistics(entries: &Vec<OperationLog>) -> (stats: SummaryStatistics)
    ensures
        stats == statistics_of(entries@),
        stats.total_operations == entries@.len(),
        stats.new_projects == creations_of(entries@, "project"@),
        stats.new_contacts == creations_of(entries@, "contact"@),
        stats.new_events == creations_of(entries@, "event"@),
        stats.new_activities == creations_of(entries@, "activity"@),
{
    SummaryStatistics {
        total_operations: entries.len() as u64,
        new_projects: count_creations(entries, "project"),
        new_contacts: count_creations(entries, "contact"),
        new_events: count_creations(entries, "event"),
        new_activities: count_creations(entries, "activity"),
    }
}

/// The fields of the JSON object that holds the statistics.
pub open spec fn statistics_fields(stats: SummaryStatistics) -> Map<Seq<char>, int> {
    no_fields().insert("total_operations"@, stats.total_operations as int).insert(
        "new_projects"@,
        stats.new_projects as int,
    ).insert("new_contacts"@, stats.new_contacts as int).insert(
        "new_events"@,
        stats.new_events as int,
    ).insert("new_activities"@, stats.new_activities as int)
}

/// The statistics as the text of a JSON object, one field for each count.
pub fn statistics_text(stats: &SummaryStatistics) -> (text: Option<String>)
    ensures
        holds_text(text, json_object_text(statistics_fields(*stats))),
{
    let mut object = json_object_new();
    json_object_set(&mut object, "total_operations", stats.total_operations);
    json_object_set(&mut object, "new_projects", stats.new_projects);
    json_object_set(&mut object, "new_contacts", stats.new_contacts);
    json_object_set(&mut object, "new_events", stats.new_events);
    json_object_set(&mut object, "new_activities", stats.new_activities);
    json_object_write(object)
}

/// The title of a summary written at `stamp` for the period from `start`
/// to `end`.
pub open spec fn summary_title(stamp: Seq<char>, start: Seq<char>, end: Seq<char>) -> Seq<char> {
    stamp + "生成 - "@ + start + " 至 "@ + end + " 总结"@
}

/// One line for each entry, holding its description, in the entries' order.
pub open spec fn activity_lines(entries: Seq<OperationLog>) -> Seq<char>
    decreases entries.len(),
{
    if entries.len() == 0 {
        Seq::empty()
    } else {
        activity_lines(entries.drop_last()) + "- "@ + entries.last().description@ + "\n"@
    }
}

/// The part of a summary that lists the period's operations, or says that
/// there were none.
pub open spec fn activity_section(entries: Seq<OperationLog>) -> Seq<char> {
    if entries.len() == 0 {
        "该时间段内没有操作记录。\n"@
    } else {
        "## 操作记录\n\n"@ + activity_lines(entries)
    }
}

/// The part of a summary that reports its statistics, one line for each
/// count.
pub open spec fn statistics_section(stats: SummaryStatistics) -> Seq<char> {
    "\n## 统计数据\n\n"@ + "- 总操作数："@ + decimal(stats.total_operations as nat) + "\n"@
        + "- 新增项目："@ + decimal(stats.new_projects as nat) + "\n"@ + "- 新增联系人："@
        + decimal(stats.new_contacts as nat) + "\n"@ + "- 新增事件："@ + decimal(
        stats.new_events as nat,
    ) + "\n"@ + "- 新增活动："@ + decimal(stats.new_activities as nat) + "\n"@
}

/// The heading of a summary's text: the period and the moment of writing.
pub open spec fn summary_heading(start: Seq<char>, end: Seq<char>, stamp: Seq<char>) -> Seq<
    char,
> {
    "# "@ + start + " 至 "@ + end + " 工作总结\n\n"@ + "生成时间："@ + stamp + "\n\n"@
        + "---\n\n"@
}

/// The text of a summary: the heading, the operations in the order given,
/// then the statistics.
pub open spec fn summary_content(
    start: Seq<char>,
    end: Seq<char>,
    stamp: Seq<char>,
    entries: Seq<OperationLog>,
    stats: SummaryStatistics,
) -> Seq<char> {
    summary_heading(start, end, stamp) + activity_section(entries) + statistics_section(stats)
}

/// Writes the title of a summary.
pub fn compose_title(stamp: &str, start_date: &str, end_date: &str) -> (title: String)
    ensures
        title@ == summary_title(stamp@, start_date@, end_date@),
{
    let mut title = String::new();
    title.append(stamp);
    title.append("生成 - ");
    title.append(start_date);
    title.append(" 至 ");
    title.append(end_date);
    title.append(" 总结");
    assert(title@ =~= summary_title(stamp@, start_date@, end_date@));
    title
}

fn push_activity_section(out: &mut String, entries: &Vec<OperationLog>)
    ensures
        final(out)@ == old(out)@ + activity_section(entries@),
{
    if entries.len() == 0 {
        out.append("该时间段内没有操作记录。\n");
        return ;
    }
    out.append("## 操作记录\n\n");
    let mut i: usize = 0;
    assert(entries@.take(0) =~= Seq::<OperationLog>::empty());
    assert(out@ =~= old(out)@ + "## 操作记录\n\n"@ + activity_lines(entries@.take(0)));
    while i < entries.len()
        invariant
            i <= entries.len(),
            out@ == old(out)@ + "## 操作记录\n\n"@ + activity_lines(entries@.take(i as int)),
        decreases entries.len() - i,
    {
        out.append("- ");
        out.append(entries[i].description.as_str());
        out.append("\n");
        proof {
            let next = entries@.take(i + 1);
            assert(next.drop_last() =~= entries@.take(i as int));
            assert(next.last() == entries@[i as int]);
            assert(out@ =~= old(out)@ + "## 操作记录\n\n"@ + activity_lines(next));
        }
        i = i + 1;
    }
    assert(entries@.take(i as int) =~= entries@);
    assert(out@ =~= old(out)@ + activity_section(entries@));
}

fn push_statistics_section(out: &mut String, stats: &SummaryStatistics)
    ensures
        final(out)@ == old(out)@ + statistics_section(*stats),
{
    out.append("\n## 统计数据\n\n");
    out.append("- 总操作数：");
    push_decimal(out, stats.total_operations);
    out.append("\n");
    out.append("- 新增项目：");
    push_decimal(out, stats.new_projects);
    out.append("\n");
    out.append("- 新增联系人：");
    push_decimal(out, stats.new_contacts);
    out.append("\n");
    out.append("- 新增事件：");
    push_decimal(out, stats.new_events);
    out.append("\n");
    out.append("- 新增活动：");
    push_decimal(out, stats.new_activities);
    out.append("\n");
    assert(out@ =~= old(out)@ + statistics_section(*stats));
}

/// Writes the text of a summary.
pub fn compose_content(
    start_date: &str,
    end_date: &str,
    stamp: &str,
    entries: &Vec<OperationLog>,
    stats: &SummaryStatistics,
) -> (content: String)
    ensures
        content@ == summary_content(start_date@, end_date@, stamp@, entries@, *stats),
{
    let mut content = String::new();
    content.append("# ");
    content.append(start_date);
    content.append(" 至 ");
    content.append(end_date);
    content.append(" 工作总结\n\n");
    content.append("生成时间：");
    content.append(stamp);
    content.append("\n\n");
    content.append("---\n\n");
    assert(content@ =~= summary_heading(start_date@, end_date@, stamp@));
    push_activity_section(&mut content, entries);
    push_statistics_section(&mut content, stats);
    content
}

} // verus!
