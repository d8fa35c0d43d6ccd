//! The markdown report of a finished pipeline run.
use vstd::prelude::*;
use crate::pipeline::StageResult;
use crate::text::{digits_value, lemma_zero_padded_reads_back, pow10, push_zero_padded, zero_padded};

verus! {

/// The part of the report that shows one agent's result.
pub open spec fn report_entry(r: StageResult) -> Seq<char> {
    "\n---\n\n## "@ + r.agent@ + " ("@ + r.provider_label@ + ")\n\n"@ + r.output@ + "\n"@
}

/// The entries of the results, in order.
pub open spec fn report_entries(results: Seq<StageResult>) -> Seq<char>
    decreases results.len(),
{
    if results.len() == 0 {
        Seq::empty()
    } else {
        report_entries(results.drop_last()) + report_entry(results.last())
    }
}

/// The entries of two runs of results joined are the two runs' entries joined.
pub proof fn lemma_report_entries_concat(p: Seq<StageResult>, q: Seq<StageResult>)
    ensures
        report_entries(p + q) == report_entries(p) + report_entries(q),
    decreases q.len(),
{
    if q.len() == 0 {
        assert(p + q =~= p);
        assert(report_entries(q) =~= Seq::<char>::empty());
        assert(report_entries(p) + report_entries(q) =~= report_entries(p));
    } else {
        lemma_report_entries_concat(p, q.drop_last());
        assert((p + q).drop_last() =~= p + q.drop_last());
        assert((p + q).last() == q.last());
        assert(report_entries(p + q) =~= report_entries(p) + report_entries(q));
    }
}

/// One result shows as a rule, a heading with the agent's name and provider
/// label, then its output.
pub proof fn lemma_report_entry_of_one_result(r: StageResult)
    ensures
        report_entries(seq![r]) == "\n---\n\n## "@ + r.agent@ + " ("@ + r.provider_label@
            + ")\n\n"@ + r.output@ + "\n"@,
{
    let one = seq![r];
    assert(one.drop_last() =~= Seq::<StageResult>::empty());
    assert(report_entries(one.drop_last()) == Seq::<char>::empty());
    assert(one.last() == r);
    assert(report_entries(one) == report_entries(one.drop_last()) + report_entry(r));
    assert(report_entries(seq![r]) =~= "\n---\n\n## "@ + r.agent@ + " ("@ + r.provider_label@
        + ")\n\n"@ + r.output@ + "\n"@);
}

/// The report of a run without results is the title, the whole task and the
/// whole timestamp.
pub proof fn lemma_report_of_no_results(task: Seq<char>, stamp: Seq<char>)
    ensures
        report_text(task, Seq::empty(), stamp) == "# Báo cáo agentflow\n\n**Task:** "@ + task
            + "\n\n"@ + "_Tạo lúc: "@ + stamp + "_\n"@,
{
    assert(report_entries(Seq::<StageResult>::empty()) == Seq::<char>::empty());
    assert(report_text(task, Seq::empty(), stamp) =~= "# Báo cáo agentflow\n\n**Task:** "@ + task
        + "\n\n"@ + "_Tạo lúc: "@ + stamp + "_\n"@);
}

/// Adding a result to a run adds its entry at the end of the report and
/// changes nothing before it.
pub proof fn lemma_report_grows_by_one_entry(
    task: Seq<char>,
    results: Seq<StageResult>,
    r: StageResult,
    stamp: Seq<char>,
)
    ensures
        report_text(task, results.push(r), stamp) == report_text(task, results, stamp)
            + "\n---\n\n## "@ + r.agent@ + " ("@ + r.provider_label@ + ")\n\n"@ + r.output@ + "\n"@,
{
    lemma_report_entries_concat(results, seq![r]);
    lemma_report_entry_of_one_result(r);
    assert(results.push(r) =~= results + seq![r]);
    assert(report_text(task, results.push(r), stamp) =~= report_text(task, results, stamp)
        + ("\n---\n\n## "@ + r.agent@ + " ("@ + r.provider_label@ + ")\n\n"@ + r.output@ + "\n"@));
}

/// The report of a run of `task` made at the moment written as `stamp`: a
/// title, the task, the moment, then one entry per agent in the order they ran.
pub open spec fn report_text(task: Seq<char>, results: Seq<StageResult>, stamp: Seq<char>) -> Seq<
    char,
> {
    "# Báo cáo agentflow\n\n**Task:** "@ + task + "\n\n"@ + "_Tạo lúc: "@ + stamp + "_\n"@
        + report_entries(results)
}

/// Writes the report of a run of `task`, made at the moment written as `stamp`.
pub fn build_report_at(task: &str, results: &[StageResult], stamp: &str) -> (res: String)
    ensures
        res@ == report_text(task@, results@, stamp@),
{
    let mut s = String::from_str("# Báo cáo agentflow\n\n**Task:** ");
    s.append(task);
    s.append("\n\n");
    s.append("_Tạo lúc: ");
    s.append(stamp);
    s.append("_\n");
    let ghost head = s@;
    let mut i: usize = 0;
    while i < results.len()
        invariant
            i <= results@.len(),
            s@ == head + report_entries(results@.subrange(0, i as int)),
        decreases results.len() - i,
    {
        let r = &results[i];
        let ghost before = s@;
        s.append("\n---\n\n## ");
        s.append(r.agent.as_str());
        s.append(" (");
        s.append(r.provider_label.as_str());
        s.append(")\n\n");
        s.append(r.output.as_str());
        s.append("\n");
        proof {
            let done = results@.subrange(0, i + 1);
            assert(done.drop_last() =~= results@.subrange(0, i as int));
            assert(s@ =~= before + report_entry(done.last()));
        }
        i = i + 1;
    }
    assert(results@.subrange(0, results@.len() as int) =~= results@);
    assert(s@ =~= report_text(task@, results@, stamp@));
    s
}

/// A local date and time, as a clock reads it.
#[derive(Debug)]
pub struct LocalTime {
    pub year: i32,
    pub month: u32,
    pub day: u32,
    pub hour: u32,
    pub minute: u32,
    pub second: u32,
}

/// The year as `%Y` writes it: four digits with leading zeros from 0 to 9999,
/// otherwise a sign and at least four digits.
pub open spec fn year_text(year: int) -> Seq<char> {
    if 0 <= year <= 9999 {
        zero_padded(year as nat, 4)
    } else if year > 9999 {
        "+"@ + zero_padded(year as nat, 4)
    } else {
        "-"@ + zero_padded((-year) as nat, 4)
    }
}

/// The moment written as `YYYY-MM-DD HH:MM:SS` (the `%Y-%m-%d %H:%M:%S` pattern).
pub open spec fn stamp_text(t: LocalTime) -> Seq<char> {
    year_text(t.year as int) + "-"@ + zero_padded(t.month as nat, 2) + "-"@ + zero_padded(
        t.day as nat,
        2,
    ) + " "@ + zero_padded(t.hour as nat, 2) + ":"@ + zero_padded(t.minute as nat, 2) + ":"@
        + zero_padded(t.second as nat, 2)
}

/// For a year from 0 to 9999 and two-digit fields, the timestamp is 19
/// characters: the year in four digits, then month, day, hour, minute and
/// second in two digits each, every field reading back to the given number,
/// separated by `-`, `-`, a space, `:` and `:`. Other years start with their
/// sign.
pub proof fn lemma_stamp_fields(t: LocalTime)
    requires
        t.month < 100,
        t.day < 100,
        t.hour < 100,
        t.minute < 100,
        t.second < 100,
    ensures
        0 <= t.year <= 9999 ==> {
            let s = stamp_text(t);
            &&& s.len() == 19
            &&& digits_value(s.subrange(0, 4)) == t.year as int
            &&& s[4] == '-'
            &&& digits_value(s.subrange(5, 7)) == t.month as int
            &&& s[7] == '-'
            &&& digits_value(s.subrange(8, 10)) == t.day as int
            &&& s[10] == ' '
            &&& digits_value(s.subrange(11, 13)) == t.hour as int
            &&& s[13] == ':'
            &&& digits_value(s.subrange(14, 16)) == t.minute as int
            &&& s[16] == ':'
            &&& digits_value(s.subrange(17, 19)) == t.second as int
        },
        t.year > 9999 ==> stamp_text(t)[0] == '+',
        t.year < 0 ==> stamp_text(t)[0] == '-',
{
    reveal_strlit("-");
    reveal_strlit(" ");
    reveal_strlit(":");
    reveal_strlit("+");
    assert(pow10(0) == 1);
    assert(pow10(1) == 10);
    assert(pow10(2) == 100);
    assert(pow10(3) == 1000);
    assert(pow10(4) == 10000);
    let mo = zero_padded(t.month as nat, 2);
    let d = zero_padded(t.day as nat, 2);
    let h = zero_padded(t.hour as nat, 2);
    let mi = zero_padded(t.minute as nat, 2);
    let se = zero_padded(t.second as nat, 2);
    lemma_zero_padded_reads_back(t.month as nat, 2);
    lemma_zero_padded_reads_back(t.day as nat, 2);
    lemma_zero_padded_reads_back(t.hour as nat, 2);
    lemma_zero_padded_reads_back(t.minute as nat, 2);
    lemma_zero_padded_reads_back(t.second as nat, 2);
    let y = year_text(t.year as int);
    let s = stamp_text(t);
    assert(s =~= y + "-"@ + mo + "-"@ + d + " "@ + h + ":"@ + mi + ":"@ + se);
    if 0 <= t.year <= 9999 {
        lemma_zero_padded_reads_back(t.year as nat, 4);
        assert(s.subrange(0, 4) =~= y);
        assert(s.subrange(5, 7) =~= mo);
        assert(s.subrange(8, 10) =~= d);
        assert(s.subrange(11, 13) =~= h);
        assert(s.subrange(14, 16) =~= mi);
        assert(s.subrange(17, 19) =~= se);
    }
    if t.year > 9999 {
        assert(y[0] == '+');
        assert(s[0] == y[0]);
    }
    if t.year < 0 {
        assert(y[0] == '-');
        assert(s[0] == y[0]);
    }
}

/// Writes the moment as `YYYY-MM-DD HH:MM:SS`.
pub fn timestamp(t: &LocalTime) -> (res: String)
    ensures
        res@ == stamp_text(*t),
{
    let mut s = String::new();
    let y: i64 = t.year as i64;
    if 0 <= y && y <= 9999 {
        push_zero_padded(&mut s, y as u64, 4);
    } else if y > 9999 {
        s.append("+");
        push_zero_padded(&mut s, y as u64, 4);
    } else {
        s.append("-");
        push_zero_padded(&mut s, (-y) as u64, 4);
    }
    assert(s@ =~= year_text(t.year as int));
    s.append("-");
    push_zero_padded(&mut s, t.month as u64, 2);
    s.append("-");
    push_zero_padded(&mut s, t.day as u64, 2);
    s.append(" ");
    push_zero_padded(&mut s, t.hour as u64, 2);
    s.append(":");
    push_zero_padded(&mut s, t.minute as u64, 2);
    s.append(":");
    push_zero_padded(&mut s, t.second as u64, 2);
    assert(s@ =~= stamp_text(*t));
    s
}

/// Writes the report of a run of `task`, stamped with the local time `at`.
pub fn build_report(task: &str, results: &[StageResult], at: &LocalTime) -> (res: String)
    ensures
        res@ == report_text(task@, results@, stamp_text(*at)),
{
    let stamp = timestamp(at);
    build_report_at(task, results, stamp.as_str())
}

} // verus!
