//! The text that `cx status`, `cx log` and `cx review` print, one line per element.

use vstd::prelude::*;
use vstd::utf8::{
    encode_utf8, encode_utf8_valid_utf8, is_ascii_chars_encode_utf8, is_char_boundary,
    is_char_boundary_iff_is_leading_byte,
};

use crate::context::{RiskLevel, SemanticUnit};
use crate::session::{LogEntry, LogEntryView, ReviewData, ReviewGroup, ReviewGroupView, SessionStatusInfo};
use crate::text::{all_ascii, byte_prefix, concat, cut_at, decimal, decimal_string, push_str, views_of};

verus! {

// ─── status ──────────────────────────────────────────────────

/// The tag that marks a risky unit.
pub open spec fn risk_tag(r: RiskLevel) -> Seq<char> {
    match r {
        RiskLevel::High => "  [risk: high]"@,
        RiskLevel::Medium => "  [risk: medium]"@,
        RiskLevel::Low => ""@,
    }
}

/// The line that heads a semantic unit: intent, file count and risk tag.
pub open spec fn unit_header(u: SemanticUnit) -> Seq<char> {
    let n = u.affected_files@.len();
    "  "@ + u.intent.word() + " ("@ + decimal(n) + " file"@ + (if n == 1 { ""@ } else { "s"@ })
        + ")"@ + risk_tag(u.risk)
}

/// The line that lists one file of a semantic unit.
pub open spec fn file_line(f: Seq<char>) -> Seq<char> {
    "    ─  "@ + f
}

/// The lines of one semantic unit: its header, then its files.
pub open spec fn unit_lines(u: SemanticUnit) -> Seq<Seq<char>> {
    seq![unit_header(u)] + views_of(u.affected_files@).map_values(|f: Seq<char>| file_line(f))
}

/// The lines of the semantic units, one unit after another.
pub open spec fn units_lines(us: Seq<SemanticUnit>) -> Seq<Seq<char>>
    decreases us.len(),
{
    if us.len() == 0 {
        Seq::empty()
    } else {
        units_lines(us.drop_last()) + unit_lines(us.last())
    }
}

/// What `cx status` prints.
pub open spec fn status_text(info: SessionStatusInfo) -> Seq<Seq<char>> {
    seq![
        "Session: "@ + info.id@,
        "Branch:  "@ + info.branch@,
        "Status:  "@ + info.status@ + " ("@ + decimal(info.snapshot_count as nat) + " snapshots)"@,
    ] + if info.semantic_units@.len() == 0 {
        seq!["No changes recorded yet."@]
    } else {
        seq!["Changes by intent:"@] + units_lines(info.semantic_units@)
    }
}

/// The lines of one semantic unit.
fn unit_block(u: &SemanticUnit) -> (lines: Vec<String>)
    ensures
        views_of(lines@) == unit_lines(*u),
{
    let n = u.affected_files.len();
    let mut h = concat("  ", u.intent.to_string().as_str());
    push_str(&mut h, " (");
    push_str(&mut h, decimal_string(n as u64).as_str());
    push_str(&mut h, " file");
    if n != 1 {
        push_str(&mut h, "s");
    }
    push_str(&mut h, ")");
    match u.risk {
        RiskLevel::High => push_str(&mut h, "  [risk: high]"),
        RiskLevel::Medium => push_str(&mut h, "  [risk: medium]"),
        RiskLevel::Low => {},
    }
    proof {
        reveal_strlit("");
        assert((n as u64) as nat == u.affected_files@.len());
    }
    assert(h@ =~= unit_header(*u));
    let mut lines: Vec<String> = Vec::new();
    lines.push(h);
    let ghost files = views_of(u.affected_files@);
    let mut i: usize = 0;
    while i < n
        invariant
            n == u.affected_files.len(),
            files == views_of(u.affected_files@),
            i <= n,
            views_of(lines@) == seq![unit_header(*u)] + files.take(i as int).map_values(
                |f: Seq<char>| file_line(f),
            ),
        decreases n - i,
    {
        let l = concat("    ─  ", u.affected_files[i].as_str());
        let ghost before = views_of(lines@);
        lines.push(l);
        proof {
            assert(views_of(lines@) =~= before.push(l@));
            assert(files.take(i + 1).map_values(|f: Seq<char>| file_line(f)) =~= files.take(
                i as int,
            ).map_values(|f: Seq<char>| file_line(f)).push(file_line(files[i as int])));
        }
        i = i + 1;
    }
    assert(files.take(n as int) =~= files);
    lines
}

/// Appends `more` to `lines`.
fn append_lines(lines: &mut Vec<String>, more: Vec<String>)
    ensures
        views_of(final(lines)@) == views_of(old(lines)@) + views_of(more@),
{
    let ghost start = views_of(lines@);
    let mut i: usize = 0;
    while i < more.len()
        invariant
            i <= more.len(),
            views_of(lines@) == start + views_of(more@).take(i as int),
        decreases more.len() - i,
    {
        let l = more[i].clone();
        let ghost before = views_of(lines@);
        lines.push(l);
        proof {
            assert(views_of(lines@) =~= before.push(l@));
            assert(views_of(more@).take(i + 1) =~= views_of(more@).take(i as int).push(more@[i as int]@));
        }
        i = i + 1;
    }
    assert(views_of(more@).take(more.len() as int) =~= views_of(more@));
}

/// The lines that `cx status` prints for a session.
pub fn status_lines(info: &SessionStatusInfo) -> (lines: Vec<String>)
    ensures
        views_of(lines@) == status_text(*info),
{
    let mut lines: Vec<String> = Vec::new();
    lines.push(concat("Session: ", info.id.as_str()));
    lines.push(concat("Branch:  ", info.branch.as_str()));
    let mut s = concat("Status:  ", info.status.as_str());
    push_str(&mut s, " (");
    push_str(&mut s, decimal_string(info.snapshot_count as u64).as_str());
    push_str(&mut s, " snapshots)");
    lines.push(s);
    let ghost head = views_of(lines@);
    if info.semantic_units.len() == 0 {
        lines.push(String::from_str("No changes recorded yet."));
        assert(views_of(lines@) =~= head + seq!["No changes recorded yet."@]);
        return lines;
    }
    lines.push(String::from_str("Changes by intent:"));
    assert(views_of(lines@) =~= head + seq!["Changes by intent:"@]);
    let ghost us = info.semantic_units@;
    let mut k: usize = 0;
    while k < info.semantic_units.len()
        invariant
            us == info.semantic_units@,
            k <= us.len(),
            views_of(lines@) == head + seq!["Changes by intent:"@] + units_lines(us.take(k as int)),
        decreases us.len() - k,
    {
        let block = unit_block(&info.semantic_units[k]);
        let ghost before = views_of(lines@);
        append_lines(&mut lines, block);
        proof {
            assert(us.take(k + 1).drop_last() =~= us.take(k as int));
            assert(us.take(k + 1).last() == us[k as int]);
            assert(views_of(lines@) =~= head + seq!["Changes by intent:"@] + units_lines(us.take(k + 1)));
        }
        k = k + 1;
    }
    assert(us.take(us.len() as int) =~= us);
    assert(views_of(lines@) =~= status_text(*info));
    lines
}

// ─── log ─────────────────────────────────────────────────────

/// Whether a timestamp can be cut after its 19th byte, as the log does with longer ones.
pub open spec fn cuttable_time(ts: Seq<char>) -> bool {
    encode_utf8(ts).len() > 19 ==> is_char_boundary(encode_utf8(ts), 19)
}

/// ASCII text can be cut after any of its bytes.
pub proof fn lemma_ascii_cuttable(s: Seq<char>, n: int)
    requires
        all_ascii(s),
        0 <= n <= s.len(),
    ensures
        encode_utf8(s).len() == s.len(),
        is_char_boundary(encode_utf8(s), n),
{
    is_ascii_chars_encode_utf8(s);
    encode_utf8_valid_utf8(s);
    let b = encode_utf8(s);
    if n < b.len() {
        assert(b[n] == s[n] as u8);
        is_char_boundary_iff_is_leading_byte(b, n);
    } else {
        vstd::utf8::is_char_boundary_start_end_of_seq(b);
    }
}

/// Every ASCII timestamp (as every one this library takes from the clock) can be shown.
pub proof fn lemma_ascii_time_cuttable(ts: Seq<char>)
    requires
        all_ascii(ts),
    ensures
        cuttable_time(ts),
{
    if ts.len() > 19 {
        lemma_ascii_cuttable(ts, 19);
    } else {
        lemma_ascii_cuttable(ts, 0);
    }
}

/// A timestamp as the log shows it: its first 19 bytes, to the second.
pub open spec fn shown_time(ts: Seq<char>) -> Seq<char> {
    if encode_utf8(ts).len() > 19 {
        byte_prefix(ts, 19)
    } else {
        ts
    }
}

/// The line of one log entry.
pub open spec fn log_line(e: LogEntryView) -> Seq<char> {
    "  "@ + e.0 + "  "@ + shown_time(e.1) + "  "@ + e.2 + "  ["@ + e.3 + "]  risk: "@ + e.4
}

/// What `cx log` prints for the entries of a session; nothing without a session id.
pub open spec fn log_text(entries: Seq<LogEntryView>, session_id: Option<Seq<char>>) -> Seq<Seq<char>> {
    match session_id {
        Some(sid) => seq!["Session: "@ + sid, ""@] + entries.map_values(|e: LogEntryView| log_line(e)),
        None => Seq::empty(),
    }
}

/// The lines that `cx log` prints for the entries of the session `session_id`.
pub fn log_lines(entries: &Vec<LogEntry>, session_id: Option<&str>) -> (lines: Vec<String>)
    requires
        forall|i: int| 0 <= i < entries@.len() ==> cuttable_time(#[trigger] entries@[i].timestamp@),
    ensures
        views_of(lines@) == log_text(
            entries@.map_values(|e: LogEntry| e@),
            match session_id {
                Some(s) => Some(s@),
                None => None,
            },
        ),
{
    let mut lines: Vec<String> = Vec::new();
    match session_id {
        None => {
            assert(views_of(lines@) =~= Seq::<Seq<char>>::empty());
            lines
        },
        Some(sid) => {
            lines.push(concat("Session: ", sid));
            lines.push(String::new());
            proof {
                reveal_strlit("");
            }
            let ghost es = entries@.map_values(|e: LogEntry| e@);
            let ghost head = seq!["Session: "@ + sid@, ""@];
            assert(lines@.len() == 2);
            assert(views_of(lines@)[0] == head[0]);
            assert(views_of(lines@)[1] == head[1]);
            assert(views_of(lines@) =~= head);
            let mut i: usize = 0;
            while i < entries.len()
                invariant
                    es == entries@.map_values(|e: LogEntry| e@),
                    forall|j: int| 0 <= j < entries@.len() ==> cuttable_time(#[trigger] entries@[j].timestamp@),
                    i <= entries.len(),
                    views_of(lines@) == head + es.take(i as int).map_values(|e: LogEntryView| log_line(e)),
                decreases entries.len() - i,
            {
                let e = &entries[i];
                assert(cuttable_time(entries@[i as int].timestamp@));
                let ts = if e.timestamp.as_str().as_bytes().len() > 19 {
                    cut_at(e.timestamp.as_str(), 19)
                } else {
                    e.timestamp.clone()
                };
                let mut l = concat("  ", e.snapshot_id.as_str());
                push_str(&mut l, "  ");
                push_str(&mut l, ts.as_str());
                push_str(&mut l, "  ");
                push_str(&mut l, e.description.as_str());
                push_str(&mut l, "  [");
                push_str(&mut l, e.intent.as_str());
                push_str(&mut l, "]  risk: ");
                push_str(&mut l, e.risk.as_str());
                let ghost before = views_of(lines@);
                lines.push(l);
                proof {
                    assert(es[i as int] == e@);
                    assert(ts@ == shown_time(e.timestamp@));
                    assert(l@ =~= log_line(es[i as int]));
                    assert(views_of(lines@) =~= before.push(l@));
                    assert(es.take(i + 1).map_values(|e: LogEntryView| log_line(e)) =~= es.take(
                        i as int,
                    ).map_values(|e: LogEntryView| log_line(e)).push(log_line(es[i as int])));
                }
                i = i + 1;
            }
            assert(es.take(entries.len() as int) =~= es);
            lines
        },
    }
}


// ─── review ──────────────────────────────────────────────────

/// Whether the base commit can be cut after its 12th byte, as the review header does with
/// longer ones.
pub open spec fn cuttable_commit(c: Seq<char>) -> bool {
    encode_utf8(c).len() > 12 ==> is_char_boundary(encode_utf8(c), 12)
}

/// The base commit as the review header shows it: its first 12 bytes.
pub open spec fn shown_commit(c: Seq<char>) -> Seq<char> {
    if encode_utf8(c).len() > 12 {
        byte_prefix(c, 12)
    } else {
        c
    }
}

/// A line of `n` box-drawing dashes.
pub open spec fn rule(n: nat) -> Seq<char> {
    Seq::new(n, |i: int| '─')
}

/// The added and removed line counts of a file, when there are any.
pub open spec fn stat_text(added: u32, removed: u32) -> Seq<char> {
    if added > 0 || removed > 0 {
        " +"@ + decimal(added as nat) + "/-"@ + decimal(removed as nat)
    } else {
        ""@
    }
}

/// The title of a review group: intent and scope.
pub open spec fn group_title(g: ReviewGroupView) -> Seq<char> {
    g.0 + " ("@ + g.1 + ")"@
}

/// The lines of one review group: title, a rule at least as long as the title's bytes (and
/// at least 30), the files, and a blank line.
pub open spec fn group_lines(g: ReviewGroupView) -> Seq<Seq<char>> {
    let t = group_title(g);
    let w = encode_utf8(t).len();
    seq![t, rule(if w > 30 { w } else { 30 })] + (if g.2.len() == 0 {
        seq!["  (no file changes)"@]
    } else {
        g.2.map_values(|f: (Seq<char>, u32, u32)| "  "@ + f.0 + stat_text(f.1, f.2))
    }) + seq![""@]
}

/// The lines of the review groups, one group after another.
pub open spec fn groups_lines(gs: Seq<ReviewGroupView>) -> Seq<Seq<char>>
    decreases gs.len(),
{
    if gs.len() == 0 {
        Seq::empty()
    } else {
        groups_lines(gs.drop_last()) + group_lines(gs.last())
    }
}

/// What `cx review` prints.
pub open spec fn review_text(d: ReviewData) -> Seq<Seq<char>> {
    seq![
        "Reviewing session "@ + d.session_id@ + " (vs "@ + d.base_branch@ + "@"@ + shown_commit(
            d.base_commit@,
        ) + ")"@,
        ""@,
    ] + if d.groups@.len() == 0 {
        seq!["No snapshots to review."@]
    } else {
        groups_lines(d.groups@.map_values(|g: ReviewGroup| g@))
    }
}

/// The lines of one review group.
fn group_block(g: &ReviewGroup) -> (lines: Vec<String>)
    ensures
        views_of(lines@) == group_lines(g@),
{
    let mut title = g.intent.clone();
    push_str(&mut title, " (");
    push_str(&mut title, g.scope.as_str());
    push_str(&mut title, ")");
    let w = title.as_str().as_bytes().len();
    let n = if w > 30 { w } else { 30 };
    let mut dashes = String::new();
    let mut k: usize = 0;
    while k < n
        invariant
            k <= n,
            dashes@ == rule(k as nat),
        decreases n - k,
    {
        dashes.push('─');
        assert(dashes@ =~= rule((k + 1) as nat));
        k = k + 1;
    }
    let mut lines: Vec<String> = Vec::new();
    lines.push(title);
    lines.push(dashes);
    let ghost head = seq![group_title(g@), rule(n as nat)];
    assert(views_of(lines@) =~= head);
    let ghost fs = g@.2;
    if g.files.len() == 0 {
        lines.push(String::from_str("  (no file changes)"));
        assert(views_of(lines@) =~= head + seq!["  (no file changes)"@]);
    } else {
        let mut i: usize = 0;
        while i < g.files.len()
            invariant
                fs == g@.2,
                fs.len() == g.files.len(),
                i <= g.files.len(),
                views_of(lines@) == head + fs.take(i as int).map_values(
                    |f: (Seq<char>, u32, u32)| "  "@ + f.0 + stat_text(f.1, f.2),
                ),
            decreases g.files.len() - i,
        {
            let f = &g.files[i];
            let mut l = concat("  ", f.0.as_str());
            if f.1 > 0 || f.2 > 0 {
                push_str(&mut l, " +");
                push_str(&mut l, decimal_string(f.1 as u64).as_str());
                push_str(&mut l, "/-");
                push_str(&mut l, decimal_string(f.2 as u64).as_str());
            }
            proof {
                reveal_strlit("");
                assert(fs[i as int] == (f.0@, f.1, f.2));
                assert(l@ =~= "  "@ + fs[i as int].0 + stat_text(fs[i as int].1, fs[i as int].2));
            }
            let ghost before = views_of(lines@);
            lines.push(l);
            proof {
                assert(views_of(lines@) =~= before.push(l@));
                assert(fs.take(i + 1).map_values(
                    |f: (Seq<char>, u32, u32)| "  "@ + f.0 + stat_text(f.1, f.2),
                ) =~= fs.take(i as int).map_values(
                    |f: (Seq<char>, u32, u32)| "  "@ + f.0 + stat_text(f.1, f.2),
                ).push("  "@ + fs[i as int].0 + stat_text(fs[i as int].1, fs[i as int].2)));
            }
            i = i + 1;
        }
        assert(fs.take(fs.len() as int) =~= fs);
    }
    let ghost body = views_of(lines@);
    let blank = String::new();
    lines.push(blank);
    proof {
        reveal_strlit("");
        assert(views_of(lines@) =~= body.push(blank@));
        assert(blank@ == ""@);
        assert(body.push(blank@) =~= body + seq![""@]);
        assert(views_of(lines@) =~= group_lines(g@));
    }
    lines
}

/// The lines that `cx review` prints for the review data.
pub fn review_lines(data: &ReviewData) -> (lines: Vec<String>)
    requires
        cuttable_commit(data.base_commit@),
    ensures
        views_of(lines@) == review_text(*data),
{
    let c = data.base_commit.as_str();
    let shown = if c.as_bytes().len() > 12 {
        cut_at(c, 12)
    } else {
        data.base_commit.clone()
    };
    let mut first = concat("Reviewing session ", data.session_id.as_str());
    push_str(&mut first, " (vs ");
    push_str(&mut first, data.base_branch.as_str());
    push_str(&mut first, "@");
    push_str(&mut first, shown.as_str());
    push_str(&mut first, ")");
    let mut lines: Vec<String> = Vec::new();
    lines.push(first);
    lines.push(String::new());
    let ghost head = seq![first@, ""@];
    proof {
        reveal_strlit("");
        assert(views_of(lines@)[1] == head[1]);
        assert(views_of(lines@) =~= head);
    }
    if data.groups.len() == 0 {
        lines.push(String::from_str("No snapshots to review."));
        assert(views_of(lines@) =~= head + seq!["No snapshots to review."@]);
        return lines;
    }
    let ghost gs = data.groups@.map_values(|g: ReviewGroup| g@);
    let mut k: usize = 0;
    while k < data.groups.len()
        invariant
            gs == data.groups@.map_values(|g: ReviewGroup| g@),
            k <= data.groups.len(),
            views_of(lines@) == head + groups_lines(gs.take(k as int)),
        decreases data.groups.len() - k,
    {
        let block = group_block(&data.groups[k]);
        append_lines(&mut lines, block);
        proof {
            assert(gs.take(k + 1).drop_last() =~= gs.take(k as int));
            assert(gs.take(k + 1).last() == data.groups@[k as int]@);
            assert(views_of(lines@) =~= head + groups_lines(gs.take(k + 1)));
        }
        k = k + 1;
    }
    assert(gs.take(gs.len() as int) =~= gs);
    lines
}

} // verus!
