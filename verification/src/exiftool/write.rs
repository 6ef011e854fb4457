//! Writing tags with ExifTool: the arguments of a write, and how ExifTool's
//! report of it is read.
use vstd::prelude::*;
use crate::text::{
    ascii_lower, ascii_lowered, ascii_upper, ascii_uppered, concat_str, contains, contains_seq,
    is_ascii_text, lines, lines_acc, lower_text, occurs_at, opt_view, split_lines, strip_cr,
    to_lowercase, trim, trimmed, views,
};

verus! {

/// A single field write targeting a specific ExifTool tag.
pub struct MetadataWrite {
    /// Namespace-qualified tag name, e.g. `"EXIF:ImageDescription"`.
    pub tag: String,
    /// New value.  `None` clears (deletes) the tag.
    pub value: Option<String>,
}

/// Outcome of a write operation.
pub struct WriteResult {
    pub success: bool,
    pub message: String,
}

/// The argument that sets `tag` to `value`, or clears it when there is none.
pub open spec fn tag_arg(tag: Seq<char>, value: Option<Seq<char>>) -> Seq<char> {
    "-"@ + tag + "="@ + match value {
        Some(v) => v,
        None => Seq::<char>::empty(),
    }
}

/// The arguments for a batch of tag writes, one per write, in order.
pub fn tag_args(writes: &Vec<MetadataWrite>) -> (r: Vec<String>)
    ensures
        r.len() == writes.len(),
        forall|i: int|
            0 <= i < r.len() ==> #[trigger] r@[i]@ == tag_arg(writes@[i].tag@, opt_view(writes@[i].value)),
{
    let mut out: Vec<String> = Vec::new();
    let mut i: usize = 0;
    while i < writes.len()
        invariant
            i <= writes.len(),
            out.len() == i,
            forall|k: int|
                0 <= k < i ==> #[trigger] out@[k]@ == tag_arg(writes@[k].tag@, opt_view(writes@[k].value)),
        decreases writes.len() - i,
    {
        let w = &writes[i];
        let head = concat_str("-", w.tag.as_str());
        let head = concat_str(head.as_str(), "=");
        let arg = match &w.value {
            Some(v) => concat_str(head.as_str(), v.as_str()),
            None => head,
        };
        proof {
            if w.value is None {
                assert(arg@ =~= tag_arg(w.tag@, opt_view(w.value)));
            }
        }
        out.push(arg);
        i = i + 1;
    }
    out
}

/// What to do for a batch of writes to one file.
pub enum WritePlan {
    /// Nothing to send: this is the result.
    Done(WriteResult),
    /// Send these tag arguments to ExifTool.
    Send(Vec<String>),
}

/// Plans a batch of tag writes: an empty batch succeeds without calling
/// ExifTool; otherwise the tags are batched into one ExifTool call.
pub fn plan_write(writes: &Vec<MetadataWrite>) -> (r: WritePlan)
    ensures
        writes.len() == 0 ==> (r matches WritePlan::Done(w) && w.success && w.message@
            == "No writes requested"@),
        writes.len() > 0 ==> (r matches WritePlan::Send(args) && args.len() == writes.len() && (
        forall|i: int|
            0 <= i < args.len() ==> #[trigger] args@[i]@ == tag_arg(
                writes@[i].tag@,
                opt_view(writes@[i].value),
            ))),
{
    if writes.len() == 0 {
        let message = "No writes requested".to_owned();
        WritePlan::Done(WriteResult { success: true, message })
    } else {
        WritePlan::Send(tag_args(writes))
    }
}

/// Whether a (lowercased) report line tells of an error.
pub open spec fn reports_error(low: Seq<char>) -> bool {
    contains_seq(low, "error"@) || contains_seq(low, "warning: error"@)
}

/// Whether a (lowercased) report line tells of updated files.
pub open spec fn reports_update(low: Seq<char>) -> bool {
    contains_seq(low, "image files updated"@) || contains_seq(low, "image file updated"@)
        || contains_seq(low, "files updated"@) || contains_seq(low, "file updated"@)
}

/// The outcome read from the report lines `ls` of the whole report `output`:
/// the first line that tells of an error or of an update decides; a report
/// with neither counts as a success whose message is the trimmed report.
pub open spec fn outcome_of_lines(ls: Seq<Seq<char>>, output: Seq<char>) -> (bool, Seq<char>)
    decreases ls.len(),
{
    if ls.len() == 0 {
        (true, trimmed(output))
    } else if reports_error(lower_text(ls[0])) {
        (false, ls[0])
    } else if reports_update(lower_text(ls[0])) {
        (true, trimmed(ls[0]))
    } else {
        outcome_of_lines(ls.drop_first(), output)
    }
}

/// A report none of whose lines mentions an error (in any case ASCII or
/// Unicode lowercasing maps to `error`) is a success; a failure is always
/// reported with the text of a line that mentions one.
pub proof fn lemma_failure_needs_an_error_line(ls: Seq<Seq<char>>, output: Seq<char>)
    ensures
        (forall|i: int| 0 <= i < ls.len() ==> !contains_seq(lower_text(#[trigger] ls[i]), "error"@))
            ==> outcome_of_lines(ls, output).0,
        !outcome_of_lines(ls, output).0 ==> exists|i: int|
            0 <= i < ls.len() && contains_seq(lower_text(#[trigger] ls[i]), "error"@)
                && outcome_of_lines(ls, output).1 == ls[i],
    decreases ls.len(),
{
    if ls.len() > 0 {
        lemma_failure_needs_an_error_line(ls.drop_first(), output);
        let low = lower_text(ls[0]);
        if contains_seq(low, "warning: error"@) {
            let k = choose|k: int| occurs_at(low, "warning: error"@, k);
            reveal_strlit("warning: error");
            reveal_strlit("error");
            assert(low.subrange(k + 9, k + 14) =~= "error"@) by {
                assert(low.subrange(k, k + 14) == "warning: error"@);
                assert forall|j: int| 0 <= j < 5 implies low.subrange(k + 9, k + 14)[j]
                    == "error"@[j] by {
                    assert(low.subrange(k, k + 14)[j + 9] == low[k + 9 + j]);
                }
            }
            assert(occurs_at(low, "error"@, k + 9));
        }
        if !outcome_of_lines(ls, output).0 && !reports_error(low) {
            let i = choose|i: int|
                0 <= i < ls.drop_first().len() && contains_seq(
                    lower_text(#[trigger] ls.drop_first()[i]),
                    "error"@,
                ) && outcome_of_lines(ls.drop_first(), output).1 == ls.drop_first()[i];
            assert(ls.drop_first()[i] == ls[i + 1]);
        }
        assert forall|i: int| 0 <= i < ls.drop_first().len() && !contains_seq(
            lower_text(#[trigger] ls.drop_first()[i]), "error"@) implies !contains_seq(
            lower_text(ls[i + 1]), "error"@) by {
            assert(ls.drop_first()[i] == ls[i + 1]);
        }
        if forall|i: int| 0 <= i < ls.len() ==> !contains_seq(lower_text(#[trigger] ls[i]), "error"@) {
            assert(!contains_seq(lower_text(ls[0]), "error"@));
            assert forall|i: int| 0 <= i < ls.drop_first().len() implies !contains_seq(
                lower_text(#[trigger] ls.drop_first()[i]), "error"@) by {
                assert(ls.drop_first()[i] == ls[i + 1]);
            }
        }
    }
}

/// A character map that keeps line breaks where they are, keeps ASCII text
/// ASCII, and does not change what a character lowercases to.
pub open spec fn case_change(f: spec_fn(char) -> char) -> bool {
    &&& forall|c: char| (#[trigger] f(c) == '\n') == (c == '\n')
    &&& forall|c: char| (#[trigger] f(c) == '\r') == (c == '\r')
    &&& forall|c: char| (c as u32) < 128 ==> (#[trigger] f(c) as u32) < 128
    &&& forall|c: char| #[trigger] ascii_lower(f(c)) == ascii_lower(c)
}

/// Mapping the characters of a text maps the characters of each of its
/// lines.
proof fn lemma_lines_acc_map(s: Seq<char>, cur: Seq<char>, f: spec_fn(char) -> char)
    requires
        case_change(f),
    ensures
        lines_acc(s.map_values(f), cur.map_values(f)) == lines_acc(s, cur).map_values(
            |l: Seq<char>| l.map_values(f),
        ),
    decreases s.len(),
{
    let g = |l: Seq<char>| l.map_values(f);
    let fs = s.map_values(f);
    let fc = cur.map_values(f);
    if s.len() == 0 {
        assert(fs.len() == 0);
        if cur.len() == 0 {
            assert(lines_acc(s, cur).map_values(g) =~= Seq::<Seq<char>>::empty());
        } else {
            assert(lines_acc(s, cur).map_values(g) =~= seq![fc]);
        }
    } else {
        assert(fs[0] == f(s[0]));
        assert(fs.drop_first() =~= s.drop_first().map_values(f));
        if s[0] == '\n' {
            let e = Seq::<char>::empty();
            assert(e.map_values(f) =~= e);
            lemma_lines_acc_map(s.drop_first(), e, f);
            assert(strip_cr(fc) =~= strip_cr(cur).map_values(f)) by {
                if cur.len() > 0 {
                    assert(fc.last() == f(cur.last()));
                    assert(fc.drop_last() =~= cur.drop_last().map_values(f));
                }
            }
            let rest = lines_acc(s.drop_first(), e);
            assert((seq![strip_cr(cur)] + rest).map_values(g) =~= seq![g(strip_cr(cur))]
                + rest.map_values(g));
        } else {
            assert(f(s[0]) != '\n');
            assert(cur.push(s[0]).map_values(f) =~= fc.push(f(s[0])));
            lemma_lines_acc_map(s.drop_first(), cur.push(s[0]), f);
        }
    }
}

/// The lines of an ASCII text are ASCII.
proof fn lemma_lines_acc_ascii(s: Seq<char>, cur: Seq<char>)
    requires
        is_ascii_text(s),
        is_ascii_text(cur),
    ensures
        forall|i: int|
            0 <= i < lines_acc(s, cur).len() ==> is_ascii_text(#[trigger] lines_acc(s, cur)[i]),
    decreases s.len(),
{
    if s.len() == 0 {
        if cur.len() > 0 {
            assert(lines_acc(s, cur) =~= seq![cur]);
        }
    } else {
        assert(is_ascii_text(s.drop_first())) by {
            assert forall|i: int| 0 <= i < s.drop_first().len() implies (
            #[trigger] s.drop_first()[i] as u32) < 128 by {
                assert(s.drop_first()[i] == s[i + 1]);
            }
        }
        if s[0] == '\n' {
            lemma_lines_acc_ascii(s.drop_first(), Seq::<char>::empty());
            let rest = lines_acc(s.drop_first(), Seq::<char>::empty());
            assert(is_ascii_text(strip_cr(cur))) by {
                assert forall|i: int| 0 <= i < strip_cr(cur).len() implies (
                #[trigger] strip_cr(cur)[i] as u32) < 128 by {
                    assert(strip_cr(cur)[i] == cur[i]);
                }
            }
            assert forall|i: int| 0 <= i < lines_acc(s, cur).len() implies is_ascii_text(
                #[trigger] lines_acc(s, cur)[i],
            ) by {
                if i > 0 {
                    assert(lines_acc(s, cur)[i] == rest[i - 1]);
                }
            }
        } else {
            assert(is_ascii_text(cur.push(s[0]))) by {
                assert forall|i: int| 0 <= i < cur.push(s[0]).len() implies (
                #[trigger] cur.push(s[0])[i] as u32) < 128 by {
                    if i < cur.len() {
                        assert(cur.push(s[0])[i] == cur[i]);
                    } else {
                        assert(s[0] as u32 == s[0 as int] as u32);
                    }
                }
            }
            lemma_lines_acc_ascii(s.drop_first(), cur.push(s[0]));
            assert(lines_acc(s, cur) == lines_acc(s.drop_first(), cur.push(s[0])));
        }
    }
}

/// Two lists of report lines that lowercase alike, line by line, come to
/// the same verdict.
proof fn lemma_outcome_by_lowered_lines(
    a: Seq<Seq<char>>,
    b: Seq<Seq<char>>,
    out_a: Seq<char>,
    out_b: Seq<char>,
)
    requires
        a.len() == b.len(),
        forall|i: int| 0 <= i < a.len() ==> lower_text(#[trigger] a[i]) == lower_text(b[i]),
    ensures
        outcome_of_lines(a, out_a).0 == outcome_of_lines(b, out_b).0,
    decreases a.len(),
{
    if a.len() > 0 {
        assert(lower_text(a[0]) == lower_text(b[0]));
        assert forall|i: int| 0 <= i < a.drop_first().len() implies lower_text(
            #[trigger] a.drop_first()[i],
        ) == lower_text(b.drop_first()[i]) by {
            assert(lower_text(a[i + 1]) == lower_text(b[i + 1]));
        }
        lemma_outcome_by_lowered_lines(a.drop_first(), b.drop_first(), out_a, out_b);
    }
}

/// Changing the case of an ASCII report with a case change leaves the
/// verdict as it was.
proof fn lemma_verdict_survives(s: Seq<char>, f: spec_fn(char) -> char)
    requires
        is_ascii_text(s),
        case_change(f),
    ensures
        outcome_of_lines(lines(s.map_values(f)), s.map_values(f)).0 == outcome_of_lines(
            lines(s),
            s,
        ).0,
{
    let e = Seq::<char>::empty();
    assert(e.map_values(f) =~= e);
    lemma_lines_acc_map(s, e, f);
    lemma_lines_acc_ascii(s, e);
    let ls = lines(s);
    let ms = lines(s.map_values(f));
    assert forall|i: int| 0 <= i < ms.len() implies lower_text(#[trigger] ms[i]) == lower_text(
        ls[i],
    ) by {
        let l = ls[i];
        assert(ms[i] == l.map_values(f));
        assert(is_ascii_text(l));
        let m = l.map_values(f);
        assert(is_ascii_text(m)) by {
            assert forall|j: int| 0 <= j < m.len() implies (#[trigger] m[j] as u32) < 128 by {
                assert(m[j] == f(l[j]));
                assert((l[j] as u32) < 128);
            }
        }
        assert(ascii_lowered(m) =~= ascii_lowered(l)) by {
            assert forall|j: int| 0 <= j < m.len() implies #[trigger] ascii_lowered(m)[j]
                == ascii_lowered(l)[j] by {
                assert(m[j] == f(l[j]));
                assert(ascii_lower(f(l[j])) == ascii_lower(l[j]));
            }
        }
    }
    lemma_outcome_by_lowered_lines(ms, ls, s.map_values(f), s);
}

/// Whether a write succeeded does not depend on the case of ExifTool's
/// report: an ASCII report read in capitals or in small letters comes to
/// the same verdict.
pub proof fn lemma_write_verdict_ignores_ascii_case(s: Seq<char>)
    requires
        is_ascii_text(s),
    ensures
        outcome_of_lines(lines(ascii_uppered(s)), ascii_uppered(s)).0 == outcome_of_lines(
            lines(s),
            s,
        ).0,
        outcome_of_lines(lines(ascii_lowered(s)), ascii_lowered(s)).0 == outcome_of_lines(
            lines(s),
            s,
        ).0,
{
    let up = |c: char| ascii_upper(c);
    let low = |c: char| ascii_lower(c);
    assert(case_change(up));
    assert(case_change(low));
    lemma_verdict_survives(s, up);
    lemma_verdict_survives(s, low);
}

/// Parse the stdout from an ExifTool write operation to determine success.
pub fn parse_write_output(output: &str) -> (r: Result<WriteResult, String>)
    ensures
        r matches Ok(w) && (w.success, w.message@) == outcome_of_lines(lines(output@), output@),
{
    let ls = split_lines(output);
    let ghost all = views(ls@);
    let mut i: usize = 0;
    assert(all.skip(0) =~= all);
    while i < ls.len()
        invariant
            i <= ls.len(),
            all == views(ls@),
            all == lines(output@),
            outcome_of_lines(all, output@) == outcome_of_lines(all.skip(i as int), output@),
        decreases ls.len() - i,
    {
        let ghost rest = all.skip(i as int);
        assert(rest[0] == ls@[i as int]@);
        assert(rest.drop_first() =~= all.skip(i + 1));
        let line = &ls[i];
        let low = to_lowercase(line.as_str());
        if contains(low.as_str(), "error") || contains(low.as_str(), "warning: error") {
            let message = line.as_str().to_owned();
            return Ok(WriteResult { success: false, message });
        }
        if contains(low.as_str(), "image files updated") || contains(low.as_str(), "image file updated")
            || contains(low.as_str(), "files updated") || contains(low.as_str(), "file updated") {
            let message = trim(line.as_str());
            return Ok(WriteResult { success: true, message });
        }
        i = i + 1;
    }
    assert(all.skip(i as int) =~= Seq::<Seq<char>>::empty());
    Ok(WriteResult { success: true, message: trim(output) })
}

} // verus!
