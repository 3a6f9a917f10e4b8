//! Review of a unified git diff for common risk patterns.
use vstd::prelude::*;
use crate::text::{
    chars_of, contains, contains_str, decimal, lines, lines_of, lower, parse_usize, parse_usize_exec,
    push_all, push_str, slice_chars, starts_with, starts_with_str, string_of, to_lower, usize_to_chars,
    views,
};

verus! {

/// One review finding.
#[derive(Debug)]
pub struct Finding {
    pub severity: &'static str,
    pub location: String,
    pub message: &'static str,
}

/// A finding as plain values: severity, location, message.
pub type SpecFinding = (Seq<char>, Seq<char>, Seq<char>);

pub open spec fn finding_view(f: Finding) -> SpecFinding {
    (f.severity@, f.location@, f.message@)
}

pub open spec fn findings_view(fs: Seq<Finding>) -> Seq<SpecFinding> {
    fs.map_values(|f: Finding| finding_view(f))
}

/// `file:line`.
pub open spec fn location(file: Seq<char>, line: nat) -> Seq<char> {
    file + ":"@ + decimal(line)
}

impl Finding {
    pub fn new(severity: &'static str, file: &Vec<char>, line: usize, message: &'static str) -> (r:
        Finding)
        ensures
            finding_view(r) == (severity@, location(file@, line as nat), message@),
    {
        let mut loc = file.clone();
        assert(loc@ == file@);
        push_str(&mut loc, ":");
        push_all(&mut loc, &usize_to_chars(line));
        Finding { severity, location: string_of(&loc), message }
    }
}

/// The leading part of `s` before the first `,` or space.
pub open spec fn first_field_len(s: Seq<char>, i: int) -> int
    decreases s.len() - i,
{
    if i >= s.len() || i < 0 {
        s.len() as int
    } else if s[i] == ',' || s[i] == ' ' {
        i
    } else {
        first_field_len(s, i + 1)
    }
}

/// The new-file start line a hunk header names, or 0.
pub open spec fn hunk_start(line: Seq<char>) -> nat {
    match crate::text::find(line, "+"@) {
        Some(i) => {
            let tail = line.skip(i + 1);
            let field = tail.take(first_field_len(tail, 0));
            match parse_usize(field) {
                Some(n) => n as nat,
                None => 0,
            }
        },
        None => 0,
    }
}

/// `n - 1`, stopping at 0.
pub open spec fn sat_dec(n: nat) -> nat {
    if n == 0 {
        0
    } else {
        (n - 1) as nat
    }
}

/// `n + 1`, stopping at `usize::MAX`.
pub open spec fn sat_inc(n: nat) -> nat {
    if n >= usize::MAX {
        usize::MAX as nat
    } else {
        n + 1
    }
}

/// The findings an added line gives, at the given location.
pub open spec fn line_findings(line: Seq<char>, file: Seq<char>, n: nat) -> Seq<SpecFinding> {
    let lowered = lower(line);
    let loc = location(file, n);
    let a: Seq<SpecFinding> = if contains(lowered, "unwrap()"@) || contains(lowered, "expect("@) {
        seq![("P2"@, loc, "new panic path needs justification"@)]
    } else {
        seq![]
    };
    let b: Seq<SpecFinding> = if contains(lowered, "todo!"@) || contains(lowered, "unimplemented!"@) {
        seq![("P1"@, loc, "placeholder code can ship as a runtime failure"@)]
    } else {
        seq![]
    };
    let c: Seq<SpecFinding> = if contains(lowered, "danger-full-access"@) {
        seq![("P1"@, loc, "danger-full-access path should be tightly scoped"@)]
    } else {
        seq![]
    };
    a + b + c
}

/// State of the review: findings so far, current file, current new-file line.
pub type ReviewState = (Seq<SpecFinding>, Seq<char>, nat);

pub open spec fn review_step(state: ReviewState, line: Seq<char>) -> ReviewState {
    let (findings, file, n) = state;
    if starts_with(line, "+++ b/"@) {
        (findings, line.skip(6), 0)
    } else if starts_with(line, "@@"@) {
        if contains(line, "+"@) {
            (findings, file, sat_dec(hunk_start(line)))
        } else {
            state
        }
    } else if starts_with(line, "+"@) && !starts_with(line, "+++"@) {
        let m = sat_inc(n);
        (findings + line_findings(line, file, m), file, m)
    } else if !starts_with(line, "-"@) {
        (findings, file, sat_inc(n))
    } else {
        state
    }
}

pub open spec fn review_fold(ls: Seq<Seq<char>>) -> ReviewState
    decreases ls.len(),
{
    if ls.len() == 0 {
        (seq![], "diff"@, 0)
    } else {
        review_step(review_fold(ls.drop_last()), ls.last())
    }
}

/// The findings of a review of `diff`: added lines (not file headers) with
/// a panic path, placeholder code or the full-access profile, located by
/// the `+++ b/` file and the new-file line number from the hunk headers.
pub open spec fn review_findings(diff: Seq<char>) -> Seq<SpecFinding> {
    review_fold(lines(diff)).0
}

fn hunk_start_exec(line: &Vec<char>) -> (r: usize)
    ensures
        r as nat == hunk_start(line@),
{
    match crate::text::find_str_from(line, "+", 0) {
        Some(i) => {
            proof {
                crate::text::lemma_find_from(line@, "+"@, 0);
                reveal_strlit("+");
                assert(crate::text::find_from(line@, "+"@, 0) == Some(i as int));
                assert(crate::text::matches_at(line@, "+"@, i as int));
                assert("+"@.len() == 1);
                assert(i + 1 <= line@.len());
            }
            assert(i < line.len());
            let tail = slice_chars(line, i + 1, line.len());
            assert(tail@ =~= line@.skip(i + 1));
            let mut j: usize = 0;
            while j < tail.len() && tail[j] != ',' && tail[j] != ' '
                invariant
                    j <= tail.len(),
                    first_field_len(tail@, 0) == first_field_len(tail@, j as int),
                decreases tail.len() - j,
            {
                j = j + 1;
            }
            let field = slice_chars(&tail, 0, j);
            assert(field@ =~= tail@.take(j as int));
            match parse_usize_exec(&field) {
                Some(n) => n,
                None => 0,
            }
        },
        None => 0,
    }
}

proof fn lemma_digit_char(x: nat)
    requires
        x < 10,
    ensures
        crate::text::is_digit(crate::text::digit_char(x)),
        crate::text::digit_value(crate::text::digit_char(x)) == x,
{
    let c = crate::text::digit_char(x);
    assert((c as u32) == x + 48);
}

proof fn lemma_decimal_digits(n: nat)
    ensures
        decimal(n).len() > 0,
        forall|i: int| 0 <= i < decimal(n).len() ==> crate::text::is_digit(#[trigger] decimal(n)[i]),
        crate::text::digits_value(decimal(n)) == n,
    decreases n,
{
    lemma_digit_char(n % 10);
    if n < 10 {
        let d = decimal(n);
        assert(d == seq![crate::text::digit_char(n)]);
        assert(d.drop_last() =~= Seq::<char>::empty());
        assert(n % 10 == n);
        assert(d.last() == crate::text::digit_char(n));
        assert(crate::text::digits_value(d.drop_last()) == 0);
        assert(crate::text::digits_value(d) == crate::text::digits_value(d.drop_last()) * 10
            + crate::text::digit_value(d.last()));
    } else {
        lemma_decimal_digits(n / 10);
        let d = decimal(n);
        assert(d.drop_last() =~= decimal(n / 10));
        assert forall|i: int| 0 <= i < d.len() implies crate::text::is_digit(#[trigger] d[i]) by {
            if i < d.len() - 1 {
                assert(d[i] == decimal(n / 10)[i]);
            }
        }
        assert(d.last() == crate::text::digit_char(n % 10));
        assert(crate::text::digits_value(d) == crate::text::digits_value(d.drop_last()) * 10
            + crate::text::digit_value(d.last()));
        assert(n == (n / 10) * 10 + n % 10);
    }
}

proof fn lemma_field_len(tail: Seq<char>, d: Seq<char>, b: Seq<char>, i: int)
    requires
        tail == d + b,
        0 <= i <= d.len(),
        forall|k: int| 0 <= k < d.len() ==> crate::text::is_digit(#[trigger] d[k]),
        b.len() == 0 || b[0] == ',' || b[0] == ' ',
    ensures
        first_field_len(tail, i) == d.len(),
    decreases d.len() - i,
{
    if i < d.len() {
        assert(tail[i] == d[i]);
        assert(crate::text::is_digit(d[i]));
        lemma_field_len(tail, d, b, i + 1);
    } else if b.len() > 0 {
        assert(tail[i] == b[0]);
    }
}

/// A hunk header's new-file start is the number right after its first
/// `+`: for a header `@@`, then text without `+`, then `+N`, then nothing
/// or a `,` or space and the rest, the start is `N`.
pub proof fn law_hunk_start_reads_plus_number(a: Seq<char>, n: usize, b: Seq<char>)
    requires
        forall|i: int| 0 <= i < a.len() ==> #[trigger] a[i] != '+',
        b.len() == 0 || b[0] == ',' || b[0] == ' ',
    ensures
        hunk_start("@@"@ + a + "+"@ + decimal(n as nat) + b) == n,
{
    reveal_strlit("@@");
    reveal_strlit("+");
    let d = decimal(n as nat);
    let h = "@@"@ + a + "+"@ + d + b;
    let p: int = a.len() as int + 2;
    lemma_decimal_digits(n as nat);
    crate::text::lemma_find_from(h, "+"@, 0);
    assert(h.subrange(p, p + 1) =~= "+"@);
    assert(crate::text::matches_at(h, "+"@, p));
    assert forall|k: int| 0 <= k < p implies !#[trigger] crate::text::matches_at(h, "+"@, k) by {
        if crate::text::matches_at(h, "+"@, k) {
            assert(h.subrange(k, k + 1)[0] == h[k]);
            if k >= 2 {
                assert(h[k] == a[k - 2]);
            } else {
                assert(h[k] == '@');
            }
        }
    }
    assert(crate::text::find(h, "+"@) == Some(p));
    let tail = h.skip(p + 1);
    assert(tail =~= d + b);
    lemma_field_len(tail, d, b, 0);
    assert(tail.take(d.len() as int) =~= d);
    assert(crate::text::unsigned_body(d) == d) by {
        assert(crate::text::is_digit(d[0]));
    }
}

/// A hunk header sets the line count afresh, whatever came before it: after
/// a `@@` header naming new-file line `N` (at least 1), the next added line
/// is reviewed as line `N` of the current file, its findings follow those so
/// far, and the review goes on from line `N` of the same file.
pub proof fn law_hunk_header_sets_line(ls: Seq<Seq<char>>, header: Seq<char>, added: Seq<char>)
    requires
        starts_with(header, "@@"@),
        contains(header, "+"@),
        hunk_start(header) >= 1,
        starts_with(added, "+"@),
        !starts_with(added, "+++"@),
    ensures
        review_fold(ls.push(header).push(added)) == (
            review_fold(ls).0 + line_findings(added, review_fold(ls).1, hunk_start(header)),
            review_fold(ls).1,
            hunk_start(header),
        ),
{
    reveal_strlit("@@");
    reveal_strlit("+");
    reveal_strlit("+++");
    reveal_strlit("+++ b/");
    reveal_strlit("-");
    let with_header = ls.push(header);
    let all = with_header.push(added);
    assert(all.drop_last() =~= with_header);
    assert(with_header.drop_last() =~= ls);
    assert(header.take(2) == "@@"@);
    assert(header.take(2)[0] == header[0]);
    assert(header[0] == '@');
    assert(!starts_with(header, "+++ b/"@)) by {
        if starts_with(header, "+++ b/"@) {
            assert(header.take(6)[0] == header[0]);
        }
    }
    assert(added.take(1) == "+"@);
    assert(added.take(1)[0] == added[0]);
    assert(added[0] == '+');
    assert(!starts_with(added, "@@"@)) by {
        if starts_with(added, "@@"@) {
            assert(added.take(2)[0] == added[0]);
        }
    }
    assert(!starts_with(added, "-"@)) by {
        if starts_with(added, "-"@) {
            assert(added.take(1)[0] == added[0]);
        }
    }
    assert(!starts_with(added, "+++ b/"@)) by {
        if starts_with(added, "+++ b/"@) {
            assert(added.take(3) =~= added.take(6).take(3));
            assert(added.take(3) =~= "+++"@);
        }
    }
    let n = hunk_start(header);
    assert(n <= usize::MAX);
    assert(sat_inc(sat_dec(n)) == n);
    let s0 = review_fold(ls);
    assert(review_fold(with_header) == review_step(s0, header));
    assert(review_step(s0, header) == (s0.0, s0.1, sat_dec(n)));
    assert(review_fold(all) == review_step(review_step(s0, header), added));
}

/// Flags risky additions in a unified diff.
pub fn review_diff(diff: &str) -> (r: Vec<Finding>)
    ensures
        findings_view(r@) == review_findings(diff@),
{
    let all = lines_of(&chars_of(diff));
    let ghost ls = views(all@);
    let mut findings: Vec<Finding> = Vec::new();
    let mut file = chars_of("diff");
    let mut new_line: usize = 0;
    let mut i: usize = 0;
    while i < all.len()
        invariant
            i <= all.len(),
            ls == views(all@),
            ls == lines(diff@),
            review_fold(ls.take(i as int)) == (findings_view(findings@), file@, new_line as nat),
        decreases all.len() - i,
    {
        let line = &all[i];
        assert(ls.take(i + 1).drop_last() =~= ls.take(i as int));
        assert(ls[i as int] == line@);
        if starts_with_str(line, "+++ b/") {
            proof {
                reveal_strlit("+++ b/");
            }
            file = slice_chars(line, 6, line.len());
            assert(file@ =~= line@.skip(6));
            new_line = 0;
        } else if starts_with_str(line, "@@") {
            if contains_str(line, "+") {
                let start = hunk_start_exec(line);
                new_line = if start == 0 {
                    0
                } else {
                    start - 1
                };
            }
        } else if starts_with_str(line, "+") && !starts_with_str(line, "+++") {
            new_line = if new_line == usize::MAX {
                usize::MAX
            } else {
                new_line + 1
            };
            let lowered = to_lower(line);
            let ghost before = findings_view(findings@);
            let ghost loc = location(file@, new_line as nat);
            if contains_str(&lowered, "unwrap()") || contains_str(&lowered, "expect(") {
                findings.push(
                    Finding::new("P2", &file, new_line, "new panic path needs justification"),
                );
            }
            let ghost after_a = findings_view(findings@);
            if contains_str(&lowered, "todo!") || contains_str(&lowered, "unimplemented!") {
                findings.push(
                    Finding::new(
                        "P1",
                        &file,
                        new_line,
                        "placeholder code can ship as a runtime failure",
                    ),
                );
            }
            let ghost after_b = findings_view(findings@);
            if contains_str(&lowered, "danger-full-access") {
                findings.push(
                    Finding::new(
                        "P1",
                        &file,
                        new_line,
                        "danger-full-access path should be tightly scoped",
                    ),
                );
            }
            assert(findings_view(findings@) =~= before + line_findings(
                line@,
                file@,
                new_line as nat,
            ));
        } else if !starts_with_str(line, "-") {
            new_line = if new_line == usize::MAX {
                usize::MAX
            } else {
                new_line + 1
            };
        }
        i = i + 1;
    }
    assert(ls.take(all.len() as int) =~= ls);
    findings
}

/// How one finding is reported: `[severity] location: message`.
pub open spec fn finding_line(f: SpecFinding) -> Seq<char> {
    "["@ + f.0 + "] "@ + f.1 + ": "@ + f.2
}

/// The review report of a diff: a line per finding, or, when there is
/// none, a line saying so and, for a blank diff, a line saying that there
/// was nothing to review.
pub open spec fn report_lines(diff: Seq<char>) -> Seq<Seq<char>> {
    let fs = review_findings(diff);
    if fs.len() == 0 {
        seq!["No findings."@] + if crate::text::is_blank(diff) {
            seq!["No git diff was available to review."@]
        } else {
            seq![]
        }
    } else {
        fs.map_values(|f: SpecFinding| finding_line(f))
    }
}

pub fn review_report(diff: &str) -> (r: Vec<String>)
    ensures
        crate::map::string_texts(r@) == report_lines(diff@),
{
    let findings = review_diff(diff);
    let mut out: Vec<String> = Vec::new();
    if findings.len() == 0 {
        out.push(crate::text::owned("No findings."));
        if crate::text::is_blank_chars(&chars_of(diff)) {
            out.push(crate::text::owned("No git diff was available to review."));
        }
        assert(crate::map::string_texts(out@) =~= report_lines(diff@));
        return out;
    }
    let ghost fv = findings_view(findings@);
    let mut i: usize = 0;
    while i < findings.len()
        invariant
            i <= findings@.len(),
            fv == findings_view(findings@),
            fv == review_findings(diff@),
            crate::map::string_texts(out@) == fv.take(i as int).map_values(|f: SpecFinding| finding_line(f)),
        decreases findings.len() - i,
    {
        let f = &findings[i];
        let mut line = chars_of("[");
        push_str(&mut line, f.severity);
        push_str(&mut line, "] ");
        push_str(&mut line, f.location.as_str());
        push_str(&mut line, ": ");
        push_str(&mut line, f.message);
        let ghost before = crate::map::string_texts(out@);
        out.push(string_of(&line));
        assert(fv[i as int] == finding_view(findings@[i as int]));
        assert(crate::map::string_texts(out@) =~= before.push(finding_line(fv[i as int])));
        assert(fv.take(i + 1).map_values(|f: SpecFinding| finding_line(f)) =~= fv.take(i as int).map_values(
            |f: SpecFinding| finding_line(f),
        ).push(finding_line(fv[i as int])));
        i = i + 1;
    }
    assert(fv.take(i as int) =~= fv);
    out
}

} // verus!
