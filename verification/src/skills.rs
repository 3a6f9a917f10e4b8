//! Reusable workflow skills: Markdown files listed with a short preview.
use vstd::prelude::*;
use crate::text::{chars_of, join, lines, owned, push_str, string_of};
use crate::map::{text_lt, text_lt_exec};

verus! {

/// A skill: its name, where it is, and the start of its text.
#[derive(Debug)]
pub struct Skill {
    pub name: String,
    pub path: String,
    pub preview: String,
}

/// The preview of a skill: its first three lines, joined by spaces.
pub open spec fn preview_text(content: Seq<char>) -> Seq<char> {
    let ls = lines(content);
    join(ls.take(if ls.len() < 3 { ls.len() as int } else { 3 }), " "@)
}

pub fn skill_preview(content: &str) -> (r: String)
    ensures
        r@ == preview_text(content@),
{
    let ls = crate::text::lines_of(&chars_of(content));
    let n: usize = if ls.len() < 3 {
        ls.len()
    } else {
        3
    };
    let mut top: Vec<Vec<char>> = Vec::new();
    let mut i: usize = 0;
    while i < n
        invariant
            i <= n <= ls@.len(),
            crate::text::views(top@) == crate::text::views(ls@).take(i as int),
        decreases n - i,
    {
        let ghost before = crate::text::views(top@);
        let piece = crate::text::slice_chars(&ls[i], 0, ls[i].len());
        assert(piece@ =~= ls@[i as int]@);
        top.push(piece);
        assert(crate::text::views(top@) =~= before.push(ls@[i as int]@));
        assert(crate::text::views(ls@).take(i + 1) =~= crate::text::views(ls@).take(i as int).push(
            ls@[i as int]@,
        ));
        i = i + 1;
    }
    string_of(&crate::text::join_chars(&top, " "))
}

/// How a skill is listed.
pub open spec fn listing_text(name: Seq<char>, path: Seq<char>, preview: Seq<char>) -> Seq<char> {
    name + "  "@ + path + "\n  "@ + preview
}

impl Skill {
    /// The skill's listing: name and path, then the preview indented.
    pub fn listing(&self) -> (r: String)
        ensures
            r@ == listing_text(self.name@, self.path@, self.preview@),
    {
        let mut out = chars_of(self.name.as_str());
        push_str(&mut out, "  ");
        push_str(&mut out, self.path.as_str());
        push_str(&mut out, "\n  ");
        push_str(&mut out, self.preview.as_str());
        string_of(&out)
    }
}

/// A skill as plain values: name, path, preview.
pub open spec fn skill_view(k: Skill) -> (Seq<char>, Seq<char>, Seq<char>) {
    (k.name@, k.path@, k.preview@)
}

pub open spec fn skills_view(v: Seq<Skill>) -> Seq<(Seq<char>, Seq<char>, Seq<char>)> {
    v.map_values(|k: Skill| skill_view(k))
}

/// Where a skill goes among skills sorted by name: after every skill whose
/// name is not greater than its own.
pub open spec fn insert_by_name(
    sorted: Seq<(Seq<char>, Seq<char>, Seq<char>)>,
    x: (Seq<char>, Seq<char>, Seq<char>),
) -> Seq<(Seq<char>, Seq<char>, Seq<char>)>
    decreases sorted.len(),
{
    if sorted.len() == 0 {
        seq![x]
    } else if text_lt(x.0, sorted.last().0) {
        insert_by_name(sorted.drop_last(), x).push(sorted.last())
    } else {
        sorted.push(x)
    }
}

/// Skills sorted by name, those with equal names in their first order (the
/// stable `sort_by` on names).
pub open spec fn sort_by_name(v: Seq<(Seq<char>, Seq<char>, Seq<char>)>) -> Seq<(Seq<char>, Seq<char>, Seq<char>)>
    decreases v.len(),
{
    if v.len() == 0 {
        seq![]
    } else {
        insert_by_name(sort_by_name(v.drop_last()), v.last())
    }
}

/// No skill comes after one whose name is greater.
pub open spec fn names_sorted(v: Seq<(Seq<char>, Seq<char>, Seq<char>)>) -> bool {
    forall|i: int, j: int| 0 <= i < j < v.len() ==> !text_lt(#[trigger] v[j].0, #[trigger] v[i].0)
}

proof fn lemma_insert_sorted(s: Seq<(Seq<char>, Seq<char>, Seq<char>)>, x: (Seq<char>, Seq<char>, Seq<char>))
    requires
        names_sorted(s),
    ensures
        names_sorted(insert_by_name(s, x)),
        insert_by_name(s, x).len() == s.len() + 1,
        forall|k: int|
            0 <= k < insert_by_name(s, x).len() ==> #[trigger] insert_by_name(s, x)[k] == x || s.contains(
                insert_by_name(s, x)[k],
            ),
    decreases s.len(),
{
    let r = insert_by_name(s, x);
    if s.len() == 0 {
    } else {
        let last = s.last();
        let d = s.drop_last();
        assert(names_sorted(d));
        if text_lt(x.0, last.0) {
            lemma_insert_sorted(d, x);
            let q = insert_by_name(d, x);
            assert forall|k: int| 0 <= k < q.len() implies !text_lt(last.0, #[trigger] q[k].0) by {
                if q[k] == x {
                    crate::map::lemma_text_lt_asymmetric(x.0, last.0);
                } else {
                    let j = choose|j: int| 0 <= j < d.len() && d[j] == q[k];
                    assert(s[j] == d[j]);
                    assert(s[s.len() - 1] == last);
                }
            }
            assert forall|k: int| 0 <= k < r.len() implies #[trigger] r[k] == x || s.contains(r[k]) by {
                if k < q.len() {
                    if q[k] != x {
                        let j = choose|j: int| 0 <= j < d.len() && d[j] == q[k];
                        assert(s[j] == d[j]);
                    }
                } else {
                    assert(s[s.len() - 1] == last);
                }
            }
        } else {
            assert forall|i: int, j: int| 0 <= i < j < r.len() implies !text_lt(#[trigger] r[j].0, #[trigger] r[i].0) by {
                if j == r.len() - 1 && i < s.len() {
                    let e = s[i];
                    if text_lt(x.0, e.0) {
                        crate::map::lemma_text_lt_trichotomy(e.0, last.0);
                        if text_lt(e.0, last.0) {
                            crate::map::lemma_text_lt_transitive(x.0, e.0, last.0);
                        } else if text_lt(last.0, e.0) {
                            assert(s[s.len() - 1] == last);
                            if i < s.len() - 1 {
                                assert(!text_lt(s[s.len() - 1].0, s[i].0));
                            } else {
                                crate::map::lemma_text_lt_irreflexive(e.0);
                            }
                        }
                    }
                }
            }
            assert forall|k: int| 0 <= k < r.len() implies #[trigger] r[k] == x || s.contains(r[k]) by {
                if k < s.len() {
                    assert(r[k] == s[k]);
                }
            }
        }
    }
}

/// Sorting by name gives skills in name order.
pub proof fn lemma_sorted_by_name(v: Seq<(Seq<char>, Seq<char>, Seq<char>)>)
    ensures
        names_sorted(sort_by_name(v)),
        sort_by_name(v).len() == v.len(),
    decreases v.len(),
{
    if v.len() > 0 {
        lemma_sorted_by_name(v.drop_last());
        lemma_insert_sorted(sort_by_name(v.drop_last()), v.last());
    }
}

/// Only Markdown files are skills.
pub fn is_skill_file(extension: Option<&str>) -> (r: bool)
    ensures
        r == (extension matches Some(e) && e@ == "md"@),
{
    match extension {
        Some(e) => crate::text::same_text(e, "md"),
        None => false,
    }
}

/// Inserts a skill at the place [`insert_by_name`] gives it.
fn insert_skill(sorted: &mut Vec<Skill>, x: Skill)
    ensures
        skills_view(final(sorted)@) == insert_by_name(skills_view(old(sorted)@), skill_view(x)),
{
    let ghost x_view = skill_view(x);
    let ghost start = skills_view(sorted@);
    let name = chars_of(x.name.as_str());
    let mut k: usize = sorted.len();
    assert(start.take(k as int) =~= start);
    assert(start.skip(k as int) =~= Seq::<(Seq<char>, Seq<char>, Seq<char>)>::empty());
    assert(insert_by_name(start, x_view) + start.skip(k as int) =~= insert_by_name(start, x_view));
    // `k` walks back over the skills whose names are greater.
    while k > 0 && text_lt_exec(&name, &chars_of(sorted[k - 1].name.as_str()))
        invariant
            k <= sorted@.len(),
            start == skills_view(sorted@),
            name@ == x_view.0,
            insert_by_name(start, x_view) == insert_by_name(start.take(k as int), x_view) + start.skip(
                k as int,
            ),
        decreases k,
    {
        let ghost t = start.take(k as int);
        assert(t.drop_last() =~= start.take(k - 1));
        assert(t.last() == start[k - 1]);
        assert(start.skip(k - 1) =~= seq![start[k - 1]] + start.skip(k as int));
        assert(insert_by_name(t, x_view) == insert_by_name(start.take(k - 1), x_view).push(start[k - 1]));
        assert(insert_by_name(start.take(k - 1), x_view).push(start[k - 1]) + start.skip(k as int)
            =~= insert_by_name(start.take(k - 1), x_view) + start.skip(k - 1));
        k = k - 1;
    }
    proof {
        let t = start.take(k as int);
        if k > 0 {
            assert(t.last() == start[k - 1]);
            assert(t.drop_last().push(t.last()) =~= t);
        }
        assert(insert_by_name(t, x_view) =~= t.push(x_view));
    }
    sorted.insert(k, x);
    assert(skills_view(sorted@) =~= start.take(k as int).push(x_view) + start.skip(k as int));
}

/// Skills sorted by name, stably (see [`sort_by_name`]).
pub fn sort_skills(skills: Vec<Skill>) -> (r: Vec<Skill>)
    ensures
        skills_view(r@) == sort_by_name(skills_view(skills@)),
{
    let ghost all = skills_view(skills@);
    let mut rest = skills;
    let mut out: Vec<Skill> = Vec::new();
    let mut i: usize = 0;
    let n: usize = rest.len();
    assert(all.len() == n);
    assert(skills_view(out@) =~= Seq::<(Seq<char>, Seq<char>, Seq<char>)>::empty());
    assert(all.skip(0) =~= all);
    assert(all.take(0) =~= Seq::<(Seq<char>, Seq<char>, Seq<char>)>::empty());
    while rest.len() > 0
        invariant
            i + rest@.len() == all.len(),
            all.len() <= usize::MAX,
            skills_view(rest@) == all.skip(i as int),
            skills_view(out@) == sort_by_name(all.take(i as int)),
        decreases rest.len(),
    {
        let ghost before = rest@;
        let x = rest.remove(0);
        assert(rest@ =~= before.subrange(1, before.len() as int));
        assert(skill_view(x) == skills_view(before)[0]);
        assert(all.take(i + 1).drop_last() =~= all.take(i as int));
        assert(all.skip(i as int)[0] == all[i as int]);
        assert(all.take(i + 1).last() == all[i as int]);
        assert(skills_view(rest@) =~= skills_view(before).subrange(1, before.len() as int));
        assert(skills_view(before).subrange(1, before.len() as int) =~= all.skip(i + 1));
        insert_skill(&mut out, x);
        i = i + 1;
    }
    assert(all.take(i as int) =~= all);
    out
}

/// A skill's name: the file's stem, or `skill`.
pub fn skill_name(stem: Option<&str>) -> (r: String)
    ensures
        r@ == match stem {
            Some(s) => s@,
            None => "skill"@,
        },
{
    match stem {
        Some(s) => owned(s),
        None => owned("skill"),
    }
}

} // verus!
