//! Habits, projects and the day plan read from org files.

use vstd::prelude::*;

use crate::dates::{Date, DateTime, dt_parts, opt_num, parse_iso_date_spec};
use crate::ids::{uuid_parse_spec, Uuid};
use crate::model::day_plan::{CompletedTask, DayPlan, completed_views};
use crate::model::habit::{Habit, completion_days, is_longest_run, run_ending, streak_start};
use crate::model::project::Project;
use crate::model::recurrence::{interval_of, Recurrence, RecurrenceUnit};
use crate::model::task::{strs, Task, TaskView};
use crate::org::convert::{
    clone_strings, heading_to_task, id_from, prop, task_from_heading, opt_str_view,
};
use crate::org::parser::{heading_views, notes_end, property_value, HeadingSpec, OrgParser, ParsedHeading, parse_org};
use crate::text::{
    chars_of, has_prefix_at, lines, parse_u32, parse_u32_spec, slice_chars, split_lines,
    splitn3, splitn3_chars, starts_with_str_at, string_of, trim, trim_chars, views, chars_eq_str,
};

verus! {

// ---------------------------------------------------------------------------
// Habits
// ---------------------------------------------------------------------------

pub open spec fn habit_tag() -> Seq<char> {
    seq!['h', 'a', 'b', 'i', 't']
}

pub open spec fn style_key() -> Seq<char> {
    seq!['S', 'T', 'Y', 'L', 'E']
}

/// No repeater, or a repeater of exactly one day.
pub open spec fn is_daily(r: Option<Recurrence>) -> bool {
    match r {
        None => true,
        Some(x) => interval_of(x).unit == RecurrenceUnit::Day && interval_of(x).count == 1,
    }
}

/// A daily heading tagged `habit` or with `STYLE: habit`.
pub open spec fn is_habit_heading(h: HeadingSpec) -> bool {
    (h.tags.contains(habit_tag()) || prop(h, style_key()) == Some(habit_tag())) && is_daily(
        h.recurrence,
    )
}

/// `hb` is the habit read from heading `h`, its streaks counted on `today`.
pub open spec fn habit_from_heading(hb: Habit, h: HeadingSpec, today: Date) -> bool {
    let ds = completion_days(hb.completions@);
    &&& task_from_heading(hb.task@, h)
    &&& hb.completions@.map_values(|d: DateTime| dt_parts(d)) == h.logbook_entries
    &&& hb.completions@.len() == 0 ==> hb.streak == 0 && hb.best_streak == 0
    &&& hb.completions@.len() > 0 ==> {
        &&& hb.streak == run_ending(ds, streak_start(ds, today.num()))
        &&& is_longest_run(ds, hb.best_streak as nat)
    }
}

pub open spec fn habits_from(r: Seq<Habit>, hs: Seq<HeadingSpec>, today: Date) -> bool {
    let fs = hs.filter(|h: HeadingSpec| is_habit_heading(h));
    &&& r.len() == fs.len()
    &&& forall|i: int| 0 <= i < r.len() ==> habit_from_heading(#[trigger] r[i], fs[i], today)
}

fn is_habit_heading_exec(h: &ParsedHeading) -> (r: bool)
    ensures
        r == is_habit_heading(h@),
{
    proof {
        reveal_strlit("habit");
        reveal_strlit("STYLE");
    }
    assert("habit"@ =~= habit_tag());
    assert("STYLE"@ =~= style_key());
    let mut tagged = false;
    let mut i: usize = 0;
    while i < h.tags.len()
        invariant
            i <= h.tags.len(),
            "habit"@ == habit_tag(),
            tagged == exists|k: int| 0 <= k < i && h.tags@[k]@ == habit_tag(),
        decreases h.tags.len() - i,
    {
        if crate::text::str_eq(h.tags[i].as_str(), "habit") {
            assert(h.tags@[i as int]@ == habit_tag());
            tagged = true;
        }
        i = i + 1;
    }
    assert(tagged == strs(h.tags@).contains(habit_tag())) by {
        if strs(h.tags@).contains(habit_tag()) {
            let k = choose|k: int| 0 <= k < strs(h.tags@).len() && strs(h.tags@)[k] == habit_tag();
            assert(h.tags@[k]@ == habit_tag());
        }
        if tagged {
            let k = choose|k: int| 0 <= k < h.tags@.len() && h.tags@[k]@ == habit_tag();
            assert(strs(h.tags@)[k] == habit_tag());
        }
    }
    let styled = match OrgParser::get_property(&h.properties, "STYLE") {
        Some(v) => crate::text::str_eq(v, "habit"),
        None => false,
    };
    let daily = match h.recurrence {
        None => true,
        Some(r) => {
            let iv = match r {
                Recurrence::Standard(i) => i,
                Recurrence::Relative(i) => i,
                Recurrence::Strict(i) => i,
            };
            iv.unit == RecurrenceUnit::Day && iv.count == 1
        },
    };
    (tagged || styled) && daily
}

fn copy_times(v: &Vec<DateTime>) -> (r: Vec<DateTime>)
    ensures
        r@ == v@,
{
    let mut r: Vec<DateTime> = Vec::new();
    let mut i: usize = 0;
    while i < v.len()
        invariant
            i <= v.len(),
            r@ == v@.take(i as int),
        decreases v.len() - i,
    {
        r.push(v[i]);
        assert(r@ =~= v@.take(i + 1));
        i = i + 1;
    }
    assert(v@.take(v.len() as int) =~= v@);
    r
}

/// The habits among the headings, their streaks counted on `today`.
pub fn extract_habits_on(hs: &Vec<ParsedHeading>, today: Date) -> (r: Vec<Habit>)
    ensures
        habits_from(r@, hs@.map_values(|h: ParsedHeading| h@), today),
{
    let ghost hv = hs@.map_values(|h: ParsedHeading| h@);
    let mut r: Vec<Habit> = Vec::new();
    let mut i: usize = 0;
    while i < hs.len()
        invariant
            i <= hs.len(),
            hv == hs@.map_values(|h: ParsedHeading| h@),
            habits_from(r@, hv.take(i as int), today),
        decreases hs.len() - i,
    {
        proof {
            reveal(Seq::filter);
            assert(hv.take(i + 1).drop_last() =~= hv.take(i as int));
            assert(hv.take(i + 1).last() == hs@[i as int]@);
        }
        if is_habit_heading_exec(&hs[i]) {
            let task = heading_to_task(&hs[i]);
            let mut habit = Habit::new(task);
            habit.completions = copy_times(&hs[i].logbook_entries);
            habit.recalculate_streak(today);
            let ghost before = r@;
            r.push(habit);
            proof {
                let fs = hv.take(i as int).filter(|h: HeadingSpec| is_habit_heading(h));
                let fs2 = hv.take(i + 1).filter(|h: HeadingSpec| is_habit_heading(h));
                assert(fs2 == fs.push(hs@[i as int]@));
                assert forall|k: int| 0 <= k < r@.len() implies habit_from_heading(
                    #[trigger] r@[k],
                    fs2[k],
                    today,
                ) by {
                    if k < before.len() {
                        assert(r@[k] == before[k]);
                    }
                }
            }
        }
        i = i + 1;
    }
    assert(hv.take(hs.len() as int) =~= hv);
    r
}

/// The habits among the headings, their streaks counted on today's date.
pub fn extract_habits(hs: &Vec<ParsedHeading>) -> (r: Vec<Habit>)
    ensures
        exists|today: Date| #[trigger] habits_from(r@, heading_views(hs@), today),
{
    let today = Date::today();
    let r = extract_habits_on(hs, today);
    assert(habits_from(r@, heading_views(hs@), today));
    r
}

/// The habits of an org text.
pub fn parse_habits(input: &str) -> (r: Vec<Habit>)
    ensures
        exists|today: Date| #[trigger] habits_from(r@, parse_org(input@), today),
{
    let hs = OrgParser::parse(input);
    extract_habits(&hs)
}

// ---------------------------------------------------------------------------
// Projects
// ---------------------------------------------------------------------------

pub open spec fn project_prefix() -> Seq<char> {
    seq!['P', 'r', 'o', 'j', 'e', 'c', 't', ':', ' ']
}

pub open spec fn purpose_key() -> Seq<char> {
    seq!['P', 'U', 'R', 'P', 'O', 'S', 'E']
}

pub open spec fn outcome_key() -> Seq<char> {
    seq!['O', 'U', 'T', 'C', 'O', 'M', 'E']
}

/// A project heading's title without a leading `Project: `.
pub open spec fn project_name(h: HeadingSpec) -> Seq<char> {
    if has_prefix_at(h.title, 0, project_prefix()) {
        h.title.skip(9)
    } else {
        h.title
    }
}

pub open spec fn prop_or_empty(h: HeadingSpec, key: Seq<char>) -> Seq<char> {
    match prop(h, key) {
        Some(v) => v,
        None => seq![],
    }
}

/// The grouping of headings into projects after the first `n` headings:
/// the closed groups and the open one, each a project heading's index and
/// its task headings' indices. A level-1 heading without a state opens a
/// project; a level-2 heading joins the open one; a level-1 heading with a
/// state closes it.
pub open spec fn group_state(hs: Seq<HeadingSpec>, n: int) -> (
    Seq<(int, Seq<int>)>,
    Option<(int, Seq<int>)>,
)
    decreases n,
{
    if n <= 0 {
        (seq![], None)
    } else {
        let (gs, cur) = group_state(hs, n - 1);
        let h = hs[n - 1];
        let closed = match cur {
            Some(c) => gs.push(c),
            None => gs,
        };
        if h.level == 1 && h.state is None {
            (closed, Some((n - 1, seq![])))
        } else if h.level == 2 && cur is Some {
            let c = cur->0;
            (gs, Some((c.0, c.1.push(n - 1))))
        } else if h.level == 1 && h.state is Some {
            (closed, None)
        } else {
            (gs, cur)
        }
    }
}

pub open spec fn project_groups(hs: Seq<HeadingSpec>) -> Seq<(int, Seq<int>)> {
    let (gs, cur) = group_state(hs, hs.len() as int);
    match cur {
        Some(c) => gs.push(c),
        None => gs,
    }
}

/// `t` is the task read from heading `h`, placed in the project `name`.
pub open spec fn project_task(t: TaskView, h: HeadingSpec, name: Seq<char>) -> bool {
    task_from_heading(TaskView { project: None, ..t }, h) && t.project == Some(name)
}

/// `p` is the project of group `g`.
pub open spec fn project_of_group(p: Project, hs: Seq<HeadingSpec>, g: (int, Seq<int>)) -> bool {
    let h = hs[g.0];
    &&& (id_from(h) matches Some(id) ==> p.id == id)
    &&& p.name@ == project_name(h)
    &&& p.purpose@ == prop_or_empty(h, purpose_key())
    &&& p.outcome@ == prop_or_empty(h, outcome_key())
    &&& p.brainstorm@ == h.notes
    &&& p.tasks@.len() == g.1.len()
    &&& forall|k: int|
        0 <= k < g.1.len() ==> project_task(#[trigger] p.tasks@[k]@, hs[g.1[k]], p.name@)
}

pub open spec fn groups_ok(hs: Seq<HeadingSpec>, gs: Seq<(int, Seq<int>)>) -> bool {
    forall|i: int|
        0 <= i < gs.len() ==> 0 <= (#[trigger] gs[i]).0 < hs.len() && forall|k: int|
            0 <= k < gs[i].1.len() ==> 0 <= #[trigger] gs[i].1[k] < hs.len()
}

proof fn lemma_group_state(hs: Seq<HeadingSpec>, n: int)
    requires
        0 <= n <= hs.len(),
    ensures
        groups_ok(hs, group_state(hs, n).0),
        group_state(hs, n).1 matches Some(c) ==> groups_ok(hs, seq![c]),
    decreases n,
{
    if n > 0 {
        lemma_group_state(hs, n - 1);
        let (gs, cur) = group_state(hs, n - 1);
        match cur {
            Some(c) => {
                assert(groups_ok(hs, seq![c]));
                assert(seq![c][0] == c);
                assert(groups_ok(hs, gs.push(c))) by {
                    assert forall|i: int| 0 <= i < gs.push(c).len() implies 0 <= (
                    #[trigger] gs.push(c)[i]).0 < hs.len() && forall|k: int|
                        0 <= k < gs.push(c)[i].1.len() ==> 0 <= #[trigger] gs.push(c)[i].1[k]
                            < hs.len() by {
                        if i == gs.len() {
                            assert(gs.push(c)[i] == seq![c][0]);
                        }
                    }
                }
                let c2 = (c.0, c.1.push(n - 1));
                assert(groups_ok(hs, seq![c2])) by {
                    assert(seq![c2][0] == c2);
                    assert(seq![c][0] == c);
                    assert forall|k: int| 0 <= k < c2.1.len() implies 0 <= #[trigger] c2.1[k]
                        < hs.len() by {
                        if k < c.1.len() {
                            assert(c2.1[k] == c.1[k]);
                        }
                    }
                }
            },
            None => {},
        }
        let o = (n - 1, Seq::<int>::empty());
        assert(groups_ok(hs, seq![o])) by {
            assert(seq![o][0] == o);
        }
    }
}

pub open spec fn projects_from(r: Seq<Project>, hs: Seq<HeadingSpec>) -> bool {
    let gs = project_groups(hs);
    &&& r.len() == gs.len()
    &&& forall|i: int| 0 <= i < r.len() ==> project_of_group(#[trigger] r[i], hs, gs[i])
}

fn project_from_heading(h: &ParsedHeading) -> (r: Project)
    ensures
        (id_from(h@) matches Some(id) ==> r.id == id),
        r.name@ == project_name(h@),
        r.purpose@ == prop_or_empty(h@, purpose_key()),
        r.outcome@ == prop_or_empty(h@, outcome_key()),
        r.brainstorm@ == h@.notes,
        r.tasks@.len() == 0,
{
    proof {
        reveal_strlit("Project: ");
        reveal_strlit("ID");
        reveal_strlit("PURPOSE");
        reveal_strlit("OUTCOME");
    }
    assert("Project: "@ =~= project_prefix());
    assert("ID"@ =~= crate::org::convert::id_key());
    assert("PURPOSE"@ =~= purpose_key());
    assert("OUTCOME"@ =~= outcome_key());
    let t = chars_of(h.title.as_str());
    let name = if starts_with_str_at(&t, 0, "Project: ") {
        let rest = slice_chars(&t, 9, t.len());
        assert(rest@ =~= t@.skip(9));
        string_of(rest.as_slice())
    } else {
        h.title.clone()
    };
    let mut p = Project::new(name.as_str());
    match OrgParser::get_property(&h.properties, "ID") {
        Some(s) => match Uuid::parse_str(s) {
            Some(id) => {
                p.id = id;
            },
            None => {},
        },
        None => {},
    }
    p.purpose = match OrgParser::get_property(&h.properties, "PURPOSE") {
        Some(s) => s.to_owned(),
        None => String::new(),
    };
    p.outcome = match OrgParser::get_property(&h.properties, "OUTCOME") {
        Some(s) => s.to_owned(),
        None => String::new(),
    };
    p.brainstorm = h.notes.clone();
    p
}

/// Projects and their tasks, read by heading level.
pub fn extract_projects(hs: &Vec<ParsedHeading>) -> (r: Vec<Project>)
    ensures
        projects_from(r@, hs@.map_values(|h: ParsedHeading| h@)),
{
    let ghost hv = hs@.map_values(|h: ParsedHeading| h@);
    let mut projects: Vec<Project> = Vec::new();
    let mut current: Option<Project> = None;
    let mut i: usize = 0;
    while i < hs.len()
        invariant
            i <= hs.len(),
            hv == hs@.map_values(|h: ParsedHeading| h@),
            hv.len() == hs.len(),
            projects@.len() == group_state(hv, i as int).0.len(),
            forall|p: int|
                0 <= p < projects@.len() ==> project_of_group(
                    #[trigger] projects@[p],
                    hv,
                    group_state(hv, i as int).0[p],
                ),
            current is Some <==> group_state(hv, i as int).1 is Some,
            current matches Some(c) ==> project_of_group(c, hv, group_state(hv, i as int).1->0),
        decreases hs.len() - i,
    {
        let h = &hs[i];
        assert(hv[i as int] == h@);
        proof {
            lemma_group_state(hv, i as int);
        }
        let ghost gs0 = group_state(hv, i as int).0;
        let ghost cur0 = group_state(hv, i as int).1;
        if h.level == 1 && h.state.is_none() {
            match current {
                Some(p) => {
                    projects.push(p);
                },
                None => {},
            }
            current = Some(project_from_heading(h));
        } else if h.level == 2 && current.is_some() {
            let mut task = heading_to_task(h);
            let mut c = current.unwrap();
            task.project = Some(c.name.clone());
            let ghost before = c.tasks@;
            c.tasks.push(task);
            proof {
                let g = cur0->0;
                assert forall|k: int| 0 <= k < g.1.push(i as int).len() implies project_task(
                    #[trigger] c.tasks@[k]@,
                    hv[g.1.push(i as int)[k]],
                    c.name@,
                ) by {
                    if k < before.len() {
                        assert(c.tasks@[k] == before[k]);
                    } else {
                        assert(TaskView { project: None, ..task@ } == TaskView { project: None, ..task@ });
                    }
                }
            }
            current = Some(c);
        } else if h.level == 1 && h.state.is_some() {
            match current {
                Some(p) => {
                    projects.push(p);
                },
                None => {},
            }
            current = None;
        }
        i = i + 1;
    }
    match current {
        Some(p) => {
            projects.push(p);
        },
        None => {},
    }
    projects
}

/// The projects of an org text.
pub fn parse_projects(input: &str) -> (r: Vec<Project>)
    ensures
        projects_from(r@, parse_org(input@)),
{
    let hs = OrgParser::parse(input);
    extract_projects(&hs)
}

// ---------------------------------------------------------------------------
// The day plan
// ---------------------------------------------------------------------------

/// The `#+DATE:`, `#+SPOON_BUDGET:` and `#+SPENT_SPOONS:` keywords among the
/// first `n` lines (later lines win; an unreadable budget is 50, an
/// unreadable spending 0, an unreadable date none).
pub open spec fn preamble(ls: Seq<Seq<char>>, n: int) -> (Option<int>, u32, u32)
    decreases n,
{
    if n <= 0 {
        (None, 50, 0)
    } else {
        let (d, b, sp) = preamble(ls, n - 1);
        let l = ls[n - 1];
        if has_prefix_at(l, 0, "#+DATE:"@) {
            (parse_iso_date_spec(trim(l.skip("#+DATE:"@.len() as int))), b, sp)
        } else if has_prefix_at(l, 0, "#+SPOON_BUDGET:"@) {
            (
                d,
                match parse_u32_spec(trim(l.skip("#+SPOON_BUDGET:"@.len() as int))) {
                    Some(x) => x,
                    None => 50,
                },
                sp,
            )
        } else if has_prefix_at(l, 0, "#+SPENT_SPOONS:"@) {
            (
                d,
                b,
                match parse_u32_spec(trim(l.skip("#+SPENT_SPOONS:"@.len() as int))) {
                    Some(x) => x,
                    None => 0,
                },
            )
        } else {
            (d, b, sp)
        }
    }
}

/// What the sections of a day plan hold so far.
pub struct PlanFold {
    pub section: int,
    pub contexts: Seq<Seq<char>>,
    pub tasks: Seq<Uuid>,
    pub completed: Seq<(Uuid, Seq<char>, Option<u32>)>,
    pub media: Seq<Uuid>,
    pub shopping: Seq<Uuid>,
}

/// The section a (trimmed) line opens: 1 contexts, 2 confirmed tasks,
/// 3 completed tasks, 4 media, 5 shopping, 0 any other `* ` heading.
pub open spec fn section_of(t: Seq<char>) -> Option<int> {
    if t == "* Active Contexts"@ {
        Some(1)
    } else if t == "* Confirmed Tasks"@ {
        Some(2)
    } else if t == "* Completed Tasks"@ {
        Some(3)
    } else if t == "* Picked Media"@ {
        Some(4)
    } else if t == "* Picked Shopping"@ {
        Some(5)
    } else if has_prefix_at(t, 0, "* "@) {
        Some(0)
    } else {
        None
    }
}

pub open spec fn uuid_of(s: Seq<char>) -> Option<Uuid> {
    match uuid_parse_spec(s) {
        Some(v) => Some(Uuid { value: v }),
        None => None,
    }
}

/// A completed-task item `uuid | title | esc`.
pub open spec fn completed_of(item: Seq<char>) -> Option<(Uuid, Seq<char>, Option<u32>)> {
    let parts = splitn3(item, " | "@);
    match uuid_of(trim(parts[0])) {
        None => None,
        Some(id) => Some(
            (
                id,
                if parts.len() > 1 {
                    trim(parts[1])
                } else {
                    seq![]
                },
                if parts.len() > 2 {
                    parse_u32_spec(trim(parts[2]))
                } else {
                    None
                },
            ),
        ),
    }
}

pub open spec fn push_opt<A>(s: Seq<A>, x: Option<A>) -> Seq<A> {
    match x {
        Some(a) => s.push(a),
        None => s,
    }
}

/// The sections after the first `n` lines.
pub open spec fn plan_fold(ls: Seq<Seq<char>>, n: int) -> PlanFold
    decreases n,
{
    if n <= 0 {
        PlanFold {
            section: 0,
            contexts: seq![],
            tasks: seq![],
            completed: seq![],
            media: seq![],
            shopping: seq![],
        }
    } else {
        let f = plan_fold(ls, n - 1);
        let t = trim(ls[n - 1]);
        match section_of(t) {
            Some(sec) => PlanFold { section: sec, ..f },
            None => if has_prefix_at(t, 0, "- "@) {
                let item = t.skip(2);
                if f.section == 1 {
                    PlanFold { contexts: f.contexts.push(item), ..f }
                } else if f.section == 2 {
                    PlanFold { tasks: push_opt(f.tasks, uuid_of(item)), ..f }
                } else if f.section == 3 {
                    PlanFold { completed: push_opt(f.completed, completed_of(item)), ..f }
                } else if f.section == 4 {
                    PlanFold { media: push_opt(f.media, uuid_of(item)), ..f }
                } else if f.section == 5 {
                    PlanFold { shopping: push_opt(f.shopping, uuid_of(item)), ..f }
                } else {
                    f
                }
            } else {
                f
            },
        }
    }
}

/// `p` is the day plan of the org text `s`.
pub open spec fn day_plan_of(p: DayPlan, s: Seq<char>) -> bool {
    let ls = lines(s);
    let (d, b, sp) = preamble(ls, notes_end(ls, 0));
    let f = plan_fold(ls, ls.len() as int);
    &&& d == Some(p.date.num())
    &&& p.spoon_budget == b
    &&& p.spent_spoons == sp
    &&& strs(p.active_contexts@) == f.contexts
    &&& p.confirmed_task_ids@ == f.tasks
    &&& completed_views(p.completed_tasks@) == f.completed
    &&& p.picked_media_ids@ == f.media
    &&& p.picked_shopping_ids@ == f.shopping
}

fn uuid_of_chars(v: &Vec<char>) -> (r: Option<Uuid>)
    ensures
        r == uuid_of(v@),
{
    let s = string_of(v.as_slice());
    Uuid::parse_str(s.as_str())
}

fn parse_u32_or(v: &Vec<char>, skip: usize, default: u32) -> (r: u32)
    requires
        skip <= v.len(),
    ensures
        r == match parse_u32_spec(trim(v@.skip(skip as int))) {
            Some(x) => x,
            None => default,
        },
{
    let rest = slice_chars(v, skip, v.len());
    assert(rest@ =~= v@.skip(skip as int));
    let t = trim_chars(&rest);
    match parse_u32(&t) {
        Some(x) => x,
        None => default,
    }
}

fn completed_of_exec(item: &Vec<char>) -> (r: Option<CompletedTask>)
    ensures
        match r {
            Some(c) => completed_of(item@) == Some((c.id, c.title@, c.esc)),
            None => completed_of(item@) is None,
        },
{
    let sep = chars_of(" | ");
    proof {
        reveal_strlit(" | ");
    }
    let parts = splitn3_chars(item, &sep);
    assert(parts@.len() >= 1) by {
        assert(views(parts@).len() == splitn3(item@, " | "@).len());
    }
    assert(views(parts@)[0] == parts@[0]@);
    let first = trim_chars(&parts[0]);
    match uuid_of_chars(&first) {
        None => None,
        Some(id) => {
            let title = if parts.len() > 1 {
                assert(views(parts@)[1] == parts@[1]@);
                let t = trim_chars(&parts[1]);
                string_of(t.as_slice())
            } else {
                String::new()
            };
            let esc = if parts.len() > 2 {
                assert(views(parts@)[2] == parts@[2]@);
                let t = trim_chars(&parts[2]);
                parse_u32(&t)
            } else {
                None
            };
            Some(CompletedTask { id, title, esc })
        },
    }
}

/// Reads a day plan file; `None` when it names no readable date.
pub fn parse_day_plan(input: &str) -> (r: Option<DayPlan>)
    ensures
        match r {
            Some(p) => day_plan_of(p, input@),
            None => preamble(lines(input@), notes_end(lines(input@), 0)).0 is None,
        },
{
    let v = chars_of(input);
    let ls = split_lines(&v);
    let ghost lv = views(ls@);
    assert(lv =~= lines(v@));
    proof {
        reveal_strlit("#+DATE:");
        reveal_strlit("#+SPOON_BUDGET:");
        reveal_strlit("#+SPENT_SPOONS:");
    }
    let dlen = "#+DATE:".unicode_len();
    let blen = "#+SPOON_BUDGET:".unicode_len();
    let slen = "#+SPENT_SPOONS:".unicode_len();
    let mut date: Option<Date> = None;
    let mut budget: u32 = 50;
    let mut spent: u32 = 0;
    let mut i: usize = 0;
    while i < ls.len() && !(ls[i].len() > 0 && ls[i][0] == '*')
        invariant
            i <= ls.len(),
            lv == views(ls@),
            dlen == "#+DATE:"@.len(),
            blen == "#+SPOON_BUDGET:"@.len(),
            slen == "#+SPENT_SPOONS:"@.len(),
            notes_end(lv, i as int) == notes_end(lv, 0),
            (opt_num(date), budget, spent) == preamble(lv, i as int),
        decreases ls.len() - i,
    {
        let l = &ls[i];
        assert(lv[i as int] == l@);
        if starts_with_str_at(l, 0, "#+DATE:") {
            let rest = slice_chars(l, dlen, l.len());
            assert(rest@ =~= l@.skip(dlen as int));
            let t = trim_chars(&rest);
            date = Date::parse_iso_chars(&t);
        } else if starts_with_str_at(l, 0, "#+SPOON_BUDGET:") {
            budget = parse_u32_or(l, blen, 50);
        } else if starts_with_str_at(l, 0, "#+SPENT_SPOONS:") {
            spent = parse_u32_or(l, slen, 0);
        }
        i = i + 1;
    }
    proof {
        if i < ls.len() {
            assert(lv[i as int] == ls@[i as int]@);
        }
        assert(notes_end(lv, i as int) == i);
    }
    let date = match date {
        Some(d) => d,
        None => {
            return None;
        },
    };
    let mut section: u8 = 0;
    let mut contexts: Vec<String> = Vec::new();
    let mut tasks: Vec<Uuid> = Vec::new();
    let mut completed: Vec<CompletedTask> = Vec::new();
    let mut media: Vec<Uuid> = Vec::new();
    let mut shopping: Vec<Uuid> = Vec::new();
    let mut k: usize = 0;
    while k < ls.len()
        invariant
            k <= ls.len(),
            lv == views(ls@),
            ({
                let f = plan_fold(lv, k as int);
                &&& f.section == section as int
                &&& strs(contexts@) == f.contexts
                &&& tasks@ == f.tasks
                &&& completed_views(completed@) == f.completed
                &&& media@ == f.media
                &&& shopping@ == f.shopping
            }),
        decreases ls.len() - k,
    {
        assert(lv[k as int] == ls@[k as int]@);
        let t = trim_chars(&ls[k]);
        if chars_eq_str(&t, "* Active Contexts") {
            section = 1;
        } else if chars_eq_str(&t, "* Confirmed Tasks") {
            section = 2;
        } else if chars_eq_str(&t, "* Completed Tasks") {
            section = 3;
        } else if chars_eq_str(&t, "* Picked Media") {
            section = 4;
        } else if chars_eq_str(&t, "* Picked Shopping") {
            section = 5;
        } else if starts_with_str_at(&t, 0, "* ") {
            section = 0;
        } else if starts_with_str_at(&t, 0, "- ") {
            proof {
                reveal_strlit("- ");
            }
            let item = slice_chars(&t, 2, t.len());
            assert(item@ =~= t@.skip(2));
            if section == 1 {
                let ghost before = contexts@;
                contexts.push(string_of(item.as_slice()));
                assert(strs(contexts@) =~= strs(before).push(item@));
            } else if section == 2 {
                match uuid_of_chars(&item) {
                    Some(id) => {
                        tasks.push(id);
                    },
                    None => {},
                }
            } else if section == 3 {
                match completed_of_exec(&item) {
                    Some(c) => {
                        let ghost before = completed@;
                        completed.push(c);
                        assert(completed_views(completed@) =~= completed_views(before).push(
                            (c.id, c.title@, c.esc),
                        ));
                    },
                    None => {},
                }
            } else if section == 4 {
                match uuid_of_chars(&item) {
                    Some(id) => {
                        media.push(id);
                    },
                    None => {},
                }
            } else if section == 5 {
                match uuid_of_chars(&item) {
                    Some(id) => {
                        shopping.push(id);
                    },
                    None => {},
                }
            }
        }
        k = k + 1;
    }
    Some(
        DayPlan {
            date,
            spoon_budget: budget,
            active_contexts: contexts,
            confirmed_task_ids: tasks,
            completed_tasks: completed,
            spent_spoons: spent,
            picked_media_ids: media,
            picked_shopping_ids: shopping,
        },
    )
}

} // verus!
