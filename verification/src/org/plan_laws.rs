//! The day plan file reads back what was written into its keyword lines.

use vstd::prelude::*;

use crate::dates::{date_iso, date_of, lemma_date_of, lemma_iso_date_roundtrip, max_day, min_day};
use crate::model::day_plan::DayPlan;
use crate::org::extract::preamble;
use crate::org::parser::notes_end;
use crate::org::writer::{day_plan_header, day_plan_sections, nl};
use crate::text::{
    decimal, is_ascii_digit, is_ws, lemma_decimal_digits, lemma_find_from_at, lemma_lines_nl_text_then,
    lemma_parse_u32_decimal, lemma_trim_ws_then, lines, nl_text, plain_line, all_digits, trimmed, has_prefix_at,
};

verus! {

/// The keyword lines of a day plan file, one by one.
pub open spec fn plan_header_rows(p: DayPlan) -> Seq<Seq<char>> {
    seq![
        "#+TITLE: Day Plan"@,
        "#+DATE: "@ + date_iso(p.date),
        "#+SPOON_BUDGET: "@ + decimal(p.spoon_budget as nat),
        "#+SPENT_SPOONS: "@ + decimal(p.spent_spoons as nat),
        seq![],
    ]
}

proof fn lemma_header_rows(p: DayPlan)
    ensures
        day_plan_header(p) == nl_text(plan_header_rows(p)),
{
    let r = plan_header_rows(p);
    assert(r.drop_last().drop_last().drop_last().drop_last().drop_last() =~= Seq::<Seq<char>>::empty());
    assert(nl_text(Seq::<Seq<char>>::empty()) =~= Seq::<char>::empty());
    assert(nl_text(r.drop_last().drop_last().drop_last().drop_last()) =~= r[0] + seq!['\n']);
    assert(nl_text(r.drop_last().drop_last().drop_last()) =~= r[0] + seq!['\n'] + r[1] + seq!['\n']);
    assert(nl_text(r.drop_last().drop_last()) =~= r[0] + seq!['\n'] + r[1] + seq!['\n'] + r[2] + seq!['\n']);
    assert(nl_text(r.drop_last()) =~= r[0] + seq!['\n'] + r[1] + seq!['\n'] + r[2] + seq!['\n'] + r[3]
        + seq!['\n']);
    assert(day_plan_header(p) =~= nl_text(r));
}

proof fn lemma_digits_plain(s: Seq<char>)
    requires
        all_digits(s),
        s.len() >= 1,
    ensures
        forall|i: int| 0 <= i < s.len() ==> #[trigger] s[i] != '\n',
        !is_ws(s[0]) && !is_ws(s.last()),
        trimmed(s),
{
    assert(is_ascii_digit(s[0]));
    assert(is_ascii_digit(s[s.len() - 1]));
    assert forall|i: int| 0 <= i < s.len() implies #[trigger] s[i] != '\n' by {
        assert(is_ascii_digit(s[i]));
    }
}

proof fn lemma_no_prefix(l: Seq<char>, p: Seq<char>, k: int)
    requires
        0 <= k < p.len(),
        k < l.len() ==> l[k] != p[k],
    ensures
        !has_prefix_at(l, 0, p),
{
    if has_prefix_at(l, 0, p) {
        assert(l.subrange(0, p.len() as int)[k] == l[k]);
    }
}

/// The day plan file reads back the date, the spoon budget and the spent
/// spoons it was written with.
#[verifier::rlimit(60)]
pub proof fn lemma_day_plan_header_roundtrip(p: DayPlan)
    requires
        min_day() <= p.date.num() <= max_day(),
    ensures
        ({
            let ls = lines(day_plan_header(p) + day_plan_sections(p));
            preamble(ls, notes_end(ls, 0)) == (Some(p.date.num()), p.spoon_budget, p.spent_spoons)
        }),
{
    reveal_strlit("#+TITLE: Day Plan");
    reveal_strlit("#+DATE: ");
    reveal_strlit("#+SPOON_BUDGET: ");
    reveal_strlit("#+SPENT_SPOONS: ");
    reveal_strlit("#+DATE:");
    reveal_strlit("#+SPOON_BUDGET:");
    reveal_strlit("#+SPENT_SPOONS:");
    reveal_strlit("* Active Contexts");
    let rows = plan_header_rows(p);
    let n = p.date.num();
    lemma_date_of(p.date);
    lemma_iso_date_roundtrip(n);
    let di = date_iso(p.date);
    assert(di == date_iso(date_of(n)));
    lemma_decimal_digits(p.spoon_budget as nat);
    lemma_decimal_digits(p.spent_spoons as nat);
    let db = decimal(p.spoon_budget as nat);
    let ds = decimal(p.spent_spoons as nat);
    lemma_digits_plain(db);
    lemma_digits_plain(ds);
    assert(!is_ws(di[0]) && !is_ws(di[di.len() - 1])) by {
        assert(is_ascii_digit(di[0]) || di[0] == '-' || di[0] == '+');
        assert(is_ascii_digit(di[di.len() - 1]) || di[di.len() - 1] == '-' || di[di.len() - 1] == '+');
    }
    assert(trimmed(di));
    assert forall|i: int| 0 <= i < rows.len() implies plain_line(#[trigger] rows[i]) by {
        if i == 1 {
            assert forall|j: int| 0 <= j < rows[1].len() implies #[trigger] rows[1][j] != '\n' by {
                if j >= 8 {
                    assert(rows[1][j] == di[j - 8]);
                    assert(is_ascii_digit(di[j - 8]) || di[j - 8] == '-' || di[j - 8] == '+');
                }
            }
        }
        if i == 2 {
            assert forall|j: int| 0 <= j < rows[2].len() implies #[trigger] rows[2][j] != '\n' by {
                if j >= 16 {
                    assert(rows[2][j] == db[j - 16]);
                }
            }
        }
        if i == 3 {
            assert forall|j: int| 0 <= j < rows[3].len() implies #[trigger] rows[3][j] != '\n' by {
                if j >= 16 {
                    assert(rows[3][j] == ds[j - 16]);
                }
            }
        }
    }
    lemma_header_rows(p);
    let rest = day_plan_sections(p);
    lemma_lines_nl_text_then(rows, rest);
    let ls = lines(day_plan_header(p) + rest);
    assert(ls == rows + lines(rest));
    // The first section line starts with `*`.
    let title = "* Active Contexts"@;
    assert(rest =~= title + (nl() + (rest.skip(title.len() + 1int))));
    assert forall|j: int| 0 <= j < title.len() implies #[trigger] rest[j] != '\n' by {
        assert(rest[j] == title[j]);
    }
    assert(rest[title.len() as int] == '\n');
    lemma_find_from_at(rest, '\n', 0, title.len() as int);
    assert(rest.subrange(0, title.len() as int) =~= title);
    assert(lines(rest).len() > 0);
    assert(lines(rest)[0] == title);
    assert(ls[5] == title);
    assert(notes_end(ls, 5) == 5);
    assert(notes_end(ls, 4) == 5);
    assert(notes_end(ls, 3) == 5);
    assert(notes_end(ls, 2) == 5);
    assert(notes_end(ls, 1) == 5);
    assert(notes_end(ls, 0) == 5);
    // The keyword lines, one by one.
    assert(ls[0] == rows[0] && ls[1] == rows[1] && ls[2] == rows[2] && ls[3] == rows[3] && ls[4] == rows[4]);
    lemma_no_prefix(ls[0], "#+DATE:"@, 2);
    lemma_no_prefix(ls[0], "#+SPOON_BUDGET:"@, 2);
    lemma_no_prefix(ls[0], "#+SPENT_SPOONS:"@, 2);
    assert(preamble(ls, 0) == (None::<int>, 50u32, 0u32));
    assert(preamble(ls, 1) == (None::<int>, 50u32, 0u32));
    assert(ls[1].subrange(0, 7) =~= "#+DATE:"@);
    assert(has_prefix_at(ls[1], 0, "#+DATE:"@));
    assert(ls[1].skip(7) =~= seq![' '] + di);
    lemma_trim_ws_then(seq![' '], di);
    assert(preamble(ls, 2) == (Some(n), 50u32, 0u32));
    lemma_no_prefix(ls[2], "#+DATE:"@, 2);
    assert(ls[2].subrange(0, 15) =~= "#+SPOON_BUDGET:"@);
    assert(has_prefix_at(ls[2], 0, "#+SPOON_BUDGET:"@));
    assert(ls[2].skip(15) =~= seq![' '] + db);
    lemma_trim_ws_then(seq![' '], db);
    lemma_parse_u32_decimal(p.spoon_budget);
    assert(preamble(ls, 3) == (Some(n), p.spoon_budget, 0u32));
    lemma_no_prefix(ls[3], "#+DATE:"@, 2);
    lemma_no_prefix(ls[3], "#+SPOON_BUDGET:"@, 4);
    assert(ls[3].subrange(0, 15) =~= "#+SPENT_SPOONS:"@);
    assert(has_prefix_at(ls[3], 0, "#+SPENT_SPOONS:"@));
    assert(ls[3].skip(15) =~= seq![' '] + ds);
    lemma_trim_ws_then(seq![' '], ds);
    lemma_parse_u32_decimal(p.spent_spoons);
    assert(preamble(ls, 4) == (Some(n), p.spoon_budget, p.spent_spoons));
    assert(!has_prefix_at(ls[4], 0, "#+DATE:"@));
    assert(!has_prefix_at(ls[4], 0, "#+SPOON_BUDGET:"@));
    assert(!has_prefix_at(ls[4], 0, "#+SPENT_SPOONS:"@));
}

} // verus!
