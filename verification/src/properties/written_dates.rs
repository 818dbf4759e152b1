//! Dates written the usual ways (`2025-07-17`, `07/17/2025`, `17 July 2025`)
//! parse back to themselves, whatever the settings.
use vstd::prelude::*;

use crate::calendar::{date_value, lemma_date_value_view, valid_ymd, Ymd};
use crate::parser::config::ParserConfig;
use crate::parser::parse_result;
use crate::parser::syntax::absolute::{
    date_day_month_year, date_freedom_units, date_iso, date_month_day_year, three_numbers, year,
};
use crate::parser::syntax::{expression, first_form, FdateExpression};
use crate::parser::syntax::common::{month, number_with_suffix, ordinal_suffix};
use crate::text::{digits_end, digits_value, exact, is_digit, is_space, lower, space1, spaces_end, tag_at, uint};

verus! {

/// The decimal digit of the number `n` (from 0 to 9).
pub open spec fn digit(n: int) -> char {
    (n + 48) as char
}

/// `n` (below 100) in two digits, with a leading zero when needed.
pub open spec fn two_digits(n: int) -> Seq<char> {
    seq![digit(n / 10), digit(n % 10)]
}

/// `n` (below 10000) in four digits, with leading zeros when needed.
pub open spec fn four_digits(n: int) -> Seq<char> {
    seq![digit(n / 1000), digit(n / 100 % 10), digit(n / 10 % 10), digit(n % 10)]
}

/// `year-month-day`, as in `2025-07-17`.
pub open spec fn iso_text(v: Ymd) -> Seq<char> {
    four_digits(v.0) + seq!['-'] + two_digits(v.1) + seq!['-'] + two_digits(v.2)
}

/// `day month-name year`, as in `17 July 2025`.
#[verifier::opaque]
pub open spec fn long_text(v: Ymd) -> Seq<char> {
    two_digits(v.2) + seq![' '] + month_name(v.1) + seq![' '] + four_digits(v.0)
}

/// The day in two digits, a space, the name of month `m`, a space, then the
/// year as written in `yt`.
#[verifier::opaque]
pub open spec fn day_first_text(d: int, m: int, yt: Seq<char>) -> Seq<char> {
    two_digits(d) + seq![' '] + month_name(m) + seq![' '] + yt
}

/// The name of month `m`, a space, the day in two digits, a space, then the
/// year as written in `yt`.
#[verifier::opaque]
pub open spec fn month_first_text(m: int, d: int, yt: Seq<char>) -> Seq<char> {
    month_name(m) + seq![' '] + two_digits(d) + seq![' '] + yt
}

/// `day month-name yy`, as in `17 July 25`, for a year from 2000 to 2099.
pub open spec fn short_year_text(v: Ymd) -> Seq<char> {
    day_first_text(v.2, v.1, two_digits(v.0 - 2000))
}

/// `month-name day year`, as in `July 17 2025`.
pub open spec fn month_first_long_text(v: Ymd) -> Seq<char> {
    month_first_text(v.1, v.2, four_digits(v.0))
}

/// `month-name day yy`, as in `July 17 25`, for a year from 2000 to 2099.
pub open spec fn month_first_short_year_text(v: Ymd) -> Seq<char> {
    month_first_text(v.1, v.2, two_digits(v.0 - 2000))
}

/// `month/day/year`, as in `07/17/2025`.
pub open spec fn us_text(v: Ymd) -> Seq<char> {
    two_digits(v.1) + seq!['/'] + two_digits(v.2) + seq!['/'] + four_digits(v.0)
}

pub(crate) proof fn lemma_digit(n: int)
    requires
        0 <= n <= 9,
    ensures
        is_digit(digit(n)),
        digit(n) as int - '0' as int == n,
{
}

/// Nothing more of a number comes at `j`.
pub open spec fn number_ends(s: Seq<char>, j: int) -> bool {
    j == s.len() || !is_digit(s[j])
}

pub(crate) proof fn lemma_two_digits_at(s: Seq<char>, i: int, n: int)
    requires
        0 <= n < 100,
        0 <= i,
        i + 2 <= s.len(),
        s[i] == digit(n / 10),
        s[i + 1] == digit(n % 10),
        number_ends(s, i + 2),
    ensures
        uint(s, i) == Some((i + 2, n as u32)),
        digits_end(s, i) == i + 2,
        digits_value(s, i, i + 2) == n,
{
    lemma_digit(n / 10);
    lemma_digit(n % 10);
    assert(digits_end(s, i + 2) == i + 2);
    assert(digits_end(s, i + 1) == i + 2);
    assert(digits_end(s, i) == i + 2);
    assert(digits_value(s, i, i) == 0);
    assert(digits_value(s, i, i + 1) == n / 10);
    assert(digits_value(s, i, i + 2) == n);
}

proof fn lemma_four_digits_at(s: Seq<char>, i: int, n: int)
    requires
        0 <= n < 10000,
        0 <= i,
        i + 4 <= s.len(),
        s[i] == digit(n / 1000),
        s[i + 1] == digit(n / 100 % 10),
        s[i + 2] == digit(n / 10 % 10),
        s[i + 3] == digit(n % 10),
        number_ends(s, i + 4),
    ensures
        uint(s, i) == Some((i + 4, n as u32)),
        digits_end(s, i) == i + 4,
        digits_value(s, i, i + 4) == n,
{
    lemma_digit(n / 1000);
    lemma_digit(n / 100 % 10);
    lemma_digit(n / 10 % 10);
    lemma_digit(n % 10);
    assert(digits_end(s, i + 4) == i + 4);
    assert(digits_end(s, i + 3) == i + 4);
    assert(digits_end(s, i + 2) == i + 4);
    assert(digits_end(s, i + 1) == i + 4);
    assert(digits_end(s, i) == i + 4);
    assert(digits_value(s, i, i) == 0);
    assert(digits_value(s, i, i + 1) == n / 1000);
    assert(digits_value(s, i, i + 2) == n / 100);
    assert(digits_value(s, i, i + 3) == n / 10);
    assert(digits_value(s, i, i + 4) == n);
}

/// The English name of month `m` (from 1 to 12), capitalized.
#[verifier::opaque]
pub open spec fn month_name(m: int) -> Seq<char> {
    if m == 1 {
        "January"@
    } else if m == 2 {
        "February"@
    } else if m == 3 {
        "March"@
    } else if m == 4 {
        "April"@
    } else if m == 5 {
        "May"@
    } else if m == 6 {
        "June"@
    } else if m == 7 {
        "July"@
    } else if m == 8 {
        "August"@
    } else if m == 9 {
        "September"@
    } else if m == 10 {
        "October"@
    } else if m == 11 {
        "November"@
    } else {
        "December"@
    }
}

proof fn lemma_month_name_at(s: Seq<char>, i: int, m: int)
    requires
        1 <= m <= 12,
        0 <= i,
        i + month_name(m).len() <= s.len(),
        forall|k: int| 0 <= k < month_name(m).len() ==> s[i + k] == #[trigger] month_name(m)[k],
    ensures
        month(s, i) matches Some((j, mo)) && j == i + month_name(m).len() && mo.number() == m,
        month_name(m).len() >= 3,
        !is_space(month_name(m)[0]),
        !is_digit(month_name(m)[0]),
{
    reveal(month_name);
    if m == 1 {
        reveal_strlit("january");
        reveal_strlit("January");
        assert forall|k: int| 0 <= k < 7 implies lower(#[trigger] s[i + k]) == "january"@[k] by {
            if k == 0 {
            assert(s[i + 0] == month_name(m)[0]);
        } else if k == 1 {
            assert(s[i + 1] == month_name(m)[1]);
        } else if k == 2 {
            assert(s[i + 2] == month_name(m)[2]);
        } else if k == 3 {
            assert(s[i + 3] == month_name(m)[3]);
        } else if k == 4 {
            assert(s[i + 4] == month_name(m)[4]);
        } else if k == 5 {
            assert(s[i + 5] == month_name(m)[5]);
        } else if k == 6 {
            assert(s[i + 6] == month_name(m)[6]);
        }
        }
        assert(tag_at(s, i, "january"@));
    } else if m == 2 {
        reveal_strlit("january");
        reveal_strlit("february");
        reveal_strlit("February");
        assert forall|k: int| 0 <= k < 8 implies lower(#[trigger] s[i + k]) == "february"@[k] by {
            if k == 0 {
            assert(s[i + 0] == month_name(m)[0]);
        } else if k == 1 {
            assert(s[i + 1] == month_name(m)[1]);
        } else if k == 2 {
            assert(s[i + 2] == month_name(m)[2]);
        } else if k == 3 {
            assert(s[i + 3] == month_name(m)[3]);
        } else if k == 4 {
            assert(s[i + 4] == month_name(m)[4]);
        } else if k == 5 {
            assert(s[i + 5] == month_name(m)[5]);
        } else if k == 6 {
            assert(s[i + 6] == month_name(m)[6]);
        } else if k == 7 {
            assert(s[i + 7] == month_name(m)[7]);
        }
        }
        assert(tag_at(s, i, "february"@));
        assert(lower(s[i + 0]) == "february"@[0]);
        assert(!tag_at(s, i, "january"@));
    } else if m == 3 {
        reveal_strlit("january");
        reveal_strlit("february");
        reveal_strlit("march");
        reveal_strlit("March");
        assert forall|k: int| 0 <= k < 5 implies lower(#[trigger] s[i + k]) == "march"@[k] by {
            if k == 0 {
            assert(s[i + 0] == month_name(m)[0]);
        } else if k == 1 {
            assert(s[i + 1] == month_name(m)[1]);
        } else if k == 2 {
            assert(s[i + 2] == month_name(m)[2]);
        } else if k == 3 {
            assert(s[i + 3] == month_name(m)[3]);
        } else if k == 4 {
            assert(s[i + 4] == month_name(m)[4]);
        }
        }
        assert(tag_at(s, i, "march"@));
        assert(lower(s[i + 0]) == "march"@[0]);
        assert(!tag_at(s, i, "january"@));
        assert(lower(s[i + 0]) == "march"@[0]);
        assert(!tag_at(s, i, "february"@));
    } else if m == 4 {
        reveal_strlit("january");
        reveal_strlit("february");
        reveal_strlit("march");
        reveal_strlit("april");
        reveal_strlit("April");
        assert forall|k: int| 0 <= k < 5 implies lower(#[trigger] s[i + k]) == "april"@[k] by {
            if k == 0 {
            assert(s[i + 0] == month_name(m)[0]);
        } else if k == 1 {
            assert(s[i + 1] == month_name(m)[1]);
        } else if k == 2 {
            assert(s[i + 2] == month_name(m)[2]);
        } else if k == 3 {
            assert(s[i + 3] == month_name(m)[3]);
        } else if k == 4 {
            assert(s[i + 4] == month_name(m)[4]);
        }
        }
        assert(tag_at(s, i, "april"@));
        assert(lower(s[i + 0]) == "april"@[0]);
        assert(!tag_at(s, i, "january"@));
        assert(lower(s[i + 0]) == "april"@[0]);
        assert(!tag_at(s, i, "february"@));
        assert(lower(s[i + 0]) == "april"@[0]);
        assert(!tag_at(s, i, "march"@));
    } else if m == 5 {
        reveal_strlit("january");
        reveal_strlit("february");
        reveal_strlit("march");
        reveal_strlit("april");
        reveal_strlit("may");
        reveal_strlit("May");
        assert forall|k: int| 0 <= k < 3 implies lower(#[trigger] s[i + k]) == "may"@[k] by {
            if k == 0 {
            assert(s[i + 0] == month_name(m)[0]);
        } else if k == 1 {
            assert(s[i + 1] == month_name(m)[1]);
        } else if k == 2 {
            assert(s[i + 2] == month_name(m)[2]);
        }
        }
        assert(tag_at(s, i, "may"@));
        assert(lower(s[i + 0]) == "may"@[0]);
        assert(!tag_at(s, i, "january"@));
        assert(lower(s[i + 0]) == "may"@[0]);
        assert(!tag_at(s, i, "february"@));
        assert(lower(s[i + 2]) == "may"@[2]);
        assert(!tag_at(s, i, "march"@));
        assert(lower(s[i + 0]) == "may"@[0]);
        assert(!tag_at(s, i, "april"@));
    } else if m == 6 {
        reveal_strlit("january");
        reveal_strlit("february");
        reveal_strlit("march");
        reveal_strlit("april");
        reveal_strlit("may");
        reveal_strlit("june");
        reveal_strlit("June");
        assert forall|k: int| 0 <= k < 4 implies lower(#[trigger] s[i + k]) == "june"@[k] by {
            if k == 0 {
            assert(s[i + 0] == month_name(m)[0]);
        } else if k == 1 {
            assert(s[i + 1] == month_name(m)[1]);
        } else if k == 2 {
            assert(s[i + 2] == month_name(m)[2]);
        } else if k == 3 {
            assert(s[i + 3] == month_name(m)[3]);
        }
        }
        assert(tag_at(s, i, "june"@));
        assert(lower(s[i + 1]) == "june"@[1]);
        assert(!tag_at(s, i, "january"@));
        assert(lower(s[i + 0]) == "june"@[0]);
        assert(!tag_at(s, i, "february"@));
        assert(lower(s[i + 0]) == "june"@[0]);
        assert(!tag_at(s, i, "march"@));
        assert(lower(s[i + 0]) == "june"@[0]);
        assert(!tag_at(s, i, "april"@));
        assert(lower(s[i + 0]) == "june"@[0]);
        assert(!tag_at(s, i, "may"@));
    } else if m == 7 {
        reveal_strlit("january");
        reveal_strlit("february");
        reveal_strlit("march");
        reveal_strlit("april");
        reveal_strlit("may");
        reveal_strlit("june");
        reveal_strlit("july");
        reveal_strlit("July");
        assert forall|k: int| 0 <= k < 4 implies lower(#[trigger] s[i + k]) == "july"@[k] by {
            if k == 0 {
            assert(s[i + 0] == month_name(m)[0]);
        } else if k == 1 {
            assert(s[i + 1] == month_name(m)[1]);
        } else if k == 2 {
            assert(s[i + 2] == month_name(m)[2]);
        } else if k == 3 {
            assert(s[i + 3] == month_name(m)[3]);
        }
        }
        assert(tag_at(s, i, "july"@));
        assert(lower(s[i + 1]) == "july"@[1]);
        assert(!tag_at(s, i, "january"@));
        assert(lower(s[i + 0]) == "july"@[0]);
        assert(!tag_at(s, i, "february"@));
        assert(lower(s[i + 0]) == "july"@[0]);
        assert(!tag_at(s, i, "march"@));
        assert(lower(s[i + 0]) == "july"@[0]);
        assert(!tag_at(s, i, "april"@));
        assert(lower(s[i + 0]) == "july"@[0]);
        assert(!tag_at(s, i, "may"@));
        assert(lower(s[i + 2]) == "july"@[2]);
        assert(!tag_at(s, i, "june"@));
    } else if m == 8 {
        reveal_strlit("january");
        reveal_strlit("february");
        reveal_strlit("march");
        reveal_strlit("april");
        reveal_strlit("may");
        reveal_strlit("june");
        reveal_strlit("july");
        reveal_strlit("august");
        reveal_strlit("August");
        assert forall|k: int| 0 <= k < 6 implies lower(#[trigger] s[i + k]) == "august"@[k] by {
            if k == 0 {
            assert(s[i + 0] == month_name(m)[0]);
        } else if k == 1 {
            assert(s[i + 1] == month_name(m)[1]);
        } else if k == 2 {
            assert(s[i + 2] == month_name(m)[2]);
        } else if k == 3 {
            assert(s[i + 3] == month_name(m)[3]);
        } else if k == 4 {
            assert(s[i + 4] == month_name(m)[4]);
        } else if k == 5 {
            assert(s[i + 5] == month_name(m)[5]);
        }
        }
        assert(tag_at(s, i, "august"@));
        assert(lower(s[i + 0]) == "august"@[0]);
        assert(!tag_at(s, i, "january"@));
        assert(lower(s[i + 0]) == "august"@[0]);
        assert(!tag_at(s, i, "february"@));
        assert(lower(s[i + 0]) == "august"@[0]);
        assert(!tag_at(s, i, "march"@));
        assert(lower(s[i + 1]) == "august"@[1]);
        assert(!tag_at(s, i, "april"@));
        assert(lower(s[i + 0]) == "august"@[0]);
        assert(!tag_at(s, i, "may"@));
        assert(lower(s[i + 0]) == "august"@[0]);
        assert(!tag_at(s, i, "june"@));
        assert(lower(s[i + 0]) == "august"@[0]);
        assert(!tag_at(s, i, "july"@));
    } else if m == 9 {
        reveal_strlit("january");
        reveal_strlit("february");
        reveal_strlit("march");
        reveal_strlit("april");
        reveal_strlit("may");
        reveal_strlit("june");
        reveal_strlit("july");
        reveal_strlit("august");
        reveal_strlit("september");
        reveal_strlit("September");
        assert forall|k: int| 0 <= k < 9 implies lower(#[trigger] s[i + k]) == "september"@[k] by {
            if k == 0 {
            assert(s[i + 0] == month_name(m)[0]);
        } else if k == 1 {
            assert(s[i + 1] == month_name(m)[1]);
        } else if k == 2 {
            assert(s[i + 2] == month_name(m)[2]);
        } else if k == 3 {
            assert(s[i + 3] == month_name(m)[3]);
        } else if k == 4 {
            assert(s[i + 4] == month_name(m)[4]);
        } else if k == 5 {
            assert(s[i + 5] == month_name(m)[5]);
        } else if k == 6 {
            assert(s[i + 6] == month_name(m)[6]);
        } else if k == 7 {
            assert(s[i + 7] == month_name(m)[7]);
        } else if k == 8 {
            assert(s[i + 8] == month_name(m)[8]);
        }
        }
        assert(tag_at(s, i, "september"@));
        assert(lower(s[i + 0]) == "september"@[0]);
        assert(!tag_at(s, i, "january"@));
        assert(lower(s[i + 0]) == "september"@[0]);
        assert(!tag_at(s, i, "february"@));
        assert(lower(s[i + 0]) == "september"@[0]);
        assert(!tag_at(s, i, "march"@));
        assert(lower(s[i + 0]) == "september"@[0]);
        assert(!tag_at(s, i, "april"@));
        assert(lower(s[i + 0]) == "september"@[0]);
        assert(!tag_at(s, i, "may"@));
        assert(lower(s[i + 0]) == "september"@[0]);
        assert(!tag_at(s, i, "june"@));
        assert(lower(s[i + 0]) == "september"@[0]);
        assert(!tag_at(s, i, "july"@));
        assert(lower(s[i + 0]) == "september"@[0]);
        assert(!tag_at(s, i, "august"@));
    } else if m == 10 {
        reveal_strlit("january");
        reveal_strlit("february");
        reveal_strlit("march");
        reveal_strlit("april");
        reveal_strlit("may");
        reveal_strlit("june");
        reveal_strlit("july");
        reveal_strlit("august");
        reveal_strlit("september");
        reveal_strlit("october");
        reveal_strlit("October");
        assert forall|k: int| 0 <= k < 7 implies lower(#[trigger] s[i + k]) == "october"@[k] by {
            if k == 0 {
            assert(s[i + 0] == month_name(m)[0]);
        } else if k == 1 {
            assert(s[i + 1] == month_name(m)[1]);
        } else if k == 2 {
            assert(s[i + 2] == month_name(m)[2]);
        } else if k == 3 {
            assert(s[i + 3] == month_name(m)[3]);
        } else if k == 4 {
            assert(s[i + 4] == month_name(m)[4]);
        } else if k == 5 {
            assert(s[i + 5] == month_name(m)[5]);
        } else if k == 6 {
            assert(s[i + 6] == month_name(m)[6]);
        }
        }
        assert(tag_at(s, i, "october"@));
        assert(lower(s[i + 0]) == "october"@[0]);
        assert(!tag_at(s, i, "january"@));
        assert(lower(s[i + 0]) == "october"@[0]);
        assert(!tag_at(s, i, "february"@));
        assert(lower(s[i + 0]) == "october"@[0]);
        assert(!tag_at(s, i, "march"@));
        assert(lower(s[i + 0]) == "october"@[0]);
        assert(!tag_at(s, i, "april"@));
        assert(lower(s[i + 0]) == "october"@[0]);
        assert(!tag_at(s, i, "may"@));
        assert(lower(s[i + 0]) == "october"@[0]);
        assert(!tag_at(s, i, "june"@));
        assert(lower(s[i + 0]) == "october"@[0]);
        assert(!tag_at(s, i, "july"@));
        assert(lower(s[i + 0]) == "october"@[0]);
        assert(!tag_at(s, i, "august"@));
        assert(lower(s[i + 0]) == "october"@[0]);
        assert(!tag_at(s, i, "september"@));
    } else if m == 11 {
        reveal_strlit("january");
        reveal_strlit("february");
        reveal_strlit("march");
        reveal_strlit("april");
        reveal_strlit("may");
        reveal_strlit("june");
        reveal_strlit("july");
        reveal_strlit("august");
        reveal_strlit("september");
        reveal_strlit("october");
        reveal_strlit("november");
        reveal_strlit("November");
        assert forall|k: int| 0 <= k < 8 implies lower(#[trigger] s[i + k]) == "november"@[k] by {
            if k == 0 {
            assert(s[i + 0] == month_name(m)[0]);
        } else if k == 1 {
            assert(s[i + 1] == month_name(m)[1]);
        } else if k == 2 {
            assert(s[i + 2] == month_name(m)[2]);
        } else if k == 3 {
            assert(s[i + 3] == month_name(m)[3]);
        } else if k == 4 {
            assert(s[i + 4] == month_name(m)[4]);
        } else if k == 5 {
            assert(s[i + 5] == month_name(m)[5]);
        } else if k == 6 {
            assert(s[i + 6] == month_name(m)[6]);
        } else if k == 7 {
            assert(s[i + 7] == month_name(m)[7]);
        }
        }
        assert(tag_at(s, i, "november"@));
        assert(lower(s[i + 0]) == "november"@[0]);
        assert(!tag_at(s, i, "january"@));
        assert(lower(s[i + 0]) == "november"@[0]);
        assert(!tag_at(s, i, "february"@));
        assert(lower(s[i + 0]) == "november"@[0]);
        assert(!tag_at(s, i, "march"@));
        assert(lower(s[i + 0]) == "november"@[0]);
        assert(!tag_at(s, i, "april"@));
        assert(lower(s[i + 0]) == "november"@[0]);
        assert(!tag_at(s, i, "may"@));
        assert(lower(s[i + 0]) == "november"@[0]);
        assert(!tag_at(s, i, "june"@));
        assert(lower(s[i + 0]) == "november"@[0]);
        assert(!tag_at(s, i, "july"@));
        assert(lower(s[i + 0]) == "november"@[0]);
        assert(!tag_at(s, i, "august"@));
        assert(lower(s[i + 0]) == "november"@[0]);
        assert(!tag_at(s, i, "september"@));
        assert(lower(s[i + 0]) == "november"@[0]);
        assert(!tag_at(s, i, "october"@));
    } else if m == 12 {
        reveal_strlit("january");
        reveal_strlit("february");
        reveal_strlit("march");
        reveal_strlit("april");
        reveal_strlit("may");
        reveal_strlit("june");
        reveal_strlit("july");
        reveal_strlit("august");
        reveal_strlit("september");
        reveal_strlit("october");
        reveal_strlit("november");
        reveal_strlit("december");
        reveal_strlit("December");
        assert forall|k: int| 0 <= k < 8 implies lower(#[trigger] s[i + k]) == "december"@[k] by {
            if k == 0 {
            assert(s[i + 0] == month_name(m)[0]);
        } else if k == 1 {
            assert(s[i + 1] == month_name(m)[1]);
        } else if k == 2 {
            assert(s[i + 2] == month_name(m)[2]);
        } else if k == 3 {
            assert(s[i + 3] == month_name(m)[3]);
        } else if k == 4 {
            assert(s[i + 4] == month_name(m)[4]);
        } else if k == 5 {
            assert(s[i + 5] == month_name(m)[5]);
        } else if k == 6 {
            assert(s[i + 6] == month_name(m)[6]);
        } else if k == 7 {
            assert(s[i + 7] == month_name(m)[7]);
        }
        }
        assert(tag_at(s, i, "december"@));
        assert(lower(s[i + 0]) == "december"@[0]);
        assert(!tag_at(s, i, "january"@));
        assert(lower(s[i + 0]) == "december"@[0]);
        assert(!tag_at(s, i, "february"@));
        assert(lower(s[i + 0]) == "december"@[0]);
        assert(!tag_at(s, i, "march"@));
        assert(lower(s[i + 0]) == "december"@[0]);
        assert(!tag_at(s, i, "april"@));
        assert(lower(s[i + 0]) == "december"@[0]);
        assert(!tag_at(s, i, "may"@));
        assert(lower(s[i + 0]) == "december"@[0]);
        assert(!tag_at(s, i, "june"@));
        assert(lower(s[i + 0]) == "december"@[0]);
        assert(!tag_at(s, i, "july"@));
        assert(lower(s[i + 0]) == "december"@[0]);
        assert(!tag_at(s, i, "august"@));
        assert(lower(s[i + 0]) == "december"@[0]);
        assert(!tag_at(s, i, "september"@));
        assert(lower(s[i + 0]) == "december"@[0]);
        assert(!tag_at(s, i, "october"@));
        assert(lower(s[i + 0]) == "december"@[0]);
        assert(!tag_at(s, i, "november"@));
    }
}

/// The date of a valid triple, as a parsed expression.
pub open spec fn absolute_expression(v: Ymd) -> Option<FdateExpression> {
    Some(FdateExpression::Absolute(date_value(v)))
}

proof fn lemma_resolves_to(cfg: ParserConfig, s: Seq<char>, v: Ymd)
    requires
        valid_ymd(v),
        expression(s) == absolute_expression(v),
    ensures
        parse_result(cfg, s) == Ok::<Option<Ymd>, crate::calendar::OutOfBounds>(Some(v)),
{
    lemma_date_value_view(v);
}

#[verifier::spinoff_prover]
/// A written date in `year-month-day` form, for a year from 1 to 9999, parses
/// back to that date under any settings.
pub proof fn law_iso_dates_read_back(cfg: ParserConfig, v: Ymd)
    requires
        valid_ymd(v),
        1 <= v.0 <= 9999,
    ensures
        parse_result(cfg, iso_text(v)) == Ok::<Option<Ymd>, crate::calendar::OutOfBounds>(Some(v)),
{
    let s: Seq<char> = iso_text(v);
    assert(s.len() == 10);
    lemma_digit(v.1 / 10);
    lemma_digit(v.2 / 10);
    lemma_four_digits_at(s, 0, v.0);
    lemma_two_digits_at(s, 5, v.1);
    lemma_two_digits_at(s, 8, v.2);
    assert(exact(s, 4, '-') == Some(5int));
    assert(exact(s, 7, '-') == Some(8int));
    assert(three_numbers(s, 0, '-') == Some((10int, (v.0 as u32, v.1 as u32, v.2 as u32))));
    assert(date_iso(s, 0) == Some((10int, date_value(v))));
    assert(first_form(s) == Some((10int, FdateExpression::Absolute(date_value(v)))));
    lemma_resolves_to(cfg, s, v);
}

/// A written date in `month/day/year` form, for a year from 1 to 9999,
/// parses back to that date under any settings.
#[verifier::spinoff_prover]
pub proof fn law_us_dates_read_back(cfg: ParserConfig, v: Ymd)
    requires
        valid_ymd(v),
        1 <= v.0 <= 9999,
    ensures
        parse_result(cfg, us_text(v)) == Ok::<Option<Ymd>, crate::calendar::OutOfBounds>(Some(v)),
{
    let s: Seq<char> = us_text(v);
    assert(s.len() == 10);
    lemma_digit(v.0 / 1000);
    lemma_digit(v.2 / 10);
    lemma_two_digits_at(s, 0, v.1);
    lemma_two_digits_at(s, 3, v.2);
    lemma_four_digits_at(s, 6, v.0);
    assert(exact(s, 2, '-') is None);
    assert(three_numbers(s, 0, '-') is None);
    assert(date_iso(s, 0) is None);
    assert(exact(s, 2, '/') == Some(3int));
    assert(exact(s, 5, '/') == Some(6int));
    assert(three_numbers(s, 0, '/') == Some((10int, (v.1 as u32, v.2 as u32, v.0 as u32))));
    assert(date_freedom_units(s, 0) == Some((10int, date_value(v))));
    assert(first_form(s) == Some((10int, FdateExpression::Absolute(date_value(v)))));
    lemma_resolves_to(cfg, s, v);
}

proof fn lemma_long_text(v: Ymd)
    ensures
        ({
            let s: Seq<char> = long_text(v);
            let name: Seq<char> = month_name(v.1);
            let l: int = name.len() as int;
            &&& s.len() == 8 + l
            &&& s[0] == digit(v.2 / 10)
            &&& s[1] == digit(v.2 % 10)
            &&& s[2] == ' '
            &&& forall|k: int| 0 <= k < l ==> s[3 + k] == #[trigger] name[k]
            &&& s[3 + l] == ' '
            &&& s[4 + l] == digit(v.0 / 1000)
            &&& s[5 + l] == digit(v.0 / 100 % 10)
            &&& s[6 + l] == digit(v.0 / 10 % 10)
            &&& s[7 + l] == digit(v.0 % 10)
        }),
{
    reveal(long_text);
    let name: Seq<char> = month_name(v.1);
    let l: int = name.len() as int;
    let p1: Seq<char> = two_digits(v.2) + seq![' '];
    let p2: Seq<char> = p1 + name;
    let p3: Seq<char> = p2 + seq![' '];
    let f: Seq<char> = four_digits(v.0);
    assert(p1.len() == 3 && p1[0] == digit(v.2 / 10) && p1[1] == digit(v.2 % 10) && p1[2] == ' ');
    assert(p2.len() == 3 + l);
    assert forall|k: int| 0 <= k < l implies p2[3 + k] == #[trigger] name[k] by {}
    assert(p3.len() == 4 + l && p3[3 + l] == ' ');
    assert forall|k: int| 0 <= k < 3 + l implies #[trigger] p3[k] == p2[k] by {}
    let s: Seq<char> = p3 + f;
    assert(s == long_text(v));
    assert forall|k: int| 0 <= k < 4 + l implies #[trigger] s[k] == p3[k] by {}
    assert(s[4 + l] == f[0] && s[5 + l] == f[1] && s[6 + l] == f[2] && s[7 + l] == f[3]);
    assert forall|k: int| 0 <= k < l implies s[3 + k] == #[trigger] name[k] by {
        assert(s[3 + k] == p3[3 + k]);
        assert(p3[3 + k] == p2[3 + k]);
    }
}

proof fn lemma_day_then_space(s: Seq<char>, d: int)
    requires
        0 <= d < 100,
        s.len() > 3,
        uint(s, 0) == Some((2int, d as u32)),
        s[2] == ' ',
        !is_space(s[3]),
    ensures
        date_iso(s, 0) is None,
        date_freedom_units(s, 0) is None,
        number_with_suffix(s, 0) == Some((2int, d as u32)),
        space1(s, 2) == Some(3int),
{
    assert(exact(s, 2, '-') is None);
    assert(exact(s, 2, '/') is None);
    reveal_strlit("st");
    reveal_strlit("nd");
    reveal_strlit("rd");
    reveal_strlit("th");
    assert(lower(s[2]) == ' ');
    assert(lower(s[2int + 0int]) != "st"@[0]);
    assert(!tag_at(s, 2, "st"@));
    assert(lower(s[2int + 0int]) != "nd"@[0]);
    assert(!tag_at(s, 2, "nd"@));
    assert(lower(s[2int + 0int]) != "rd"@[0]);
    assert(!tag_at(s, 2, "rd"@));
    assert(lower(s[2int + 0int]) != "th"@[0]);
    assert(!tag_at(s, 2, "th"@));
    assert(ordinal_suffix(s, 2) is None);
    assert(spaces_end(s, 3) == 3);
    assert(spaces_end(s, 2) == 3);
}

proof fn lemma_one_space(s: Seq<char>, i: int)
    requires
        0 <= i,
        i + 1 < s.len(),
        s[i] == ' ',
        is_digit(s[i + 1]),
    ensures
        space1(s, i) == Some(i + 1),
{
    assert(spaces_end(s, i + 1) == i + 1);
    assert(spaces_end(s, i) == i + 1);
}

proof fn lemma_day_month_year_form(s: Seq<char>, v: Ymd, l: int, e: int)
    requires
        valid_ymd(v),
        date_iso(s, 0) is None,
        date_freedom_units(s, 0) is None,
        number_with_suffix(s, 0) == Some((2int, v.2 as u32)),
        space1(s, 2) == Some(3int),
        month(s, 3) matches Some((j, mo)) && j == 3 + l && mo.number() == v.1,
        space1(s, 3 + l) == Some(4 + l),
        year(s, 4 + l) == Some((e, v.0 as i32)),
    ensures
        first_form(s) == Some((e, FdateExpression::Absolute(date_value(v)))),
{
    assert(date_day_month_year(s, 0) == Some((e, date_value(v))));
}

/// A written date in `day month-name year` form, for a year from 1 to 9999,
/// parses back to that date under any settings.
#[verifier::spinoff_prover]
pub proof fn law_long_dates_read_back(cfg: ParserConfig, v: Ymd)
    requires
        valid_ymd(v),
        1 <= v.0 <= 9999,
    ensures
        parse_result(cfg, long_text(v)) == Ok::<Option<Ymd>, crate::calendar::OutOfBounds>(Some(v)),
{
    let s: Seq<char> = long_text(v);
    let name: Seq<char> = month_name(v.1);
    let l: int = name.len() as int;
    lemma_long_text(v);
    lemma_month_name_at(s, 3, v.1);
    assert(s[3] == name[0]);
    assert(number_ends(s, 2));
    lemma_digit(v.0 / 1000);
    lemma_two_digits_at(s, 0, v.2);
    lemma_four_digits_at(s, 4 + l, v.0);
    lemma_digit(v.0 / 1000);
    lemma_day_then_space(s, v.2);
    lemma_one_space(s, 3 + l);
    assert(year(s, 4 + l) == Some((8 + l, v.0 as i32)));
    lemma_day_month_year_form(s, v, l, 8 + l);
    lemma_resolves_to(cfg, s, v);
}

proof fn lemma_day_first_text(d: int, m: int, yt: Seq<char>)
    ensures
        ({
            let s: Seq<char> = day_first_text(d, m, yt);
            let name: Seq<char> = month_name(m);
            let l: int = name.len() as int;
            &&& s.len() == 4 + l + yt.len()
            &&& s[0] == digit(d / 10)
            &&& s[1] == digit(d % 10)
            &&& s[2] == ' '
            &&& forall|k: int| 0 <= k < l ==> s[3 + k] == #[trigger] name[k]
            &&& s[3 + l] == ' '
            &&& forall|k: int| 0 <= k < yt.len() ==> s[4 + l + k] == #[trigger] yt[k]
        }),
{
    reveal(day_first_text);
    let name: Seq<char> = month_name(m);
    let l: int = name.len() as int;
    let p1: Seq<char> = two_digits(d) + seq![' '];
    let p2: Seq<char> = p1 + name;
    let p3: Seq<char> = p2 + seq![' '];
    assert(p1.len() == 3 && p1[0] == digit(d / 10) && p1[1] == digit(d % 10) && p1[2] == ' ');
    assert(p2.len() == 3 + l);
    assert forall|k: int| 0 <= k < l implies p2[3 + k] == #[trigger] name[k] by {}
    assert(p3.len() == 4 + l && p3[3 + l] == ' ');
    assert forall|k: int| 0 <= k < 3 + l implies #[trigger] p3[k] == p2[k] by {}
    let s: Seq<char> = p3 + yt;
    assert(s == day_first_text(d, m, yt));
    assert forall|k: int| 0 <= k < 4 + l implies #[trigger] s[k] == p3[k] by {}
    assert forall|k: int| 0 <= k < yt.len() implies s[4 + l + k] == #[trigger] yt[k] by {}
    assert forall|k: int| 0 <= k < l implies s[3 + k] == #[trigger] name[k] by {
        assert(s[3 + k] == p3[3 + k]);
        assert(p3[3 + k] == p2[3 + k]);
    }
}

proof fn lemma_month_first_text(m: int, d: int, yt: Seq<char>)
    ensures
        ({
            let s: Seq<char> = month_first_text(m, d, yt);
            let name: Seq<char> = month_name(m);
            let l: int = name.len() as int;
            &&& s.len() == 4 + l + yt.len()
            &&& forall|k: int| 0 <= k < l ==> s[k] == #[trigger] name[k]
            &&& s[l] == ' '
            &&& s[l + 1] == digit(d / 10)
            &&& s[l + 2] == digit(d % 10)
            &&& s[l + 3] == ' '
            &&& forall|k: int| 0 <= k < yt.len() ==> s[4 + l + k] == #[trigger] yt[k]
        }),
{
    reveal(month_first_text);
    let name: Seq<char> = month_name(m);
    let l: int = name.len() as int;
    let p1: Seq<char> = name + seq![' '];
    let p2: Seq<char> = p1 + two_digits(d);
    let p3: Seq<char> = p2 + seq![' '];
    assert(p1.len() == 1 + l && p1[l] == ' ');
    assert forall|k: int| 0 <= k < l implies #[trigger] p1[k] == name[k] by {}
    assert(p2.len() == 3 + l && p2[l + 1] == digit(d / 10) && p2[l + 2] == digit(d % 10));
    assert forall|k: int| 0 <= k < 1 + l implies #[trigger] p2[k] == p1[k] by {}
    assert(p3.len() == 4 + l && p3[3 + l] == ' ');
    assert forall|k: int| 0 <= k < 3 + l implies #[trigger] p3[k] == p2[k] by {}
    let s: Seq<char> = p3 + yt;
    assert(s == month_first_text(m, d, yt));
    assert forall|k: int| 0 <= k < 4 + l implies #[trigger] s[k] == p3[k] by {}
    assert forall|k: int| 0 <= k < yt.len() implies s[4 + l + k] == #[trigger] yt[k] by {}
    assert forall|k: int| 0 <= k < l implies s[k] == #[trigger] name[k] by {
        assert(s[k] == p3[k]);
        assert(p3[k] == p2[k]);
        assert(p2[k] == p1[k]);
    }
}

proof fn lemma_day_then_space_at(s: Seq<char>, i: int, d: int)
    requires
        0 <= d < 100,
        0 <= i,
        s.len() > i + 3,
        uint(s, i) == Some((i + 2, d as u32)),
        s[i + 2] == ' ',
        !is_space(s[i + 3]),
    ensures
        number_with_suffix(s, i) == Some((i + 2, d as u32)),
        space1(s, i + 2) == Some(i + 3),
{
    let j: int = i + 2;
    reveal_strlit("st");
    reveal_strlit("nd");
    reveal_strlit("rd");
    reveal_strlit("th");
    assert(lower(s[j + 0int]) == ' ');
    assert(lower(s[j + 0int]) != "st"@[0]);
    assert(!tag_at(s, j, "st"@));
    assert(lower(s[j + 0int]) != "nd"@[0]);
    assert(!tag_at(s, j, "nd"@));
    assert(lower(s[j + 0int]) != "rd"@[0]);
    assert(!tag_at(s, j, "rd"@));
    assert(lower(s[j + 0int]) != "th"@[0]);
    assert(!tag_at(s, j, "th"@));
    assert(ordinal_suffix(s, j) is None);
    assert(spaces_end(s, j + 1) == j + 1);
    assert(spaces_end(s, j) == j + 1);
}

proof fn lemma_two_digit_year_at(s: Seq<char>, i: int, y: int)
    requires
        2000 <= y <= 2099,
        0 <= i,
        i + 2 == s.len(),
        s[i] == digit((y - 2000) / 10),
        s[i + 1] == digit((y - 2000) % 10),
    ensures
        year(s, i) == Some((i + 2, y as i32)),
{
    lemma_two_digits_at(s, i, y - 2000);
}

proof fn lemma_four_digit_year_at(s: Seq<char>, i: int, y: int)
    requires
        1 <= y <= 9999,
        0 <= i,
        i + 4 == s.len(),
        s[i] == digit(y / 1000),
        s[i + 1] == digit(y / 100 % 10),
        s[i + 2] == digit(y / 10 % 10),
        s[i + 3] == digit(y % 10),
    ensures
        year(s, i) == Some((i + 4, y as i32)),
{
    lemma_four_digits_at(s, i, y);
}

/// A written date in `day month-name yy` form, for a year from 2000 to 2099,
/// parses back to that date under any settings: two-digit years are years of
/// the 2000s.
#[verifier::spinoff_prover]
pub proof fn law_short_year_dates_read_back(cfg: ParserConfig, v: Ymd)
    requires
        valid_ymd(v),
        2000 <= v.0 <= 2099,
    ensures
        parse_result(cfg, short_year_text(v)) == Ok::<Option<Ymd>, crate::calendar::OutOfBounds>(
            Some(v),
        ),
{
    let yt: Seq<char> = two_digits(v.0 - 2000);
    let s: Seq<char> = short_year_text(v);
    let name: Seq<char> = month_name(v.1);
    let l: int = name.len() as int;
    lemma_day_first_text(v.2, v.1, yt);
    lemma_month_name_at(s, 3, v.1);
    assert(s[3] == name[0]);
    assert(number_ends(s, 2));
    lemma_digit((v.0 - 2000) / 10);
    lemma_digit(v.2 / 10);
    lemma_two_digits_at(s, 0, v.2);
    assert(s[4 + l] == yt[0] && s[4 + l + 1] == yt[1]);
    lemma_two_digit_year_at(s, 4 + l, v.0);
    lemma_day_then_space(s, v.2);
    lemma_one_space(s, 3 + l);
    lemma_day_month_year_form(s, v, l, 6 + l);
    lemma_resolves_to(cfg, s, v);
}

proof fn lemma_month_day_year_form(s: Seq<char>, v: Ymd, l: int, e: int)
    requires
        valid_ymd(v),
        uint(s, 0) is None,
        month(s, 0) matches Some((j, mo)) && j == l && mo.number() == v.1,
        space1(s, l) == Some(l + 1),
        number_with_suffix(s, l + 1) == Some((l + 3, v.2 as u32)),
        space1(s, l + 3) == Some(l + 4),
        year(s, l + 4) == Some((e, v.0 as i32)),
    ensures
        first_form(s) == Some((e, FdateExpression::Absolute(date_value(v)))),
{
    assert(date_iso(s, 0) is None);
    assert(date_freedom_units(s, 0) is None);
    assert(number_with_suffix(s, 0) is None);
    assert(date_day_month_year(s, 0) is None);
    assert(date_month_day_year(s, 0) == Some((e, date_value(v))));
}

proof fn lemma_month_first_start(s: Seq<char>, v: Ymd, l: int)
    requires
        valid_ymd(v),
        l == month_name(v.1).len(),
        s.len() > l + 4,
        forall|k: int| 0 <= k < l ==> s[k] == #[trigger] month_name(v.1)[k],
        s[l] == ' ',
        s[l + 1] == digit(v.2 / 10),
        s[l + 2] == digit(v.2 % 10),
        s[l + 3] == ' ',
        is_digit(s[l + 4]),
    ensures
        uint(s, 0) is None,
        month(s, 0) matches Some((j, mo)) && j == l && mo.number() == v.1,
        space1(s, l) == Some(l + 1),
        number_with_suffix(s, l + 1) == Some((l + 3, v.2 as u32)),
        space1(s, l + 3) == Some(l + 4),
{
    lemma_month_name_at(s, 0, v.1);
    assert(s[0] == month_name(v.1)[0]);
    assert(digits_end(s, 0) == 0);
    lemma_digit(v.2 / 10);
    assert(number_ends(s, l + 3));
    lemma_two_digits_at(s, l + 1, v.2);
    lemma_one_space(s, l);
    lemma_day_then_space_at(s, l + 1, v.2);
}

/// A written date in `month-name day year` form, for a year from 1 to 9999,
/// parses back to that date under any settings.
#[verifier::spinoff_prover]
pub proof fn law_month_first_dates_read_back(cfg: ParserConfig, v: Ymd)
    requires
        valid_ymd(v),
        1 <= v.0 <= 9999,
    ensures
        parse_result(cfg, month_first_long_text(v)) == Ok::<
            Option<Ymd>,
            crate::calendar::OutOfBounds,
        >(Some(v)),
{
    let yt: Seq<char> = four_digits(v.0);
    let s: Seq<char> = month_first_long_text(v);
    let l: int = month_name(v.1).len() as int;
    lemma_month_first_text(v.1, v.2, yt);
    lemma_digit(v.0 / 1000);
    assert(s[4 + l] == yt[0] && s[4 + l + 1] == yt[1] && s[4 + l + 2] == yt[2] && s[4 + l + 3]
        == yt[3]);
    lemma_month_first_start(s, v, l);
    lemma_four_digit_year_at(s, 4 + l, v.0);
    lemma_month_day_year_form(s, v, l, 8 + l);
    lemma_resolves_to(cfg, s, v);
}

/// A written date in `month-name day yy` form, for a year from 2000 to 2099,
/// parses back to that date under any settings: two-digit years are years of
/// the 2000s.
#[verifier::spinoff_prover]
pub proof fn law_month_first_short_year_dates_read_back(cfg: ParserConfig, v: Ymd)
    requires
        valid_ymd(v),
        2000 <= v.0 <= 2099,
    ensures
        parse_result(cfg, month_first_short_year_text(v)) == Ok::<
            Option<Ymd>,
            crate::calendar::OutOfBounds,
        >(Some(v)),
{
    let yt: Seq<char> = two_digits(v.0 - 2000);
    let s: Seq<char> = month_first_short_year_text(v);
    let l: int = month_name(v.1).len() as int;
    lemma_month_first_text(v.1, v.2, yt);
    lemma_digit((v.0 - 2000) / 10);
    assert(s[4 + l] == yt[0] && s[4 + l + 1] == yt[1]);
    lemma_month_first_start(s, v, l);
    lemma_two_digit_year_at(s, 4 + l, v.0);
    lemma_month_day_year_form(s, v, l, 6 + l);
    lemma_resolves_to(cfg, s, v);
}

} // verus!
