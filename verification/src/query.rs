//! Query resolution: a query names one or more `root/YYYY/MM` directories
//! and a per-directory day filter; the matching entries of their listings
//! are returned as one lexicographically sorted list of paths.
use vstd::prelude::*;
use vstd::string::StringExecFns;
use crate::clock::{weekday_offset, weekday_offset_of};
use crate::dates::{CalendarDate, valid_ymd, spec_minus_days, spec_plus_days, ymd_minus_days,
    ymd_plus_days};
use crate::folders::{target_dir, target_dir_chars};
use crate::text::{pad2, pad2_str, has_prefix, has_suffix, str_has_prefix, str_has_suffix,
    lex_sorted, insert_sorted};

verus! {

/// A journal query, one of the four shapes a caller can ask for. Unset day,
/// month and year fields have already been filled from the current date.
#[derive(Debug, Clone, Copy, PartialEq, Eq, Structural)]
pub enum Query {
    /// Entries of one calendar day.
    ByDay { year: i32, month: u32, day: u32 },
    /// All entries of one month.
    ByMonth { year: i32, month: u32 },
    /// All entries of one year.
    ByYear { year: i32 },
    /// Entries of the Monday-start week containing the given day.
    ByWeek { year: i32, month: u32, day: u32 },
}

/// The query that a set of optional criteria resolves to: the week flag wins,
/// then a day (month and year defaulted from `now`), then a month (year
/// defaulted), then a bare year; with nothing set, today.
pub open spec fn spec_query_from_options(
    day: Option<u32>,
    month: Option<u32>,
    year: Option<i32>,
    week: bool,
    now: CalendarDate,
) -> Query {
    if week {
        Query::ByWeek { year: now.year, month: now.month, day: now.day }
    } else if day is Some {
        Query::ByDay {
            year: if year is Some {
                year->0
            } else {
                now.year
            },
            month: if month is Some {
                month->0
            } else {
                now.month
            },
            day: day->0,
        }
    } else if month is Some {
        Query::ByMonth {
            year: if year is Some {
                year->0
            } else {
                now.year
            },
            month: month->0,
        }
    } else if year is Some {
        Query::ByYear { year: year->0 }
    } else {
        Query::ByDay { year: now.year, month: now.month, day: now.day }
    }
}

/// Resolves optional day/month/year criteria and the week flag into a query,
/// filling unset fields from `now`.
pub fn query_from_options(
    day: Option<u32>,
    month: Option<u32>,
    year: Option<i32>,
    week: bool,
    now: &CalendarDate,
) -> (q: Query)
    ensures
        q == spec_query_from_options(day, month, year, week, *now),
{
    if week {
        Query::ByWeek { year: now.year, month: now.month, day: now.day }
    } else if let Some(d) = day {
        Query::ByDay {
            year: match year {
                Some(y) => y,
                None => now.year,
            },
            month: match month {
                Some(m) => m,
                None => now.month,
            },
            day: d,
        }
    } else if let Some(m) = month {
        Query::ByMonth {
            year: match year {
                Some(y) => y,
                None => now.year,
            },
            month: m,
        }
    } else if let Some(y) = year {
        Query::ByYear { year: y }
    } else {
        Query::ByDay { year: now.year, month: now.month, day: now.day }
    }
}

/// One directory to search — the month `month` of `year` — and, when set,
/// the day whose entries alone are wanted from it.
#[derive(Debug, Clone, Copy, PartialEq, Eq)]
pub struct DaySelector {
    pub year: i32,
    pub month: u32,
    pub day: Option<u32>,
}

/// The seven days of the Monday-start week around `(y, m, d)`, given the
/// date's offset `w` from Monday.
pub open spec fn week_day_seq(y: int, m: int, d: int, w: int) -> Seq<(int, int, int)> {
    let anchor = spec_minus_days(y, m, d, w as nat);
    Seq::new(7, |k: int| spec_plus_days(anchor.0, anchor.1, anchor.2, k as nat))
}

/// The directories a query searches, in order, each with its day filter:
/// one month for a day or month query, the twelve months of a year, or the
/// seven days of the week around the query's date.
pub fn day_selectors(q: &Query) -> (r: Vec<DaySelector>)
    requires
        *q matches Query::ByWeek { year, month, day } ==> valid_ymd(
            year as int,
            month as int,
            day as int,
        ) && 1 <= year && year <= 9999,
    ensures
        match *q {
            Query::ByDay { year, month, day } => r@ =~= seq![
                DaySelector { year, month, day: Some(day) },
            ],
            Query::ByMonth { year, month } => r@ =~= seq![DaySelector { year, month, day: None }],
            Query::ByYear { year } => r@.len() == 12 && forall|k: int|
                0 <= k < 12 ==> (#[trigger] r@[k]).year == year && r@[k].month == k + 1
                    && r@[k].day is None,
            Query::ByWeek { year, month, day } => ({
                let wdays = week_day_seq(
                    year as int,
                    month as int,
                    day as int,
                    weekday_offset_of(year as int, month as int, day as int),
                );
                r@.len() == 7 && forall|k: int|
                    0 <= k < 7 ==> ((#[trigger] r@[k]).year as int == wdays[k].0
                        && r@[k].month as int == wdays[k].1 && (r@[k].day matches Some(d)
                        && d as int == wdays[k].2))
            }),
        },
{
    let mut r: Vec<DaySelector> = Vec::new();
    match *q {
        Query::ByDay { year, month, day } => {
            r.push(DaySelector { year, month, day: Some(day) });
        },
        Query::ByMonth { year, month } => {
            r.push(DaySelector { year, month, day: None });
        },
        Query::ByYear { year } => {
            let mut m: u32 = 1;
            while m <= 12
                invariant
                    1 <= m <= 13,
                    r@.len() == m - 1,
                    forall|k: int|
                        0 <= k < m - 1 ==> (#[trigger] r@[k]).year == year && r@[k].month == k + 1
                            && r@[k].day is None,
                decreases 13 - m,
            {
                r.push(DaySelector { year, month: m, day: None });
                m += 1;
            }
        },
        Query::ByWeek { year, month, day } => {
            let w = weekday_offset(year, month, day);
            let anchor = ymd_minus_days(year, month, day, w);
            let ghost wdays = week_day_seq(
                year as int,
                month as int,
                day as int,
                weekday_offset_of(year as int, month as int, day as int),
            );
            let mut k: u32 = 0;
            while k < 7
                invariant
                    k <= 7,
                    valid_ymd(anchor.0 as int, anchor.1 as int, anchor.2 as int),
                    0 <= anchor.0 <= 9999,
                    (anchor.0 as int, anchor.1 as int, anchor.2 as int) == spec_minus_days(
                        year as int,
                        month as int,
                        day as int,
                        w as nat,
                    ),
                    w as int == weekday_offset_of(year as int, month as int, day as int),
                    wdays == week_day_seq(
                        year as int,
                        month as int,
                        day as int,
                        weekday_offset_of(year as int, month as int, day as int),
                    ),
                    r@.len() == k,
                    forall|i: int|
                        0 <= i < k ==> ((#[trigger] r@[i]).year as int == wdays[i].0
                            && r@[i].month as int == wdays[i].1 && (r@[i].day matches Some(d)
                            && d as int == wdays[i].2)),
                decreases 7 - k,
            {
                let cur = ymd_plus_days(anchor.0, anchor.1, anchor.2, k);
                r.push(DaySelector { year: cur.0, month: cur.1, day: Some(cur.2) });
                k += 1;
            }
        },
    }
    r
}

/// The directory a selector searches.
pub open spec fn sel_dir(root: Seq<char>, s: DaySelector) -> Seq<char> {
    target_dir_chars(root, s.year as int, s.month)
}

/// The directory a selector searches: `root/YYYY/MM`.
pub fn selector_dir(root: &str, s: &DaySelector) -> (r: String)
    ensures
        r@ == sel_dir(root@, *s),
{
    target_dir(root, s.year, s.month)
}

/// An entry file name matches a selector's filter: it ends in `.md` and,
/// when a day is asked for, starts with the zero-padded day.
pub open spec fn name_matches(name: Seq<char>, day: Option<u32>) -> bool {
    has_suffix(name, ".md"@) && match day {
        Some(d) => has_prefix(name, pad2(d as nat)),
        None => true,
    }
}

/// The full path of an entry inside a directory.
pub open spec fn entry_path(dir: Seq<char>, name: Seq<char>) -> Seq<char> {
    dir + "/"@ + name
}

/// The full paths, in listing order, of the names in a directory listing
/// that match the day filter.
pub open spec fn matches_in(dir: Seq<char>, names: Seq<Seq<char>>, day: Option<u32>) -> Seq<
    Seq<char>,
>
    decreases names.len(),
{
    if names.len() == 0 {
        Seq::empty()
    } else {
        let init = matches_in(dir, names.drop_last(), day);
        if name_matches(names.last(), day) {
            init.push(entry_path(dir, names.last()))
        } else {
            init
        }
    }
}

/// What one selector contributes: nothing when its directory is missing,
/// else the matching paths of its listing.
pub open spec fn dir_matches(
    root: Seq<char>,
    s: DaySelector,
    listing: Option<Seq<Seq<char>>>,
) -> Seq<Seq<char>> {
    match listing {
        None => Seq::empty(),
        Some(names) => matches_in(sel_dir(root, s), names, s.day),
    }
}

/// All matching paths of a run of selectors and their listings, in order.
pub open spec fn all_matches(
    root: Seq<char>,
    sels: Seq<DaySelector>,
    listings: Seq<Option<Seq<Seq<char>>>>,
) -> Seq<Seq<char>>
    decreases sels.len(),
{
    if sels.len() == 0 || listings.len() == 0 {
        Seq::empty()
    } else {
        all_matches(root, sels.drop_last(), listings.drop_last()) + dir_matches(
            root,
            sels.last(),
            listings.last(),
        )
    }
}

/// The matching full paths of one selector's directory listing, in listing
/// order. `None` stands for a directory that does not exist.
pub fn dir_matched_paths(root: &str, s: &DaySelector, listing: &Option<Vec<String>>) -> (r: Vec<
    String,
>)
    ensures
        r.deep_view() == dir_matches(root@, *s, listing.deep_view()),
{
    let mut out: Vec<String> = Vec::new();
    match listing {
        None => {
            proof {
                assert(out.deep_view() =~= dir_matches(root@, *s, listing.deep_view()));
            }
        },
        Some(names) => {
            let dir = selector_dir(root, s);
            let prefix: Option<String> = match s.day {
                Some(d) => Some(pad2_str(d)),
                None => None,
            };
            let mut k: usize = 0;
            while k < names.len()
                invariant
                    k <= names@.len(),
                    dir@ == sel_dir(root@, *s),
                    match (s.day, &prefix) {
                        (Some(d), Some(p)) => p@ == pad2(d as nat),
                        (None, None) => true,
                        _ => false,
                    },
                    out.deep_view() == matches_in(dir@, names.deep_view().take(k as int), s.day),
                decreases names@.len() - k,
            {
                let name = &names[k];
                let is_md = str_has_suffix(name.as_str(), ".md");
                let ok = is_md && (match &prefix {
                    Some(p) => str_has_prefix(name.as_str(), p.as_str()),
                    None => true,
                });
                proof {
                    assert(ok == name_matches(names.deep_view()[k as int], s.day));
                    assert(names.deep_view().take(k as int + 1).drop_last() =~= names.deep_view()
                        .take(k as int));
                    assert(names.deep_view().take(k as int + 1).last() == names.deep_view()[
                        k as int]);
                }
                if ok {
                    let mut full = dir.clone();
                    full.append("/");
                    full.append(name.as_str());
                    proof {
                        assert(full@ =~= entry_path(dir@, names.deep_view()[k as int]));
                    }
                    out.push(full);
                    proof {
                        assert(out.deep_view() =~= matches_in(
                            dir@,
                            names.deep_view().take(k as int + 1),
                            s.day,
                        ));
                    }
                } else {
                    proof {
                        assert(out.deep_view() =~= matches_in(
                            dir@,
                            names.deep_view().take(k as int + 1),
                            s.day,
                        ));
                    }
                }
                k += 1;
            }
            proof {
                assert(names.deep_view().take(names@.len() as int) =~= names.deep_view());
            }
        },
    }
    out
}

/// Resolves selectors against their directory listings and returns every
/// matching entry path, sorted lexicographically. `listings[i]` is the
/// listing of `selector_dir(root, sels[i])`, or `None` when that directory
/// does not exist. The result holds exactly the matching paths — sorted, so
/// that no directory iteration order leaks through.
pub fn find_entries(root: &str, sels: &Vec<DaySelector>, listings: &Vec<Option<Vec<String>>>) -> (r:
    Vec<String>)
    requires
        sels@.len() == listings@.len(),
    ensures
        lex_sorted(r.deep_view()),
        r.deep_view().to_multiset() == all_matches(
            root@,
            sels@,
            listings.deep_view(),
        ).to_multiset(),
{
    broadcast use vstd::seq_lib::group_to_multiset_ensures;

    let ghost ldv = listings.deep_view();
    let mut out: Vec<String> = Vec::new();
    let mut i: usize = 0;
    proof {
        assert(out.deep_view() =~= all_matches(root@, sels@.take(0), ldv.take(0)));
    }
    while i < sels.len()
        invariant
            i <= sels@.len(),
            sels@.len() == listings@.len(),
            ldv == listings.deep_view(),
            ldv.len() == listings@.len(),
            lex_sorted(out.deep_view()),
            out.deep_view().to_multiset() == all_matches(
                root@,
                sels@.take(i as int),
                ldv.take(i as int),
            ).to_multiset(),
        decreases sels@.len() - i,
    {
        let ghost base = all_matches(root@, sels@.take(i as int), ldv.take(i as int));
        let matched = dir_matched_paths(root, &sels[i], &listings[i]);
        let ghost mdv = matched.deep_view();
        let mut j: usize = 0;
        proof {
            assert(base + mdv.take(0) =~= base);
        }
        while j < matched.len()
            invariant
                j <= matched@.len(),
                mdv == matched.deep_view(),
                mdv.len() == matched@.len(),
                lex_sorted(out.deep_view()),
                out.deep_view().to_multiset() == (base + mdv.take(j as int)).to_multiset(),
            decreases matched@.len() - j,
        {
            let ghost pre = base + mdv.take(j as int);
            let p = matched[j].clone();
            insert_sorted(&mut out, p);
            proof {
                vstd::seq_lib::to_multiset_build(pre, mdv[j as int]);
                assert(base + mdv.take(j as int + 1) =~= pre.push(mdv[j as int]));
            }
            j += 1;
        }
        proof {
            assert(base + mdv.take(mdv.len() as int) =~= base + mdv);
            assert(sels@.take(i as int + 1).drop_last() =~= sels@.take(i as int));
            assert(ldv.take(i as int + 1).drop_last() =~= ldv.take(i as int));
            assert(sels@.take(i as int + 1).last() == sels@[i as int]);
            assert(ldv.take(i as int + 1).last() == ldv[i as int]);
            assert(all_matches(root@, sels@.take(i as int + 1), ldv.take(i as int + 1)) == base
                + dir_matches(root@, sels@[i as int], ldv[i as int]));
            assert(mdv == dir_matches(root@, sels@[i as int], ldv[i as int]));
        }
        i += 1;
    }
    proof {
        assert(sels@.take(sels@.len() as int) =~= sels@);
        assert(ldv.take(ldv.len() as int) =~= ldv);
    }
    out
}

} // verus!

verus! {

/// Round trip from writing to querying: the file name composed for a write
/// at `now` (for any slug) satisfies the day filter for `now.day`, and a
/// month-directory listing holding exactly that name resolves, under the
/// selector that `ByDay(now.day, now.month, now.year)` yields, to exactly
/// that entry's full path.
pub proof fn lemma_written_entry_found(root: Seq<char>, now: CalendarDate, slug: Seq<char>)
    requires
        now.wf(),
    ensures
        name_matches(
            crate::entry::entry_filename_chars(
                now.day as nat,
                now.hour as nat,
                now.minute as nat,
                now.second as nat,
                slug,
            ),
            Some(now.day),
        ),
        ({
            let fname = crate::entry::entry_filename_chars(
                now.day as nat,
                now.hour as nat,
                now.minute as nat,
                now.second as nat,
                slug,
            );
            let sel = DaySelector { year: now.year, month: now.month, day: Some(now.day) };
            dir_matches(root, sel, Some(seq![fname])) == seq![entry_path(sel_dir(root, sel), fname)]
        }),
{
    let fname = crate::entry::entry_filename_chars(
        now.day as nat,
        now.hour as nat,
        now.minute as nat,
        now.second as nat,
        slug,
    );
    crate::text::lemma_pad2_digits(now.day as nat);
    assert(fname.subrange(fname.len() - ".md"@.len(), fname.len() as int) =~= ".md"@);
    assert(fname.subrange(0, pad2(now.day as nat).len() as int) =~= pad2(now.day as nat));
    assert(name_matches(fname, Some(now.day)));
    let sel = DaySelector { year: now.year, month: now.month, day: Some(now.day) };
    let dir = sel_dir(root, sel);
    let names = seq![fname];
    assert(names.drop_last() =~= Seq::<Seq<char>>::empty());
    assert(names.last() == fname);
    assert(matches_in(dir, Seq::<Seq<char>>::empty(), Some(now.day)) == Seq::<Seq<char>>::empty());
    assert(matches_in(dir, names, Some(now.day)) == Seq::<Seq<char>>::empty().push(
        entry_path(dir, fname),
    ));
    assert(Seq::<Seq<char>>::empty().push(entry_path(dir, fname)) =~= seq![
        entry_path(dir, fname),
    ]);
}

} // verus!
