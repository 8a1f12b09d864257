//! Text produced for clients: alarm durations, CSV lines, and the paging
//! window of the events listing.
use vstd::prelude::*;
use vstd::string::*;
use crate::text::{decimal, decimal_spec};

verus! {

/// Human-readable alarm duration from whole seconds: `Xd Yh Zm` from one
/// day on, `Yh Zm` from one hour on, else `Zm` with at least one minute;
/// `ongoing` when no positive duration is known.
pub open spec fn duration_text(secs: Option<i64>) -> Seq<char> {
    match secs {
        Some(t) if t >= 0 => {
            let days = t / 86400;
            let hours = (t % 86400) / 3600;
            let mins = (t % 3600) / 60;
            if days > 0 {
                decimal_spec(days as int) + "d "@ + decimal_spec(hours as int) + "h "@
                    + decimal_spec(mins as int) + "m"@
            } else if hours > 0 {
                decimal_spec(hours as int) + "h "@ + decimal_spec(mins as int) + "m"@
            } else {
                decimal_spec(if mins > 1 { mins as int } else { 1 }) + "m"@
            }
        },
        _ => "ongoing"@,
    }
}

/// Formats an alarm duration.
pub fn format_duration(secs: Option<i64>) -> (r: String)
    ensures
        r@ == duration_text(secs),
{
    match secs {
        Some(t) if t >= 0 => {
            let days = t / 86400;
            let hours = (t % 86400) / 3600;
            let mins = (t % 3600) / 60;
            if days > 0 {
                let mut s = decimal(days);
                s.append("d ");
                s.append(decimal(hours).as_str());
                s.append("h ");
                s.append(decimal(mins).as_str());
                s.append("m");
                s
            } else if hours > 0 {
                let mut s = decimal(hours);
                s.append("h ");
                s.append(decimal(mins).as_str());
                s.append("m");
                s
            } else {
                let m = if mins > 1 {
                    mins
                } else {
                    1
                };
                let mut s = decimal(m);
                s.append("m");
                s
            }
        },
        _ => String::from_str("ongoing"),
    }
}

/// `first,c1,c2,...` and a line break: one CSV line.
pub open spec fn csv_line_spec(first: Seq<char>, cells: Seq<Seq<char>>) -> Seq<char>
    decreases cells.len(),
{
    if cells.len() == 0 {
        first + seq!['\n']
    } else {
        csv_line_spec(first, cells.drop_last()).drop_last() + seq![','] + cells.last() + seq![
            '\n',
        ]
    }
}

proof fn lemma_csv_line_ends(first: Seq<char>, cells: Seq<Seq<char>>)
    ensures
        csv_line_spec(first, cells).len() > 0,
        csv_line_spec(first, cells).last() == '\n',
    decreases cells.len(),
{
    if cells.len() > 0 {
        lemma_csv_line_ends(first, cells.drop_last());
    }
}

/// Builds one CSV line from its first cell and the cells after it; an
/// absent value is an empty cell.
pub fn csv_line(first: &str, cells: &Vec<String>) -> (r: String)
    ensures
        r@ == csv_line_spec(first@, cells@.map_values(|c: String| c@)),
{
    let ghost cv = cells@.map_values(|c: String| c@);
    let mut out = String::from_str(first);
    let mut i: usize = 0;
    while i < cells.len()
        invariant
            i <= cells@.len(),
            cv == cells@.map_values(|c: String| c@),
            out@ + seq!['\n'] == csv_line_spec(first@, cv.subrange(0, i as int)),
        decreases cells@.len() - i,
    {
        out.append(",");
        out.append(cells[i].as_str());
        proof {
            reveal_strlit(",");
            let sub = cv.subrange(0, i as int + 1);
            assert(sub.drop_last() =~= cv.subrange(0, i as int));
            lemma_csv_line_ends(first@, cv.subrange(0, i as int));
            let prev = csv_line_spec(first@, cv.subrange(0, i as int));
            assert(prev.drop_last() =~= out@.subrange(0, out@.len() - cells@[i as int]@.len() - 1));
            assert(out@ + seq!['\n'] =~= csv_line_spec(first@, sub));
        }
        i = i + 1;
    }
    out.append("\n");
    proof {
        reveal_strlit("\n");
        assert(cv.subrange(0, cells@.len() as int) =~= cv);
    }
    out
}

/// Header cells of a rollup CSV: four per sensor name.
pub open spec fn rollup_header_spec(names: Seq<Seq<char>>) -> Seq<Seq<char>>
    decreases names.len(),
{
    if names.len() == 0 {
        Seq::empty()
    } else {
        let n = names.last();
        rollup_header_spec(names.drop_last()) + seq![
            n + "_avg"@,
            n + "_min"@,
            n + "_max"@,
            n + "_count"@,
        ]
    }
}

fn suffixed(n: &String, suffix: &str) -> (r: String)
    ensures
        r@ == n@ + suffix@,
{
    let mut s = n.clone();
    s.append(suffix);
    s
}

/// `name_avg, name_min, name_max, name_count` for each sensor name.
pub fn rollup_header_cells(names: &Vec<String>) -> (r: Vec<String>)
    ensures
        r@.map_values(|c: String| c@) == rollup_header_spec(names@.map_values(|c: String| c@)),
{
    let ghost nv = names@.map_values(|c: String| c@);
    let mut out: Vec<String> = Vec::new();
    let mut i: usize = 0;
    while i < names.len()
        invariant
            i <= names@.len(),
            nv == names@.map_values(|c: String| c@),
            out@.map_values(|c: String| c@) == rollup_header_spec(nv.subrange(0, i as int)),
        decreases names@.len() - i,
    {
        let n = &names[i];
        out.push(suffixed(n, "_avg"));
        out.push(suffixed(n, "_min"));
        out.push(suffixed(n, "_max"));
        out.push(suffixed(n, "_count"));
        proof {
            let sub = nv.subrange(0, i as int + 1);
            assert(sub.drop_last() =~= nv.subrange(0, i as int));
            assert(sub.last() == n@);
            assert(out@.map_values(|c: String| c@) =~= rollup_header_spec(sub));
        }
        i = i + 1;
    }
    proof {
        assert(nv.subrange(0, names@.len() as int) =~= nv);
    }
    out
}

/// The page of the events listing when none is asked for.
pub fn default_page() -> (r: i32)
    ensures
        r == 1,
{
    1
}

/// The page size of the events listing when none is asked for.
pub fn default_page_size() -> (r: i32)
    ensures
        r == 100,
{
    100
}

/// Largest page of the events listing.
pub const MAX_PAGE_SIZE: i32 = 1000;

/// The page size actually used (between 1 and 1000) and the number of
/// events to skip for a page counted from 1 (pages before the first count
/// as the first).
pub fn page_window(page: i32, page_size: i32) -> (r: (i32, u64))
    ensures
        r.0 == if page_size > 1000 {
            1000
        } else if page_size < 1 {
            1
        } else {
            page_size as int
        },
        r.1 == (if page > 1 {
            page - 1
        } else {
            0
        }) * r.0,
{
    let size: i32 = if page_size > MAX_PAGE_SIZE {
        MAX_PAGE_SIZE
    } else if page_size < 1 {
        1
    } else {
        page_size
    };
    let before: i64 = if page > 1 {
        page as i64 - 1
    } else {
        0
    };
    proof {
        assert(0 <= before * size <= 0x8000_0000 * 1000) by (nonlinear_arith)
            requires
                0 <= before < 0x8000_0000,
                1 <= size <= 1000,
        ;
    }
    (size, (before * size as i64) as u64)
}

} // verus!
