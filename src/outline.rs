//! The outline scanner: turns the generation service's outline text into
//! detail records.
//!
//! Two heading styles are recognised. In the day style, each
//! `### Day N: Title` line opens a day, and each `#### Place M: Name` line
//! inside it opens one record. In the detail style, used when the text has
//! no day heading, each `### Detail N: Title` line opens one record whose
//! content is generated later. A heading may be followed directly by an
//! `**Estimated Duration:** D minutes` line; without a readable one the
//! duration is 0. The scan only moves forward, and each heading's span
//! reaches up to the next heading of the same kind.
use vstd::prelude::*;

use crate::error::TripError;
use crate::ids::{fresh_id, id_bytes_of, is_id_text, parse_object_id, ObjectId};
use crate::model::{now_millis, Detail};
use crate::text::{
    append_decimal, append_range, chars_of, decimal_text, digits_end, digits_end_exec,
    lemma_digits_end_bounds, lemma_line_end_bounds, line_end, line_end_exec, occurs_at,
    occurs_at_exec, parse_digits, value_or,
};

verus! {

pub open spec fn day_marker() -> Seq<char> {
    "### Day "@
}

pub open spec fn place_marker() -> Seq<char> {
    "#### Place "@
}

pub open spec fn detail_marker() -> Seq<char> {
    "### Detail "@
}

pub open spec fn number_sep() -> Seq<char> {
    ": "@
}

pub open spec fn duration_marker() -> Seq<char> {
    "**Estimated Duration:** "@
}

pub open spec fn minutes_marker() -> Seq<char> {
    " minutes"@
}

/// The largest heading number that is kept; larger ones read as 1.
pub const NUMBER_LIMIT: u64 = 2147483647;

/// Index just past the heading number of a heading that starts at `p`.
pub open spec fn number_end(t: Seq<char>, m: Seq<char>, p: int, end: int) -> int {
    digits_end(t, p + m.len(), end)
}

/// Where the heading's title starts.
pub open spec fn title_start(t: Seq<char>, m: Seq<char>, p: int, end: int) -> int {
    number_end(t, m, p, end) + number_sep().len()
}

/// Where the heading's title ends: at the line break that closes it.
pub open spec fn title_end(t: Seq<char>, m: Seq<char>, p: int, end: int) -> int {
    line_end(t, title_start(t, m, p, end), end)
}

/// A heading of kind `m` starts at `p`: the marker, a run of digits, `": "`,
/// and the rest of the line, closed by a line break before `end`.
pub open spec fn heading_at(t: Seq<char>, m: Seq<char>, p: int, end: int) -> bool {
    &&& occurs_at(t, p, m, end)
    &&& number_end(t, m, p, end) > p + m.len()
    &&& occurs_at(t, number_end(t, m, p, end), number_sep(), end)
    &&& title_end(t, m, p, end) < end
}

pub open spec fn heading_number(t: Seq<char>, m: Seq<char>, p: int, end: int) -> Seq<char> {
    t.subrange(p + m.len(), number_end(t, m, p, end))
}

pub open spec fn heading_title(t: Seq<char>, m: Seq<char>, p: int, end: int) -> Seq<char> {
    t.subrange(title_start(t, m, p, end), title_end(t, m, p, end))
}

/// Index just past the heading's line break.
pub open spec fn heading_stop(t: Seq<char>, m: Seq<char>, p: int, end: int) -> int {
    title_end(t, m, p, end) + 1
}

/// The number a heading shows, as the record will print it.
pub open spec fn shown_number(t: Seq<char>, m: Seq<char>, p: int, end: int) -> nat {
    value_or(heading_number(t, m, p, end), NUMBER_LIMIT as nat, 1)
}

/// The first heading of kind `m` that starts at or after `from`, or `end`.
pub open spec fn next_heading(t: Seq<char>, m: Seq<char>, from: int, end: int) -> int
    decreases end - from,
{
    if from >= end {
        end
    } else if heading_at(t, m, from, end) {
        from
    } else {
        next_heading(t, m, from + 1, end)
    }
}

/// The duration line that may follow a heading ending at `h`: the minutes it
/// gives (0 when absent or too large) and where the heading's content starts.
pub open spec fn duration_after(t: Seq<char>, h: int, end: int) -> (nat, int) {
    let ds = h + duration_marker().len();
    let de = digits_end(t, ds, end);
    if occurs_at(t, h, duration_marker(), end) && de > ds && occurs_at(
        t,
        de,
        minutes_marker(),
        end,
    ) {
        (value_or(t.subrange(ds, de), u64::MAX as nat, 0), de + minutes_marker().len())
    } else {
        (0, h)
    }
}

/// A bullet starts at `s`: `"* "` and at least one more character on the line.
pub open spec fn bullet_at(t: Seq<char>, s: int, e: int) -> bool {
    0 <= s && s + 2 < e && e <= t.len() && t[s] == '*' && t[s + 1] == ' ' && t[s + 2] != '\n'
}

/// The bullet lines found scanning `[s, e)`, each from its `"* "` to the end of its line.
pub open spec fn bullets(t: Seq<char>, s: int, e: int) -> Seq<Seq<char>>
    decreases e - s,
{
    if s >= e || s < 0 || e > t.len() {
        seq![]
    } else if bullet_at(t, s, e) {
        proof {
            lemma_line_end_bounds(t, s + 1, e);
        }
        seq![t.subrange(s, line_end(t, s, e))] + bullets(t, line_end(t, s, e), e)
    } else {
        bullets(t, s + 1, e)
    }
}

/// Lines joined with line breaks between them.
pub open spec fn join_lines(v: Seq<Seq<char>>) -> Seq<char>
    decreases v.len(),
{
    if v.len() == 0 {
        seq![]
    } else if v.len() == 1 {
        v[0]
    } else {
        join_lines(v.drop_last()) + seq!['\n'] + v.last()
    }
}

/// What the scan yields for one record: title, content and duration in minutes.
pub type Entry = (Seq<char>, Seq<char>, nat);

/// The title of every record of the day whose heading starts at `p`.
pub open spec fn day_title(t: Seq<char>, p: int) -> Seq<char> {
    "Day "@ + decimal_text(shown_number(t, day_marker(), p, t.len() as int)) + " - "@
        + heading_title(t, day_marker(), p, t.len() as int)
}

/// The content of the place record whose heading starts at `p`, with its
/// bullets taken from `[cs, q)`.
pub open spec fn place_body(t: Seq<char>, p: int, e: int, cs: int, q: int) -> Seq<char> {
    "Place "@ + decimal_text(shown_number(t, place_marker(), p, e)) + ": "@ + heading_title(
        t,
        place_marker(),
        p,
        e,
    ) + seq!['\n'] + join_lines(bullets(t, cs, q))
}

pub proof fn lemma_next_heading_bounds(t: Seq<char>, m: Seq<char>, from: int, end: int)
    requires
        from <= end,
    ensures
        from <= next_heading(t, m, from, end) <= end,
        next_heading(t, m, from, end) < end ==> heading_at(
            t,
            m,
            next_heading(t, m, from, end),
            end,
        ),
    decreases end - from,
{
    if from < end && !heading_at(t, m, from, end) {
        lemma_next_heading_bounds(t, m, from + 1, end);
    }
}

pub proof fn lemma_heading_bounds(t: Seq<char>, m: Seq<char>, p: int, end: int)
    requires
        heading_at(t, m, p, end),
    ensures
        p < heading_stop(t, m, p, end) <= end,
        p + m.len() < number_end(t, m, p, end) <= title_start(t, m, p, end) <= title_end(
            t,
            m,
            p,
            end,
        ),
{
    lemma_line_end_bounds(t, title_start(t, m, p, end), end);
}

pub proof fn lemma_duration_bounds(t: Seq<char>, h: int, end: int)
    requires
        0 <= h <= end <= t.len(),
    ensures
        h <= duration_after(t, h, end).1 <= end,
{
    let ds = h + duration_marker().len();
    if occurs_at(t, h, duration_marker(), end) {
        lemma_digits_end_bounds(t, ds, end);
    }
}

/// The place records of one day: `dt` is the day's record title, the day's
/// span ends at `e`, and the scan resumes at `cur`.
pub open spec fn place_entries(t: Seq<char>, dt: Seq<char>, e: int, cur: int) -> Seq<Entry>
    decreases e - cur,
{
    if cur < 0 || e > t.len() || cur > e {
        seq![]
    } else {
        let p = next_heading(t, place_marker(), cur, e);
        if p >= e {
            seq![]
        } else {
            let h = heading_stop(t, place_marker(), p, e);
            let (dur, cs) = duration_after(t, h, e);
            proof {
                lemma_next_heading_bounds(t, place_marker(), cur, e);
                lemma_heading_bounds(t, place_marker(), p, e);
                lemma_duration_bounds(t, h, e);
                lemma_next_heading_bounds(t, place_marker(), cs, e);
            }
            let q = next_heading(t, place_marker(), cs, e);
            seq![(dt, place_body(t, p, e, cs, q), dur)] + place_entries(t, dt, e, q)
        }
    }
}

/// The records of the day-style scan resumed at `cur`.
pub open spec fn day_entries(t: Seq<char>, cur: int) -> Seq<Entry>
    decreases t.len() - cur,
{
    let n = t.len() as int;
    if cur < 0 || cur > n {
        seq![]
    } else {
        let p = next_heading(t, day_marker(), cur, n);
        if p >= n {
            seq![]
        } else {
            let h = heading_stop(t, day_marker(), p, n);
            proof {
                lemma_next_heading_bounds(t, day_marker(), cur, n);
                lemma_heading_bounds(t, day_marker(), p, n);
                lemma_next_heading_bounds(t, day_marker(), h, n);
            }
            let q = next_heading(t, day_marker(), h, n);
            place_entries(t, day_title(t, p), q, h) + day_entries(t, q)
        }
    }
}

/// The records of the detail-style scan resumed at `cur`.
pub open spec fn detail_entries(t: Seq<char>, cur: int) -> Seq<Entry>
    decreases t.len() - cur,
{
    let n = t.len() as int;
    if cur < 0 || cur > n {
        seq![]
    } else {
        let p = next_heading(t, detail_marker(), cur, n);
        if p >= n {
            seq![]
        } else {
            let h = heading_stop(t, detail_marker(), p, n);
            proof {
                lemma_next_heading_bounds(t, detail_marker(), cur, n);
                lemma_heading_bounds(t, detail_marker(), p, n);
                lemma_next_heading_bounds(t, detail_marker(), h, n);
            }
            let q = next_heading(t, detail_marker(), h, n);
            seq![
                (
                    heading_title(t, detail_marker(), p, n),
                    seq![],
                    duration_after(t, h, q).0,
                ),
            ] + detail_entries(t, q)
        }
    }
}

/// Whether the text has a day heading anywhere.
pub open spec fn has_day_heading(t: Seq<char>) -> bool {
    next_heading(t, day_marker(), 0, t.len() as int) < t.len()
}

/// The records that the outline text yields, in order.
pub open spec fn outline_entries(t: Seq<char>) -> Seq<Entry> {
    if has_day_heading(t) {
        day_entries(t, 0)
    } else {
        detail_entries(t, 0)
    }
}

/// The fields that the scan decides, as an entry.
pub open spec fn entry_of(d: Detail) -> Entry {
    (d.title@, d.html@, d.estimated_duration as nat)
}

pub open spec fn entries_of(ds: Seq<Detail>) -> Seq<Entry> {
    ds.map_values(|d: Detail| entry_of(d))
}

/// The record belongs to `trip`, is written in `language`, and is not completed.
pub open spec fn made_for(d: Detail, trip: ObjectId, language: Seq<char>) -> bool {
    d.trip_id == trip && d.language@ == language && !d.completed
}

pub open spec fn all_made_for(ds: Seq<Detail>, trip: ObjectId, language: Seq<char>) -> bool {
    forall|i: int| 0 <= i < ds.len() ==> made_for(#[trigger] ds[i], trip, language)
}

/// The heading words of the outline grammar, as characters.
struct Markers {
    day: Vec<char>,
    place: Vec<char>,
    detail: Vec<char>,
    sep: Vec<char>,
    duration: Vec<char>,
    minutes: Vec<char>,
}

impl Markers {
    spec fn wf(&self) -> bool {
        &&& self.day@ == day_marker()
        &&& self.place@ == place_marker()
        &&& self.detail@ == detail_marker()
        &&& self.sep@ == number_sep()
        &&& self.duration@ == duration_marker()
        &&& self.minutes@ == minutes_marker()
    }

    fn new() -> (r: Markers)
        ensures
            r.wf(),
    {
        Markers {
            day: chars_of("### Day "),
            place: chars_of("#### Place "),
            detail: chars_of("### Detail "),
            sep: chars_of(": "),
            duration: chars_of("**Estimated Duration:** "),
            minutes: chars_of(" minutes"),
        }
    }
}

/// Recognises a heading of kind `m` at `p`; gives the end of its number and of its title.
fn heading_exec(t: &Vec<char>, m: &Vec<char>, mk: &Markers, p: usize, end: usize) -> (r: Option<
    (usize, usize),
>)
    requires
        end <= t@.len(),
        mk.wf(),
    ensures
        r is Some <==> heading_at(t@, m@, p as int, end as int),
        r matches Some((ne, te)) ==> ne == number_end(t@, m@, p as int, end as int) && te
            == title_end(t@, m@, p as int, end as int),
{
    if !occurs_at_exec(t, p, m, end) {
        return None;
    }
    let ds = p + m.len();
    let ne = digits_end_exec(t, ds, end);
    if ne == ds {
        return None;
    }
    if !occurs_at_exec(t, ne, &mk.sep, end) {
        return None;
    }
    let ts = ne + mk.sep.len();
    let te = line_end_exec(t, ts, end);
    if te >= end {
        return None;
    }
    Some((ne, te))
}

/// Finds the first heading of kind `m` at or after `from`, or `end`.
fn next_heading_exec(t: &Vec<char>, m: &Vec<char>, mk: &Markers, from: usize, end: usize) -> (r:
    usize)
    requires
        from <= end <= t@.len(),
        mk.wf(),
    ensures
        r == next_heading(t@, m@, from as int, end as int),
        from <= r <= end,
{
    proof {
        lemma_next_heading_bounds(t@, m@, from as int, end as int);
    }
    let mut i: usize = from;
    while i < end
        invariant
            from <= i <= end <= t@.len(),
            mk.wf(),
            next_heading(t@, m@, i as int, end as int) == next_heading(
                t@,
                m@,
                from as int,
                end as int,
            ),
        decreases end - i,
    {
        if heading_exec(t, m, mk, i, end).is_some() {
            return i;
        }
        i += 1;
    }
    i
}

/// Reads the duration line that may follow a heading ending at `h`.
fn duration_after_exec(t: &Vec<char>, mk: &Markers, h: usize, end: usize) -> (r: (u64, usize))
    requires
        h <= end <= t@.len(),
        mk.wf(),
    ensures
        r.0 as nat == duration_after(t@, h as int, end as int).0,
        r.1 == duration_after(t@, h as int, end as int).1,
        h <= r.1 <= end,
{
    proof {
        lemma_duration_bounds(t@, h as int, end as int);
    }
    if !occurs_at_exec(t, h, &mk.duration, end) {
        return (0, h);
    }
    let ds = h + mk.duration.len();
    let de = digits_end_exec(t, ds, end);
    if de == ds || !occurs_at_exec(t, de, &mk.minutes, end) {
        return (0, h);
    }
    let v = parse_digits(t, ds, de, u64::MAX, 0);
    (v, de + mk.minutes.len())
}

/// Appends the bullet lines of `[s, e)`, joined by line breaks.
fn append_bullets(acc: &mut String, t: &Vec<char>, s: usize, e: usize)
    requires
        s <= e <= t@.len(),
    ensures
        final(acc)@ == old(acc)@ + join_lines(bullets(t@, s as int, e as int)),
{
    let ghost found: Seq<Seq<char>> = seq![];
    let mut i: usize = s;
    let mut first = true;
    proof {
        assert(old(acc)@ + join_lines(found) =~= old(acc)@);
        assert(found + bullets(t@, s as int, e as int) =~= bullets(t@, s as int, e as int));
    }
    while i < e
        invariant
            s <= i <= e <= t@.len(),
            found + bullets(t@, i as int, e as int) == bullets(t@, s as int, e as int),
            acc@ == old(acc)@ + join_lines(found),
            first == (found.len() == 0),
        decreases e - i,
    {
        if e - i > 2 && t[i] == '*' && t[i + 1] == ' ' && t[i + 2] != '\n' {
            proof {
                lemma_line_end_bounds(t@, i + 1, e as int);
            }
            let le = line_end_exec(t, i, e);
            let ghost piece = t@.subrange(i as int, le as int);
            if !first {
                acc.push('\n');
            }
            append_range(acc, t, i, le);
            first = false;
            proof {
                let nf = found.push(piece);
                assert(nf.drop_last() =~= found);
                if found.len() > 0 {
                    assert(acc@ =~= old(acc)@ + join_lines(nf));
                } else {
                    assert(acc@ =~= old(acc)@ + join_lines(nf));
                }
                assert(bullets(t@, i as int, e as int) == seq![piece] + bullets(
                    t@,
                    le as int,
                    e as int,
                ));
                assert(nf + bullets(t@, le as int, e as int) =~= found + bullets(
                    t@,
                    i as int,
                    e as int,
                ));
                found = nf;
            }
            i = le;
        } else {
            i += 1;
        }
    }
    proof {
        assert(found + bullets(t@, i as int, e as int) =~= found);
    }
}

/// A new, not yet completed record of `trip`.
fn new_detail(
    trip: ObjectId,
    title: String,
    html: String,
    estimated_duration: u64,
    language: &String,
    now: i64,
) -> (r: Detail)
    ensures
        r.title == title,
        r.html == html,
        r.estimated_duration == estimated_duration,
        made_for(r, trip, language@),
{
    Detail {
        id: fresh_id(),
        trip_id: trip,
        title,
        html,
        estimated_duration,
        language: language.clone(),
        completed: false,
        created_at: now,
        updated_at: now,
    }
}

/// Appends the place records of the day span `[start, e)`, each titled `dt`.
fn append_places(
    out: &mut Vec<Detail>,
    t: &Vec<char>,
    mk: &Markers,
    dt: &String,
    start: usize,
    e: usize,
    trip: ObjectId,
    language: &String,
    now: i64,
)
    requires
        start <= e <= t@.len(),
        mk.wf(),
        all_made_for(old(out)@, trip, language@),
    ensures
        entries_of(final(out)@) == entries_of(old(out)@) + place_entries(
            t@,
            dt@,
            e as int,
            start as int,
        ),
        all_made_for(final(out)@, trip, language@),
{
    let mut cur: usize = start;
    proof {
        assert(entries_of(out@) + place_entries(t@, dt@, e as int, cur as int) =~= entries_of(
            old(out)@,
        ) + place_entries(t@, dt@, e as int, start as int));
    }
    let mut done = false;
    while !done && cur < e
        invariant
            start <= cur <= e <= t@.len(),
            done ==> place_entries(t@, dt@, e as int, cur as int) == Seq::<Entry>::empty(),
            mk.wf(),
            all_made_for(out@, trip, language@),
            entries_of(out@) + place_entries(t@, dt@, e as int, cur as int) == entries_of(
                old(out)@,
            ) + place_entries(t@, dt@, e as int, start as int),
        decreases e - cur + if done { 0int } else { 1int },
    {
        let p = next_heading_exec(t, &mk.place, mk, cur, e);
        if p >= e {
            proof {
                assert(place_entries(t@, dt@, e as int, cur as int) =~= Seq::<Entry>::empty());
            }
            done = true;
            continue;
        }
        proof {
            lemma_next_heading_bounds(t@, place_marker(), cur as int, e as int);
            lemma_heading_bounds(t@, place_marker(), p as int, e as int);
            lemma_digits_end_bounds(t@, p + place_marker().len(), e as int);
        }
        let (ne, te) = heading_exec(t, &mk.place, mk, p, e).unwrap();
        let h = te + 1;
        let (dur, cs) = duration_after_exec(t, mk, h, e);
        let q = next_heading_exec(t, &mk.place, mk, cs, e);
        let n = parse_digits(t, p + mk.place.len(), ne, NUMBER_LIMIT, 1);
        let mut body = String::from_str("Place ");
        append_decimal(&mut body, n);
        body.append(": ");
        append_range(&mut body, t, ne + mk.sep.len(), te);
        body.push('\n');
        append_bullets(&mut body, t, cs, q);
        let ghost old_out = out@;
        let d = new_detail(trip, dt.clone(), body, dur, language, now);
        out.push(d);
        proof {
            assert(body@ =~= place_body(t@, p as int, e as int, cs as int, q as int));
            assert(entries_of(out@) =~= entries_of(old_out).push(entry_of(d)));
            assert(place_entries(t@, dt@, e as int, cur as int) == seq![
                (dt@, place_body(t@, p as int, e as int, cs as int, q as int), dur as nat),
            ] + place_entries(t@, dt@, e as int, q as int));
            assert(entries_of(out@) + place_entries(t@, dt@, e as int, q as int) =~= entries_of(
                old_out,
            ) + place_entries(t@, dt@, e as int, cur as int));
        }
        cur = q;
    }
    proof {
        if !done {
            assert(place_entries(t@, dt@, e as int, cur as int) =~= Seq::<Entry>::empty());
        }
        assert(entries_of(out@) + place_entries(t@, dt@, e as int, cur as int) =~= entries_of(
            out@,
        ));
    }
}

/// The records of the day-style scan of the whole text.
fn day_details(t: &Vec<char>, mk: &Markers, trip: ObjectId, language: &String, now: i64) -> (r:
    Vec<Detail>)
    requires
        mk.wf(),
    ensures
        entries_of(r@) == day_entries(t@, 0),
        all_made_for(r@, trip, language@),
{
    let n = t.len();
    let mut out: Vec<Detail> = Vec::new();
    let mut cur: usize = 0;
    proof {
        assert(entries_of(out@) + day_entries(t@, 0) =~= day_entries(t@, 0));
    }
    let mut done = false;
    while !done && cur < n
        invariant
            cur <= n == t@.len(),
            done ==> day_entries(t@, cur as int) == Seq::<Entry>::empty(),
            mk.wf(),
            all_made_for(out@, trip, language@),
            entries_of(out@) + day_entries(t@, cur as int) == day_entries(t@, 0),
        decreases n - cur + if done { 0int } else { 1int },
    {
        let p = next_heading_exec(t, &mk.day, mk, cur, n);
        if p >= n {
            proof {
                assert(day_entries(t@, cur as int) =~= Seq::<Entry>::empty());
            }
            done = true;
            continue;
        }
        proof {
            lemma_next_heading_bounds(t@, day_marker(), cur as int, n as int);
            lemma_heading_bounds(t@, day_marker(), p as int, n as int);
            lemma_digits_end_bounds(t@, p + day_marker().len(), n as int);
        }
        let (ne, te) = heading_exec(t, &mk.day, mk, p, n).unwrap();
        let h = te + 1;
        let q = next_heading_exec(t, &mk.day, mk, h, n);
        let num = parse_digits(t, p + mk.day.len(), ne, NUMBER_LIMIT, 1);
        let mut dt = String::from_str("Day ");
        append_decimal(&mut dt, num);
        dt.append(" - ");
        append_range(&mut dt, t, ne + mk.sep.len(), te);
        proof {
            assert(dt@ =~= day_title(t@, p as int));
        }
        let ghost old_out = out@;
        append_places(&mut out, t, mk, &dt, h, q, trip, language, now);
        proof {
            assert(day_entries(t@, cur as int) == place_entries(t@, dt@, q as int, h as int)
                + day_entries(t@, q as int));
            assert(entries_of(out@) + day_entries(t@, q as int) =~= entries_of(old_out)
                + day_entries(t@, cur as int));
        }
        cur = q;
    }
    proof {
        if !done {
            assert(day_entries(t@, cur as int) =~= Seq::<Entry>::empty());
        }
        assert(entries_of(out@) + day_entries(t@, cur as int) =~= entries_of(out@));
    }
    out
}

/// The records of the detail-style scan of the whole text.
fn detail_details(t: &Vec<char>, mk: &Markers, trip: ObjectId, language: &String, now: i64) -> (r:
    Vec<Detail>)
    requires
        mk.wf(),
    ensures
        entries_of(r@) == detail_entries(t@, 0),
        all_made_for(r@, trip, language@),
{
    let n = t.len();
    let mut out: Vec<Detail> = Vec::new();
    let mut cur: usize = 0;
    proof {
        assert(entries_of(out@) + detail_entries(t@, 0) =~= detail_entries(t@, 0));
    }
    let mut done = false;
    while !done && cur < n
        invariant
            cur <= n == t@.len(),
            done ==> detail_entries(t@, cur as int) == Seq::<Entry>::empty(),
            mk.wf(),
            all_made_for(out@, trip, language@),
            entries_of(out@) + detail_entries(t@, cur as int) == detail_entries(t@, 0),
        decreases n - cur + if done { 0int } else { 1int },
    {
        let p = next_heading_exec(t, &mk.detail, mk, cur, n);
        if p >= n {
            proof {
                assert(detail_entries(t@, cur as int) =~= Seq::<Entry>::empty());
            }
            done = true;
            continue;
        }
        proof {
            lemma_next_heading_bounds(t@, detail_marker(), cur as int, n as int);
            lemma_heading_bounds(t@, detail_marker(), p as int, n as int);
            lemma_digits_end_bounds(t@, p + detail_marker().len(), n as int);
        }
        let (ne, te) = heading_exec(t, &mk.detail, mk, p, n).unwrap();
        let h = te + 1;
        let q = next_heading_exec(t, &mk.detail, mk, h, n);
        let (dur, _cs) = duration_after_exec(t, mk, h, q);
        let mut title = String::new();
        append_range(&mut title, t, ne + mk.sep.len(), te);
        let ghost old_out = out@;
        let d = new_detail(trip, title, String::new(), dur, language, now);
        out.push(d);
        proof {
            assert(title@ =~= heading_title(t@, detail_marker(), p as int, n as int));
            assert(entries_of(out@) =~= entries_of(old_out).push(entry_of(d)));
            assert(entries_of(out@) + detail_entries(t@, q as int) =~= entries_of(old_out)
                + detail_entries(t@, cur as int));
        }
        cur = q;
    }
    proof {
        if !done {
            assert(detail_entries(t@, cur as int) =~= Seq::<Entry>::empty());
        }
        assert(entries_of(out@) + detail_entries(t@, cur as int) =~= entries_of(out@));
    }
    out
}

/// Turns outline text into the detail records of the trip whose identity is
/// written in `trip_id`. The text itself is never rejected: text without
/// headings gives no records. Only a malformed `trip_id` fails, with a
/// validation error.
pub fn parse_outline(outline: &str, trip_id: &str, language: &str) -> (r: Result<
    Vec<Detail>,
    TripError,
>)
    ensures
        r is Ok <==> is_id_text(trip_id@),
        r matches Err(e) ==> e == TripError::Validation,
        r matches Ok(ds) ==> {
            &&& entries_of(ds@) == outline_entries(outline@)
            &&& forall|i: int|
                0 <= i < ds@.len() ==> #[trigger] ds@[i].trip_id.bytes@ == id_bytes_of(
                    trip_id@,
                ) && ds@[i].language@ == language@ && !ds@[i].completed
        },
{
    let trip = match parse_object_id(trip_id) {
        Ok(id) => id,
        Err(e) => {
            return Err(e);
        },
    };
    let t = chars_of(outline);
    let lang = String::from_str(language);
    let mk = Markers::new();
    let now = now_millis();
    let ds = if next_heading_exec(&t, &mk.day, &mk, 0, t.len()) < t.len() {
        day_details(&t, &mk, trip, &lang, now)
    } else {
        detail_details(&t, &mk, trip, &lang, now)
    };
    proof {
        assert forall|i: int| 0 <= i < ds@.len() implies #[trigger] ds@[i].trip_id.bytes@
            == id_bytes_of(trip_id@) && ds@[i].language@ == language@ && !ds@[i].completed by {
            assert(made_for(ds@[i], trip, lang@));
        }
    }
    Ok(ds)
}

/// The number of place headings the scan meets in a day span `[cur, e)`.
pub open spec fn place_count(t: Seq<char>, e: int, cur: int) -> nat
    decreases e - cur,
{
    if cur < 0 || e > t.len() || cur > e {
        0
    } else {
        let p = next_heading(t, place_marker(), cur, e);
        if p >= e {
            0
        } else {
            let h = heading_stop(t, place_marker(), p, e);
            let cs = duration_after(t, h, e).1;
            proof {
                lemma_next_heading_bounds(t, place_marker(), cur, e);
                lemma_heading_bounds(t, place_marker(), p, e);
                lemma_duration_bounds(t, h, e);
                lemma_next_heading_bounds(t, place_marker(), cs, e);
            }
            1 + place_count(t, e, next_heading(t, place_marker(), cs, e))
        }
    }
}

/// The sum, over the day headings the scan meets from `cur`, of each day's place headings.
pub open spec fn day_place_total(t: Seq<char>, cur: int) -> nat
    decreases t.len() - cur,
{
    let n = t.len() as int;
    if cur < 0 || cur > n {
        0
    } else {
        let p = next_heading(t, day_marker(), cur, n);
        if p >= n {
            0
        } else {
            let h = heading_stop(t, day_marker(), p, n);
            proof {
                lemma_next_heading_bounds(t, day_marker(), cur, n);
                lemma_heading_bounds(t, day_marker(), p, n);
                lemma_next_heading_bounds(t, day_marker(), h, n);
            }
            let q = next_heading(t, day_marker(), h, n);
            place_count(t, q, h) + day_place_total(t, q)
        }
    }
}

/// The number of detail headings the scan meets from `cur`.
pub open spec fn detail_count(t: Seq<char>, cur: int) -> nat
    decreases t.len() - cur,
{
    let n = t.len() as int;
    if cur < 0 || cur > n {
        0
    } else {
        let p = next_heading(t, detail_marker(), cur, n);
        if p >= n {
            0
        } else {
            let h = heading_stop(t, detail_marker(), p, n);
            proof {
                lemma_next_heading_bounds(t, detail_marker(), cur, n);
                lemma_heading_bounds(t, detail_marker(), p, n);
                lemma_next_heading_bounds(t, detail_marker(), h, n);
            }
            1 + detail_count(t, next_heading(t, detail_marker(), h, n))
        }
    }
}

/// The entry's duration is what the duration line after some place heading
/// reads (0 without one).
pub open spec fn timed_by_place(t: Seq<char>, en: Entry) -> bool {
    exists|p: int, e: int|
        e <= t.len() && #[trigger] heading_at(t, place_marker(), p, e) && en.2 == duration_after(
            t,
            heading_stop(t, place_marker(), p, e),
            e,
        ).0
}

/// The entry is titled after some day heading: "Day {number} - {title}".
pub open spec fn titled_by_day(t: Seq<char>, en: Entry) -> bool {
    exists|p: int| #[trigger] heading_at(t, day_marker(), p, t.len() as int) && en.0 == day_title(t, p)
}

/// The entry comes from some detail heading: its title, no content yet, and
/// the duration its duration line reads (0 without one).
pub open spec fn from_detail_heading(t: Seq<char>, en: Entry) -> bool {
    exists|p: int|
        #[trigger] heading_at(t, detail_marker(), p, t.len() as int) && en.0 == heading_title(
            t,
            detail_marker(),
            p,
            t.len() as int,
        ) && en.1 == Seq::<char>::empty() && en.2 == duration_after(
            t,
            heading_stop(t, detail_marker(), p, t.len() as int),
            next_heading(
                t,
                detail_marker(),
                heading_stop(t, detail_marker(), p, t.len() as int),
                t.len() as int,
            ),
        ).0
}

proof fn lemma_place_entries(t: Seq<char>, dt: Seq<char>, e: int, cur: int)
    ensures
        place_entries(t, dt, e, cur).len() == place_count(t, e, cur),
        forall|i: int|
            0 <= i < place_entries(t, dt, e, cur).len() ==> (#[trigger] place_entries(
                t,
                dt,
                e,
                cur,
            )[i]).0 == dt && timed_by_place(t, place_entries(t, dt, e, cur)[i]),
    decreases e - cur,
{
    if !(cur < 0 || e > t.len() || cur > e) {
        let p = next_heading(t, place_marker(), cur, e);
        if p < e {
            let h = heading_stop(t, place_marker(), p, e);
            let (dur, cs) = duration_after(t, h, e);
            lemma_next_heading_bounds(t, place_marker(), cur, e);
            lemma_heading_bounds(t, place_marker(), p, e);
            lemma_duration_bounds(t, h, e);
            lemma_next_heading_bounds(t, place_marker(), cs, e);
            let q = next_heading(t, place_marker(), cs, e);
            lemma_place_entries(t, dt, e, q);
            let head: Entry = (dt, place_body(t, p, e, cs, q), dur);
            let rest = place_entries(t, dt, e, q);
            assert(place_entries(t, dt, e, cur) == seq![head] + rest);
            assert(heading_at(t, place_marker(), p, e));
            assert forall|i: int|
                0 <= i < place_entries(t, dt, e, cur).len() implies (#[trigger] place_entries(
                t,
                dt,
                e,
                cur,
            )[i]).0 == dt && timed_by_place(t, place_entries(t, dt, e, cur)[i]) by {
                if i > 0 {
                    assert(place_entries(t, dt, e, cur)[i] == rest[i - 1]);
                }
            }
        }
    }
}

proof fn lemma_day_entries(t: Seq<char>, cur: int)
    ensures
        day_entries(t, cur).len() == day_place_total(t, cur),
        forall|i: int|
            0 <= i < day_entries(t, cur).len() ==> titled_by_day(t, #[trigger] day_entries(t, cur)[i])
                && timed_by_place(t, day_entries(t, cur)[i]),
    decreases t.len() - cur,
{
    let n = t.len() as int;
    if 0 <= cur <= n {
        let p = next_heading(t, day_marker(), cur, n);
        if p < n {
            let h = heading_stop(t, day_marker(), p, n);
            lemma_next_heading_bounds(t, day_marker(), cur, n);
            lemma_heading_bounds(t, day_marker(), p, n);
            lemma_next_heading_bounds(t, day_marker(), h, n);
            let q = next_heading(t, day_marker(), h, n);
            lemma_day_entries(t, q);
            lemma_place_entries(t, day_title(t, p), q, h);
            let first = place_entries(t, day_title(t, p), q, h);
            let rest = day_entries(t, q);
            assert(day_entries(t, cur) == first + rest);
            assert forall|i: int| 0 <= i < day_entries(t, cur).len() implies titled_by_day(
                t,
                #[trigger] day_entries(t, cur)[i],
            ) && timed_by_place(t, day_entries(t, cur)[i]) by {
                if i < first.len() {
                    assert(day_entries(t, cur)[i] == first[i]);
                    assert(first[i].0 == day_title(t, p));
                    assert(heading_at(t, day_marker(), p, n));
                } else {
                    assert(day_entries(t, cur)[i] == rest[i - first.len()]);
                }
            }
        }
    }
}

proof fn lemma_detail_entries(t: Seq<char>, cur: int)
    ensures
        detail_entries(t, cur).len() == detail_count(t, cur),
        forall|i: int|
            0 <= i < detail_entries(t, cur).len() ==> from_detail_heading(
                t,
                #[trigger] detail_entries(t, cur)[i],
            ),
    decreases t.len() - cur,
{
    let n = t.len() as int;
    if 0 <= cur <= n {
        let p = next_heading(t, detail_marker(), cur, n);
        if p < n {
            let h = heading_stop(t, detail_marker(), p, n);
            lemma_next_heading_bounds(t, detail_marker(), cur, n);
            lemma_heading_bounds(t, detail_marker(), p, n);
            lemma_next_heading_bounds(t, detail_marker(), h, n);
            let q = next_heading(t, detail_marker(), h, n);
            lemma_detail_entries(t, q);
            let head: Entry = (
                heading_title(t, detail_marker(), p, n),
                seq![],
                duration_after(t, h, q).0,
            );
            let rest = detail_entries(t, q);
            assert(detail_entries(t, cur) == seq![head] + rest);
            assert(heading_at(t, detail_marker(), p, n));
            assert(from_detail_heading(t, head));
            assert forall|i: int| 0 <= i < detail_entries(t, cur).len() implies from_detail_heading(
                t,
                #[trigger] detail_entries(t, cur)[i],
            ) by {
                if i > 0 {
                    assert(detail_entries(t, cur)[i] == rest[i - 1]);
                }
            }
        }
    }
}

/// Day-style text gives one record per place heading of each day, each
/// titled "Day {number} - {day title}" after its day, and each with the
/// minutes that its place's duration line reads.
pub proof fn lemma_day_style_records(t: Seq<char>)
    requires
        has_day_heading(t),
    ensures
        outline_entries(t).len() == day_place_total(t, 0),
        forall|i: int|
            0 <= i < outline_entries(t).len() ==> titled_by_day(t, #[trigger] outline_entries(t)[i])
                && timed_by_place(t, outline_entries(t)[i]),
{
    lemma_day_entries(t, 0);
}

/// Detail-style text gives one record per detail heading, each without
/// content and with the minutes that its duration line reads.
pub proof fn lemma_detail_style_records(t: Seq<char>)
    requires
        !has_day_heading(t),
    ensures
        outline_entries(t).len() == detail_count(t, 0),
        forall|i: int|
            0 <= i < outline_entries(t).len() ==> (#[trigger] outline_entries(t)[i]).1
                == Seq::<char>::empty() && from_detail_heading(t, outline_entries(t)[i]),
{
    lemma_detail_entries(t, 0);
    assert forall|i: int| 0 <= i < outline_entries(t).len() implies (#[trigger] outline_entries(
        t,
    )[i]).1 == Seq::<char>::empty() && from_detail_heading(t, outline_entries(t)[i]) by {
        assert(from_detail_heading(t, detail_entries(t, 0)[i]));
    }
}

/// Text in which the scan meets neither a day nor a detail heading gives no
/// records.
pub proof fn lemma_no_heading_no_records(t: Seq<char>)
    requires
        next_heading(t, day_marker(), 0, t.len() as int) == t.len(),
        next_heading(t, detail_marker(), 0, t.len() as int) == t.len(),
    ensures
        outline_entries(t) == Seq::<Entry>::empty(),
{
    assert(detail_entries(t, 0) =~= Seq::<Entry>::empty());
}

/// A heading that is not followed by a well-formed duration line reads as
/// 0 minutes.
pub proof fn lemma_missing_duration_reads_zero(t: Seq<char>, h: int, end: int)
    requires
        !occurs_at(t, h, duration_marker(), end) || digits_end(t, h + duration_marker().len(), end)
            == h + duration_marker().len() || !occurs_at(
            t,
            digits_end(t, h + duration_marker().len(), end),
            minutes_marker(),
            end,
        ),
    ensures
        duration_after(t, h, end).0 == 0,
{
}

} // verus!
