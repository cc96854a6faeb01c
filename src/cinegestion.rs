//! Extraction of show records from the rows of the booking system's listing.
use vstd::prelude::*;
use crate::calendar::{Movie, MovieView};
use crate::datetime::{CivilDateTime, MIN_INSTANT, MAX_INSTANT, civil_seconds, local_to_utc};
use crate::text::{first_names, is_word_char, pieces, parse_names, same_text, trim, trimmed, views, word_char};

verus! {

/// One show row of the listing: the inner markup of its cells, in order, and
/// the `data-names` attribute of each cell, if any.
pub struct ShowRow {
    pub cells: Vec<String>,
    pub cell_names: Vec<Option<String>>,
}

/// What a [`ShowRow`] holds, as mathematical values: the cells, and the
/// `data-names` attribute of the seventh cell.
pub struct ShowRowView {
    pub cells: Seq<Seq<char>>,
    pub names: Option<Seq<char>>,
}

impl View for ShowRow {
    type V = ShowRowView;

    open spec fn view(&self) -> ShowRowView {
        ShowRowView {
            cells: views(self.cells@),
            names: if self.cell_names@.len() > 6 {
                match self.cell_names@[6] {
                    Some(n) => Some(n@),
                    None => None,
                }
            } else {
                None
            },
        }
    }
}

/// The number of a French month name; any other text counts as December.
pub open spec fn month_number(m: Seq<char>) -> u32 {
    if m == "janvier"@ { 1 }
    else if m == "février"@ { 2 }
    else if m == "mars"@ { 3 }
    else if m == "avril"@ { 4 }
    else if m == "mai"@ { 5 }
    else if m == "juin"@ { 6 }
    else if m == "juillet"@ { 7 }
    else if m == "août"@ { 8 }
    else if m == "septembre"@ { 9 }
    else if m == "octobre"@ { 10 }
    else if m == "novembre"@ { 11 }
    else { 12 }
}

/// The number of a French month name. An unknown name falls back to December:
/// a lenient default rather than a validation.
pub fn parse_month(month: &str) -> (r: u32)
    ensures
        r == month_number(month@),
        1 <= r <= 12,
{
    if same_text(month, "janvier") { 1 }
    else if same_text(month, "février") { 2 }
    else if same_text(month, "mars") { 3 }
    else if same_text(month, "avril") { 4 }
    else if same_text(month, "mai") { 5 }
    else if same_text(month, "juin") { 6 }
    else if same_text(month, "juillet") { 7 }
    else if same_text(month, "août") { 8 }
    else if same_text(month, "septembre") { 9 }
    else if same_text(month, "octobre") { 10 }
    else if same_text(month, "novembre") { 11 }
    else { 12 }
}

/// Whether a `<br>` tag starts at index `i` of `s`.
pub open spec fn br_at(s: Seq<char>, i: int) -> bool {
    0 <= i && i + 4 <= s.len() && s[i] == '<' && s[i + 1] == 'b' && s[i + 2] == 'r' && s[i + 3]
        == '>'
}

/// The first index `j >= i` where a `<br>` tag starts, or `s.len()` if none does.
pub open spec fn next_br(s: Seq<char>, i: int) -> int
    decreases s.len() - i,
{
    if i >= s.len() {
        s.len() as int
    } else if br_at(s, i) {
        i
    } else {
        next_br(s, i + 1)
    }
}

/// The title in a title cell: the text before its first `<br>`, trimmed.
pub open spec fn title_of(s: Seq<char>) -> Seq<char> {
    trim(s.subrange(0, next_br(s, 0)))
}

/// The title in the markup of a title cell: the text before the first line
/// break, trimmed, or the whole trimmed text when there is no line break.
pub fn parse_title(title_html: &str) -> (r: String)
    ensures
        r@ == title_of(title_html@),
{
    let n = title_html.unicode_len();
    let mut j: usize = 0;
    while j < n && !(n >= 4 && j <= n - 4 && title_html.get_char(j) == '<' && title_html.get_char(j + 1)
        == 'b' && title_html.get_char(j + 2) == 'r' && title_html.get_char(j + 3) == '>')
        invariant
            n == title_html@.len(),
            j <= n,
            next_br(title_html@, 0) == next_br(title_html@, j as int),
        decreases n - j,
    {
        j = j + 1;
    }
    trimmed(title_html.substring_char(0, j))
}

pub open spec fn is_digit(c: char) -> bool {
    '0' <= c && c <= '9'
}

pub open spec fn digit_value(c: char) -> int {
    c as int - '0' as int
}

/// The number written by the decimal digits of `s`.
pub open spec fn digits_value(s: Seq<char>) -> int
    decreases s.len(),
{
    if s.len() == 0 {
        0
    } else {
        digits_value(s.drop_last()) * 10 + digit_value(s.last())
    }
}

pub open spec fn all_digits(s: Seq<char>) -> bool {
    forall|i: int| 0 <= i < s.len() ==> is_digit(#[trigger] s[i])
}

/// The number of `len` digits of `s` from index `i` on.
pub open spec fn number_at(s: Seq<char>, i: int, len: int) -> int {
    digits_value(s.subrange(i, i + len))
}

pub open spec fn digits_at(s: Seq<char>, i: int, len: int) -> bool {
    0 <= i && i + len <= s.len() && all_digits(s.subrange(i, i + len))
}

/// The end of the run of word characters of `s` that starts at index `i`.
pub open spec fn word_end(s: Seq<char>, i: int) -> int
    decreases s.len() - i,
{
    if 0 <= i < s.len() && word_char(s[i]) {
        word_end(s, i + 1)
    } else {
        i
    }
}

/// The fields of a date text `weekday DD month YYYY HH:MM` that starts at index
/// `p` of `s`, where the weekday and the month are runs of word characters and
/// the numbers ASCII digits; the weekday is not read.
pub open spec fn date_at(s: Seq<char>, p: int) -> Option<CivilDateTime> {
    let w = word_end(s, p);
    let m = word_end(s, w + 4);
    if 0 <= p && p < w && w + 4 < m && m + 11 <= s.len() && s[w] == ' ' && digits_at(s, w + 1, 2)
        && s[w + 3] == ' ' && s[m] == ' ' && digits_at(s, m + 1, 4) && s[m + 5] == ' '
        && digits_at(s, m + 6, 2) && s[m + 8] == ':' && digits_at(s, m + 9, 2) {
        Some(CivilDateTime {
            year: number_at(s, m + 1, 4) as i32,
            month: month_number(s.subrange(w + 4, m)),
            day: number_at(s, w + 1, 2) as u32,
            hour: number_at(s, m + 6, 2) as u32,
            minute: number_at(s, m + 9, 2) as u32,
        })
    } else {
        None
    }
}

/// The date text found first in `s` from index `p` on.
pub open spec fn date_from(s: Seq<char>, p: int) -> Option<CivilDateTime>
    decreases s.len() - p,
{
    if p < 0 || p >= s.len() {
        None
    } else if date_at(s, p) is Some {
        date_at(s, p)
    } else {
        date_from(s, p + 1)
    }
}

/// The fields of the first date text `weekday DD month YYYY HH:MM` in `s`.
pub open spec fn date_fields(s: Seq<char>) -> Option<CivilDateTime> {
    date_from(s, 0)
}

pub open spec fn pow10(n: nat) -> int
    decreases n,
{
    if n == 0 { 1 } else { 10 * pow10((n - 1) as nat) }
}

proof fn lemma_digits_value_bound(s: Seq<char>)
    requires
        all_digits(s),
    ensures
        0 <= digits_value(s) < pow10(s.len()),
    decreases s.len(),
{
    if s.len() > 0 {
        let t = s.drop_last();
        assert(all_digits(t)) by {
            assert forall|i: int| 0 <= i < t.len() implies is_digit(#[trigger] t[i]) by {
                assert(t[i] == s[i]);
            }
        }
        assert(is_digit(s[s.len() - 1]));
        lemma_digits_value_bound(t);
        let a = digits_value(t);
        let p = pow10(t.len());
        let d = digit_value(s.last());
        assert(0 <= a * 10 + d < 10 * p) by (nonlinear_arith)
            requires
                0 <= a < p,
                0 <= d <= 9,
        ;
    }
}

/// Reads the decimal number of `len` digits of `s` from index `i` on.
fn read_number(s: &str, i: usize, len: usize) -> (r: Option<u32>)
    requires
        i + len <= s@.len() <= usize::MAX,
        len <= 4,
    ensures
        r matches Some(v) ==> digits_at(s@, i as int, len as int) && v == number_at(s@, i as int, len as int),
        r is None ==> !digits_at(s@, i as int, len as int),
{
    let mut v: u32 = 0;
    let mut k: usize = 0;
    while k < len
        invariant
            i + len <= s@.len() <= usize::MAX,
            len <= 4,
            k <= len,
            all_digits(s@.subrange(i as int, i + k)),
            v == digits_value(s@.subrange(i as int, i + k)),
        decreases len - k,
    {
        let c = s.get_char(i + k);
        if !('0' <= c && c <= '9') {
            assert(s@.subrange(i as int, i + len)[k as int] == c);
            return None;
        }
        proof {
            let t = s@.subrange(i as int, i + k + 1);
            assert(t.drop_last() =~= s@.subrange(i as int, i + k));
            assert(t.last() == c);
            lemma_digits_value_bound(s@.subrange(i as int, i + k));
            reveal_with_fuel(pow10, 4);
            assert(pow10(0) == 1 && pow10(1) == 10 && pow10(2) == 100 && pow10(3) == 1000);
            assert(v < 1000);
            assert(all_digits(t)) by {
                assert forall|m: int| 0 <= m < t.len() implies is_digit(#[trigger] t[m]) by {
                    if m < k {
                        assert(t[m] == s@.subrange(i as int, i + k)[m]);
                    }
                }
            }
        }
        v = v * 10 + (c as u32 - '0' as u32);
        k = k + 1;
    }
    Some(v)
}

fn word_end_at(s: &str, i: usize) -> (r: usize)
    requires
        i <= s@.len() <= usize::MAX,
    ensures
        r == word_end(s@, i as int),
        i <= r <= s@.len(),
{
    let n = s.unicode_len();
    let mut j: usize = i;
    while j < n && is_word_char(s.get_char(j))
        invariant
            n == s@.len(),
            i <= j <= n,
            word_end(s@, i as int) == word_end(s@, j as int),
        decreases n - j,
    {
        j = j + 1;
    }
    j
}

/// Reads a date text `weekday DD month YYYY HH:MM` starting at index `p`.
fn date_at_index(s: &str, p: usize) -> (r: Option<CivilDateTime>)
    requires
        p < s@.len() <= usize::MAX,
    ensures
        r == date_at(s@, p as int),
{
    let n = s.unicode_len();
    let w = word_end_at(s, p);
    if w <= p || n < 11 || w > n - 4 {
        return None;
    }
    if s.get_char(w) != ' ' || s.get_char(w + 3) != ' ' {
        return None;
    }
    let day = match read_number(s, w + 1, 2) {
        Some(v) => v,
        None => return None,
    };
    let m = word_end_at(s, w + 4);
    if m <= w + 4 || m > n - 11 {
        return None;
    }
    if s.get_char(m) != ' ' || s.get_char(m + 5) != ' ' || s.get_char(m + 8) != ':' {
        return None;
    }
    let year = match read_number(s, m + 1, 4) {
        Some(v) => v,
        None => return None,
    };
    let hour = match read_number(s, m + 6, 2) {
        Some(v) => v,
        None => return None,
    };
    let minute = match read_number(s, m + 9, 2) {
        Some(v) => v,
        None => return None,
    };
    let month = parse_month(s.substring_char(w + 4, m));
    proof {
        lemma_digits_value_bound(s@.subrange(m + 1, m + 5));
        reveal_with_fuel(pow10, 5);
    }
    Some(CivilDateTime { year: year as i32, month, day, hour, minute })
}

/// Finds the first date text `weekday DD month YYYY HH:MM` in `date` and reads its fields.
pub fn date_parts(date: &str) -> (r: Option<CivilDateTime>)
    ensures
        r == date_fields(date@),
{
    let n = date.unicode_len();
    let mut p: usize = 0;
    while p < n
        invariant
            n == date@.len(),
            p <= n,
            date_fields(date@) == date_from(date@, p as int),
        decreases n - p,
    {
        let found = date_at_index(date, p);
        if found.is_some() {
            return found;
        }
        p = p + 1;
    }
    None
}

/// The session number of an id cell: its decimal digits, when there is at least
/// one and the number fits in a `u32`.
pub open spec fn id_of(s: Seq<char>) -> Option<u32> {
    if s.len() > 0 && all_digits(s) && digits_value(s) <= u32::MAX {
        Some(digits_value(s) as u32)
    } else {
        None
    }
}

proof fn lemma_prefix_value_le(s: Seq<char>, k: int)
    requires
        all_digits(s),
        0 <= k <= s.len(),
    ensures
        digits_value(s.subrange(0, k)) <= digits_value(s),
    decreases s.len(),
{
    if k < s.len() {
        let t = s.drop_last();
        assert(all_digits(t)) by {
            assert forall|i: int| 0 <= i < t.len() implies is_digit(#[trigger] t[i]) by {
                assert(t[i] == s[i]);
            }
        }
        assert(t.subrange(0, k) =~= s.subrange(0, k));
        lemma_prefix_value_le(t, k);
        lemma_digits_value_bound(t);
        assert(is_digit(s[s.len() - 1]));
    } else {
        assert(s.subrange(0, k) =~= s);
    }
}

/// Reads the session number of an id cell.
pub fn parse_id(s: &str) -> (r: Option<u32>)
    ensures
        r == id_of(s@),
{
    let n = s.unicode_len();
    if n == 0 {
        return None;
    }
    let mut v: u64 = 0;
    let mut k: usize = 0;
    while k < n
        invariant
            n == s@.len(),
            k <= n,
            all_digits(s@.subrange(0, k as int)),
            v == digits_value(s@.subrange(0, k as int)),
            v <= u32::MAX,
        decreases n - k,
    {
        let c = s.get_char(k);
        if !('0' <= c && c <= '9') {
            assert(!is_digit(s@[k as int]));
            return None;
        }
        let t = Ghost(s@.subrange(0, k + 1));
        proof {
            assert(t@.drop_last() =~= s@.subrange(0, k as int));
            assert(all_digits(t@)) by {
                assert forall|m: int| 0 <= m < t@.len() implies is_digit(#[trigger] t@[m]) by {
                    if m < k {
                        assert(t@[m] == s@.subrange(0, k as int)[m]);
                    }
                }
            }
        }
        v = v * 10 + (c as u64 - '0' as u64);
        k = k + 1;
        if v > u32::MAX as u64 {
            proof {
                if all_digits(s@) {
                    lemma_prefix_value_le(s@, k as int);
                }
            }
            return None;
        }
    }
    assert(s@.subrange(0, n as int) =~= s@);
    Some(v as u32)
}

/// The start of a show row when the row is kept: it has at least seven cells,
/// its role cell is exactly `Benevoles`, its venue cell is exactly `venue`, its
/// id cell is a number and its date cell holds a date text.
pub open spec fn row_shape(row: ShowRowView, venue: Seq<char>) -> Option<CivilDateTime> {
    let c = row.cells;
    if c.len() >= 7 && c[1] == "Benevoles"@ && c[2] == venue && id_of(c[0]) is Some {
        date_fields(c[3])
    } else {
        None
    }
}

/// The first names of a `data-names` attribute; none when it is missing.
pub open spec fn names_of(names: Option<Seq<char>>) -> Seq<Seq<char>> {
    match names {
        Some(n) => first_names(pieces(n)),
        None => seq![],
    }
}

/// The show record of a row kept for `venue`, given the instant its local start
/// converts to; none when the row is not kept, the conversion gave nothing, or
/// the instant lies outside the supported range.
pub open spec fn movie_from(row: ShowRowView, venue: Seq<char>, instant: Option<int>) -> Option<MovieView> {
    if row_shape(row, venue) is Some && instant is Some && MIN_INSTANT <= instant.unwrap()
        <= MAX_INSTANT {
        Some(MovieView {
            id: id_of(row.cells[0]).unwrap(),
            title: title_of(row.cells[4]),
            date: instant.unwrap(),
            projector: trim(row.cells[5]),
            assigned_to: names_of(row.names),
        })
    } else {
        None
    }
}

/// Checks whether a row is kept for `location`, and gives its local start.
pub fn row_start(row: &ShowRow, location: &str) -> (r: Option<CivilDateTime>)
    ensures
        r == row_shape(row@, location@),
{
    if row.cells.len() < 7 {
        return None;
    }
    assert(row@.cells[1] == row.cells@[1]@);
    assert(row@.cells[2] == row.cells@[2]@);
    assert(row@.cells[0] == row.cells@[0]@);
    assert(row@.cells[3] == row.cells@[3]@);
    if !same_text(row.cells[1].as_str(), "Benevoles") || !same_text(row.cells[2].as_str(), location) {
        return None;
    }
    if parse_id(row.cells[0].as_str()).is_none() {
        return None;
    }
    date_parts(row.cells[3].as_str())
}

/// Builds the show record of a row kept for `location`, from the instant its
/// local start converts to.
pub fn movie_from_row(row: &ShowRow, location: &str, instant: Option<i64>) -> (r: Option<Movie>)
    ensures
        match r {
            Some(m) => movie_from(row@, location@, Some(instant.unwrap() as int)) == Some(m@) && m.wf()
                && instant is Some,
            None => movie_from(row@, location@, match instant {
                Some(t) => Some(t as int),
                None => None,
            }) is None,
        },
{
    let t = match instant {
        Some(t) => t,
        None => return None,
    };
    if t < MIN_INSTANT || t > MAX_INSTANT {
        return None;
    }
    if row_start(row, location).is_none() {
        return None;
    }
    assert(row@.cells[0] == row.cells@[0]@);
    assert(row@.cells[4] == row.cells@[4]@);
    assert(row@.cells[5] == row.cells@[5]@);
    let id = match parse_id(row.cells[0].as_str()) {
        Some(v) => v,
        None => return None,
    };
    let title = parse_title(row.cells[4].as_str());
    let projector = trimmed(row.cells[5].as_str());
    let assigned_to = if row.cell_names.len() > 6 {
        match &row.cell_names[6] {
            Some(v) => parse_names(v.as_str()),
            None => Vec::new(),
        }
    } else {
        Vec::new()
    };
    proof {
        if row@.names is None {
            assert(views(assigned_to@) =~= seq![]);
        }
    }
    Some(Movie { id, title, date: t, projector, assigned_to })
}

/// Parses one show row for `location`: rows that are not kept give nothing; a
/// kept row gives its record, whose start is the local start converted to UTC.
pub fn parse_movie(location: &str, row: &ShowRow) -> (r: Option<Movie>)
    ensures
        row_shape(row@, location@) is None ==> r is None,
        r matches Some(m) ==> row_shape(row@, location@) matches Some(c) && civil_seconds(c) - 86400
            < m.date < civil_seconds(c) + 86400 && movie_from(row@, location@, Some(m.date as int))
            == Some(m@) && m.wf(),
{
    let start = match row_start(row, location) {
        Some(c) => c,
        None => return None,
    };
    let instant = local_to_utc(start);
    movie_from_row(row, location, instant)
}

/// The records that the rows give for `venue`, in order, where `instants[i]` is
/// what the local start of row `i` converted to.
pub open spec fn select_movies(rows: Seq<ShowRowView>, venue: Seq<char>, instants: Seq<Option<int>>) -> Seq<MovieView>
    decreases rows.len(),
{
    if rows.len() == 0 {
        seq![]
    } else {
        let rest = select_movies(rows.drop_last(), venue, instants.drop_last());
        match movie_from(rows.last(), venue, instants.last()) {
            Some(m) => rest.push(m),
            None => rest,
        }
    }
}

/// The views of the rows of `v`.
pub open spec fn row_views(v: Seq<ShowRow>) -> Seq<ShowRowView> {
    v.map_values(|x: ShowRow| x@)
}

/// The views of the records of `v`.
pub open spec fn movie_views(v: Seq<Movie>) -> Seq<MovieView> {
    v.map_values(|m: Movie| m@)
}

/// Whether `instants` is a possible outcome of converting the local starts of the
/// rows: nothing for a row that is not kept, and for a kept row nothing or an
/// instant less than a day away from its wall-clock reading.
pub open spec fn plausible_instants(rows: Seq<ShowRowView>, venue: Seq<char>, instants: Seq<Option<int>>) -> bool {
    instants.len() == rows.len() && forall|i: int| 0 <= i < rows.len() ==> match #[trigger] instants[i] {
        Some(t) => row_shape(rows[i], venue) matches Some(c) && civil_seconds(c) - 86400 < t
            < civil_seconds(c) + 86400,
        None => true,
    }
}

/// Extracts the show records of `location` from the rows, in order: each row is
/// kept or left out on its own, as `parse_movie` decides.
pub fn extract(rows: &Vec<ShowRow>, location: &str) -> (r: Vec<Movie>)
    ensures
        exists|instants: Seq<Option<int>>| plausible_instants(row_views(rows@), location@, instants)
            && movie_views(r@) == #[trigger] select_movies(row_views(rows@), location@, instants),
        forall|k: int| 0 <= k < r@.len() ==> (#[trigger] r@[k]).wf(),
{
    let ghost rv = row_views(rows@);
    let mut out: Vec<Movie> = Vec::new();
    let ghost mut instants: Seq<Option<int>> = seq![];
    let mut i: usize = 0;
    while i < rows.len()
        invariant
            i <= rows@.len(),
            rv == row_views(rows@),
            plausible_instants(rv.subrange(0, i as int), location@, instants),
            movie_views(out@) == select_movies(rv.subrange(0, i as int), location@, instants),
            forall|k: int| 0 <= k < out@.len() ==> (#[trigger] out@[k]).wf(),
        decreases rows@.len() - i,
    {
        let m = parse_movie(location, &rows[i]);
        let ghost before = instants;
        proof {
            instants = instants.push(if m is Some { Some(m.unwrap().date as int) } else { None });
            assert(rv.subrange(0, i + 1).drop_last() =~= rv.subrange(0, i as int));
            assert(instants.drop_last() =~= before);
            assert(rv[i as int] == rows@[i as int]@);
        }
        match m {
            Some(mv) => {
                out.push(mv);
            },
            None => {},
        }
        proof {
            assert(movie_views(out@) =~= select_movies(rv.subrange(0, i + 1), location@, instants));
            assert forall|j: int| 0 <= j < i + 1 implies match #[trigger] instants[j] {
                Some(t) => row_shape(rv.subrange(0, i + 1)[j], location@) matches Some(c)
                    && civil_seconds(c) - 86400 < t < civil_seconds(c) + 86400,
                None => true,
            } by {
                if j < i {
                    assert(instants[j] == before[j]);
                    assert(rv.subrange(0, i + 1)[j] == rv.subrange(0, i as int)[j]);
                }
            }
        }
        i = i + 1;
    }
    assert(rv.subrange(0, i as int) =~= rv);
    out
}

/// Rows that are not kept never give a record: every record that extraction
/// gives comes from a row with at least seven cells, the volunteer role and the
/// requested venue, and is that row's record.
pub proof fn lemma_only_kept_rows(rows: Seq<ShowRowView>, venue: Seq<char>, instants: Seq<Option<int>>, k: int)
    requires
        instants.len() == rows.len(),
        0 <= k < select_movies(rows, venue, instants).len(),
    ensures
        exists|i: int| 0 <= i < rows.len() && (#[trigger] row_shape(rows[i], venue)) is Some
            && rows[i].cells.len() >= 7 && rows[i].cells[1] == "Benevoles"@ && rows[i].cells[2] == venue
            && movie_from(rows[i], venue, instants[i]) == Some(select_movies(rows, venue, instants)[k]),
    decreases rows.len(),
{
    let out = select_movies(rows, venue, instants);
    let rest = select_movies(rows.drop_last(), venue, instants.drop_last());
    let last = rows.len() - 1;
    if k < rest.len() {
        lemma_only_kept_rows(rows.drop_last(), venue, instants.drop_last(), k);
        let i = choose|i: int| 0 <= i < rows.drop_last().len() && (#[trigger] row_shape(rows.drop_last()[i], venue)) is Some
            && rows.drop_last()[i].cells.len() >= 7 && rows.drop_last()[i].cells[1] == "Benevoles"@
            && rows.drop_last()[i].cells[2] == venue && movie_from(rows.drop_last()[i], venue, instants.drop_last()[i])
            == Some(rest[k]);
        assert(rows[i] == rows.drop_last()[i]);
        assert(instants[i] == instants.drop_last()[i]);
        assert(row_shape(rows[i], venue) is Some);
    } else {
        assert(movie_from(rows[last], venue, instants[last]) is Some);
        assert(row_shape(rows[last], venue) is Some);
    }
}

/// Well-formed rows each give exactly one record, in order, with the fields of
/// the row decoded: when every row is kept and its start converted to an
/// instant in range, the k-th record is the k-th row's record at that instant.
pub proof fn lemma_one_record_per_row(rows: Seq<ShowRowView>, venue: Seq<char>, instants: Seq<Option<int>>)
    requires
        instants.len() == rows.len(),
        forall|i: int| 0 <= i < rows.len() ==> (#[trigger] row_shape(rows[i], venue)) is Some,
        forall|i: int| 0 <= i < rows.len() ==> ((#[trigger] instants[i]) matches Some(t) && MIN_INSTANT <= t <= MAX_INSTANT),
    ensures
        select_movies(rows, venue, instants).len() == rows.len(),
        forall|k: int| 0 <= k < rows.len() ==> Some(#[trigger] select_movies(rows, venue, instants)[k])
            == movie_from(rows[k], venue, instants[k]),
    decreases rows.len(),
{
    if rows.len() > 0 {
        let r2 = rows.drop_last();
        let i2 = instants.drop_last();
        assert forall|i: int| 0 <= i < r2.len() implies (#[trigger] row_shape(r2[i], venue)) is Some by {
            assert(r2[i] == rows[i]);
        }
        assert forall|i: int| 0 <= i < r2.len() implies ((#[trigger] i2[i]) matches Some(t) && MIN_INSTANT <= t <= MAX_INSTANT) by {
            assert(i2[i] == instants[i]);
        }
        lemma_one_record_per_row(r2, venue, i2);
        let last = rows.len() - 1;
        assert(row_shape(rows[last], venue) is Some);
        assert(instants[last] is Some);
        assert forall|k: int| 0 <= k < rows.len() implies Some(#[trigger] select_movies(rows, venue, instants)[k])
            == movie_from(rows[k], venue, instants[k]) by {
            if k < last {
                assert(select_movies(r2, venue, i2)[k] == select_movies(rows, venue, instants)[k]);
                assert(r2[k] == rows[k]);
                assert(i2[k] == instants[k]);
            }
        }
    }
}

/// A listing without a kept row gives no record, whatever the conversions gave.
pub proof fn lemma_no_kept_row_no_record(rows: Seq<ShowRowView>, venue: Seq<char>, instants: Seq<Option<int>>)
    requires
        instants.len() == rows.len(),
        forall|i: int| 0 <= i < rows.len() ==> (#[trigger] row_shape(rows[i], venue)) is None,
    ensures
        select_movies(rows, venue, instants) == Seq::<MovieView>::empty(),
    decreases rows.len(),
{
    if rows.len() > 0 {
        let r2 = rows.drop_last();
        assert forall|i: int| 0 <= i < r2.len() implies (#[trigger] row_shape(r2[i], venue)) is None by {
            assert(r2[i] == rows[i]);
        }
        lemma_no_kept_row_no_record(r2, venue, instants.drop_last());
        assert(row_shape(rows[rows.len() - 1], venue) is None);
    }
}

} // verus!
