use vstd::prelude::*;
use crate::app::App;
use crate::feed::{Article, ArticleView, Timestamp, opt_view};
use crate::subscription::{Feed, FeedView};
use crate::text::{append_chars, chars_of, chunks, digit_char, string_of, string_views, truncate_str, truncated, wrap_text};

verus! {

/// The proleptic Gregorian date `(year, month, day)` of the day `z` days
/// after January 1, 1970 (negative `z` before it).
pub open spec fn civil_date(z: int) -> (int, int, int) {
    let z = z + 719468;
    let era = z / 146097;
    let doe = z - era * 146097;
    let yoe = (doe - doe / 1460 + doe / 36524 - doe / 146096) / 365;
    let doy = doe - (365 * yoe + yoe / 4 - yoe / 100);
    let mp = (5 * doy + 2) / 153;
    let d = doy - (153 * mp + 2) / 5 + 1;
    let m = if mp < 10 {
        mp + 3
    } else {
        mp - 9
    };
    let y = yoe + era * 400;
    (if m <= 2 {
        y + 1
    } else {
        y
    }, m, d)
}

/// A number below 100 written with two decimal digits.
pub open spec fn two_digits(n: int) -> Seq<char> {
    seq![digit_char(n / 10), digit_char(n % 10)]
}

/// The first and the last year that `chrono` represents.
pub open spec fn chrono_year_range(y: int) -> bool {
    -262143 <= y <= 262142
}

/// The month and day, written `MM/DD` as `chrono` writes them with the
/// format `%m/%d`, of the instant `secs` seconds and `nanos` nanoseconds
/// after the Unix epoch, in UTC; none where `chrono` cannot represent that
/// instant: a year out of its range, or a nanosecond count of a second or
/// more that is no leap second (one in the last second of a minute, below
/// two seconds).
pub open spec fn month_day(secs: i64, nanos: u32) -> Option<Seq<char>> {
    let (y, m, d) = civil_date(secs as int / 86400);
    let in_day = secs as int % 86400;
    if chrono_year_range(y) && (nanos < 1_000_000_000 || (nanos < 2_000_000_000 && in_day % 60
        == 59)) {
        Some(two_digits(m) + "/"@ + two_digits(d))
    } else {
        None
    }
}

/// `chrono::DateTime::<Utc>::from_timestamp`, then `format("%m/%d")`.
/// The contract claims that the result is the proleptic Gregorian month and
/// day of the instant, as `month_day` computes them, and none exactly where
/// `from_timestamp` refuses the instant.
#[verifier::external_body]
fn format_month_day(secs: i64, nanos: u32) -> (r: Option<String>)
    ensures
        opt_view(r) == month_day(secs, nanos),
{
    match chrono::DateTime::from_timestamp(secs, nanos) {
        Some(d) => Some(d.format("%m/%d").to_string()),
        None => None,
    }
}

/// The date shown before an article's title: its month and day, or five
/// blanks when it has no date (or one that cannot be written).
pub open spec fn date_label(published: Option<Timestamp>) -> Seq<char> {
    match published {
        Some(t) => match month_day(t.secs, t.nanos) {
            Some(d) => d,
            None => "     "@,
        },
        None => "     "@,
    }
}

/// `w - k`, or 0 when `k` is larger (`usize::saturating_sub`).
pub open spec fn sat_sub(w: int, k: int) -> int {
    if w > k {
        w - k
    } else {
        0
    }
}

/// The lines of an article's entry in a list `width` columns wide: its title
/// wrapped, the first line after the date and the others indented by six
/// blanks, then the feed's name in brackets, cut to fit.
pub open spec fn item_lines(a: ArticleView, date: Seq<char>, width: int) -> Seq<Seq<char>> {
    let t = chunks(a.title, sat_sub(width, 7) as nat);
    Seq::new(
        t.len(),
        |i: int|
            if i == 0 {
                date + " "@ + t[i]
            } else {
                "      "@ + t[i]
            },
    ).push("      ["@ + truncated(a.feed_title, sat_sub(width, 8) as nat) + "]"@)
}

/// The date shown before an article's title.
pub fn article_date(published: Option<Timestamp>) -> (r: String)
    ensures
        r@ == date_label(published),
{
    let blank = string_of(&chars_of("     "));
    match published {
        Some(t) => match format_month_day(t.secs, t.nanos) {
            Some(d) => d,
            None => blank,
        },
        None => blank,
    }
}

/// The lines of an article's entry in a list `available_width` columns
/// wide, the feed's name last.
pub fn article_item_lines(a: &Article, available_width: usize) -> (r: Vec<String>)
    ensures
        string_views(r@) == item_lines(a@, date_label(a.published), available_width as int),
{
    entry_lines(a, article_date(a.published).as_str(), available_width)
}

/// The lines of an article's entry in a list `available_width` columns
/// wide, under the date label `date`, the feed's name last.
pub fn entry_lines(a: &Article, date: &str, available_width: usize) -> (r: Vec<String>)
    ensures
        string_views(r@) == item_lines(a@, date@, available_width as int),
{
    let title_max: usize = if available_width > 7 {
        available_width - 7
    } else {
        0
    };
    let feed_max: usize = if available_width > 8 {
        available_width - 8
    } else {
        0
    };
    let title_lines = wrap_text(a.title.as_str(), title_max);
    let ghost t = chunks(a.title@, title_max as nat);
    let ghost want = item_lines(a@, date@, available_width as int);
    let mut out: Vec<String> = Vec::new();
    let mut i: usize = 0;
    while i < title_lines.len()
        invariant
            i <= title_lines.len(),
            string_views(title_lines@) == t,
            t == chunks(a.title@, sat_sub(available_width as int, 7) as nat),
            want == item_lines(a@, date@, available_width as int),
            out@.len() == i,
            forall|j: int| 0 <= j < i ==> #[trigger] out@[j]@ == want[j],
        decreases title_lines.len() - i,
    {
        let mut line = if i == 0 {
            chars_of(date)
        } else {
            chars_of("      ")
        };
        if i == 0 {
            line.push(' ');
        }
        append_chars(&mut line, &chars_of(title_lines[i].as_str()));
        assert(title_lines@[i as int]@ == t[i as int]);
        proof {
            reveal_strlit(" ");
            reveal_strlit("      ");
        }
        if i == 0 {
            assert(line@ =~= date@ + " "@ + t[0]);
        } else {
            assert(line@ =~= "      "@ + t[i as int]);
        }
        out.push(string_of(&line));
        i += 1;
    }
    let mut last = chars_of("      [");
    append_chars(&mut last, &chars_of(truncate_str(a.feed_title.as_str(), feed_max).as_str()));
    last.push(']');
    proof {
        reveal_strlit("]");
    }
    assert(last@ =~= "      ["@ + truncated(a.feed_title@, feed_max as nat) + "]"@);
    out.push(string_of(&last));
    assert(string_views(out@) =~= want);
    out
}

/// How a subscription is listed: its title and address, or its address
/// alone when it has no title.
pub open spec fn feed_line_text(f: FeedView) -> Seq<char> {
    match f.title {
        Some(t) => t + " ("@ + f.url + ")"@,
        None => f.url,
    }
}

/// How a subscription is listed.
pub fn feed_line(f: &Feed) -> (r: String)
    ensures
        r@ == feed_line_text(f@),
{
    match &f.title {
        Some(t) => {
            let mut out = chars_of(t.as_str());
            append_chars(&mut out, &chars_of(" ("));
            append_chars(&mut out, &chars_of(f.url.as_str()));
            append_chars(&mut out, &chars_of(")"));
            string_of(&out)
        },
        None => string_of(&chars_of(f.url.as_str())),
    }
}

/// A subscription's entry in a list `available_width` columns wide.
pub fn feed_list_line(f: &Feed, available_width: usize) -> (r: String)
    ensures
        r@ == truncated(feed_line_text(f@), available_width as nat),
{
    truncate_str(feed_line(f).as_str(), available_width)
}

/// The title of the article list: the feed filtered by, in brackets, if any.
pub open spec fn list_title_text(filter: Option<Seq<char>>) -> Seq<char> {
    match filter {
        Some(f) => "Articles ["@ + f + "]"@,
        None => "Articles"@,
    }
}

impl App {
    /// The title of the article list.
    pub fn list_title(&self) -> (r: String)
        ensures
            r@ == list_title_text(self@.filter_feed_url),
    {
        match &self.filter_feed_url {
            Some(f) => {
                let mut out = chars_of("Articles [");
                append_chars(&mut out, &chars_of(f.as_str()));
                append_chars(&mut out, &chars_of("]"));
                string_of(&out)
            },
            None => string_of(&chars_of("Articles")),
        }
    }
}

} // verus!
