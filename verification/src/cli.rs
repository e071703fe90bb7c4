use vstd::prelude::*;
use crate::config::{ConfigKey, key_name};
use crate::feed::opt_view;
use crate::listing::{feed_line, feed_line_text};
use crate::subscription::{Feed, FeedView, feed_views};
use crate::text::{append_chars, chars_of, decimal, push_decimal, string_of, string_views};

verus! {

/// What the command line asks for; no command opens the reader.
pub struct Cli {
    pub command: Option<Commands>,
}

/// The commands of the command line.
pub enum Commands {
    /// Subscribe to a feed.
    Add { url: String },
    /// Unsubscribe from a feed.
    Delete { url: String },
    /// List the subscriptions.
    List,
    /// Subscribe to the feeds of an OPML file.
    Import { file: String },
    /// Write the subscriptions to an OPML file.
    Export { file: String },
    /// Show the settings, or change one.
    Config { list: bool, key: Option<String>, value: Option<String> },
}

/// What the command line says when there is nothing to list or show.
pub open spec fn no_subscriptions_text() -> Seq<char> {
    "No subscriptions yet. Use 'rss add <url>' to add a feed."@
}

/// What the command line says after subscribing to `url` under `title`.
pub open spec fn added_text(url: Seq<char>, title: Option<Seq<char>>) -> Seq<char> {
    "Added: "@ + feed_line_text(FeedView { url, title })
}

/// What the command line says after trying to unsubscribe from `url`.
pub open spec fn deleted_text(url: Seq<char>, found: bool) -> Seq<char> {
    if found {
        "Deleted: "@ + url
    } else {
        "Not found: "@ + url
    }
}

/// What the command line says after importing `n` feeds.
pub open spec fn imported_text(n: nat) -> Seq<char> {
    "Imported "@ + decimal(n) + " feed(s)"@
}

/// What the command line says after changing a setting.
pub open spec fn set_text(key: ConfigKey, value: Seq<char>) -> Seq<char> {
    "Set "@ + key_name(key) + " = "@ + value
}

/// The lines that list the subscriptions: one per feed, or a hint when
/// there are none.
pub open spec fn list_text(feeds: Seq<FeedView>) -> Seq<Seq<char>> {
    if feeds.len() == 0 {
        seq![no_subscriptions_text()]
    } else {
        feeds.map_values(|f: FeedView| feed_line_text(f))
    }
}

/// What the command line says when there is nothing to list or show.
pub fn no_subscriptions_message() -> (r: String)
    ensures
        r@ == no_subscriptions_text(),
{
    string_of(&chars_of("No subscriptions yet. Use 'rss add <url>' to add a feed."))
}

/// What the command line says after subscribing to `url` under `title`.
pub fn added_message(url: &str, title: Option<String>) -> (r: String)
    ensures
        r@ == added_text(url@, opt_view(title)),
{
    let f = Feed { url: string_of(&chars_of(url)), title };
    let mut out = chars_of("Added: ");
    append_chars(&mut out, &chars_of(feed_line(&f).as_str()));
    string_of(&out)
}

/// What the command line says after trying to unsubscribe from `url`.
pub fn deleted_message(url: &str, found: bool) -> (r: String)
    ensures
        r@ == deleted_text(url@, found),
{
    let mut out = if found {
        chars_of("Deleted: ")
    } else {
        chars_of("Not found: ")
    };
    append_chars(&mut out, &chars_of(url));
    string_of(&out)
}

/// What the command line says after importing `n` feeds.
pub fn imported_message(n: usize) -> (r: String)
    ensures
        r@ == imported_text(n as nat),
{
    let mut out = chars_of("Imported ");
    push_decimal(&mut out, n as u64);
    append_chars(&mut out, &chars_of(" feed(s)"));
    string_of(&out)
}

/// What the command line says after changing a setting.
pub fn set_message(key: ConfigKey, value: &str) -> (r: String)
    ensures
        r@ == set_text(key, value@),
{
    let mut out = chars_of("Set ");
    append_chars(&mut out, &chars_of(key.to_string().as_str()));
    append_chars(&mut out, &chars_of(" = "));
    append_chars(&mut out, &chars_of(value));
    string_of(&out)
}

/// The text that `Debug` writes for a path, as `format!("{:?}", Path::new(file))`
/// gives it: the path quoted, its special characters escaped.
pub uninterp spec fn path_debug_text(file: Seq<char>) -> Seq<char>;

/// `<std::path::Path as Debug>::fmt`, through `format!`. The contract claims
/// only that the result depends on the path alone.
#[verifier::external_body]
fn path_debug(file: &str) -> (r: String)
    ensures
        r@ == path_debug_text(file@),
{
    format!("{:?}", std::path::Path::new(file))
}

/// What the command line says after exporting `n` feeds to a file shown as
/// `shown_path`.
pub open spec fn exported_text(n: nat, shown_path: Seq<char>) -> Seq<char> {
    "Exported "@ + decimal(n) + " feed(s) to "@ + shown_path
}

/// What the command line says after exporting `n` feeds to a file shown as
/// `shown_path`.
pub fn export_report(n: usize, shown_path: &str) -> (r: String)
    ensures
        r@ == exported_text(n as nat, shown_path@),
{
    let mut out = chars_of("Exported ");
    push_decimal(&mut out, n as u64);
    append_chars(&mut out, &chars_of(" feed(s) to "));
    append_chars(&mut out, &chars_of(shown_path));
    string_of(&out)
}

/// What the command line says after exporting `n` feeds to `file`: the file
/// as `Debug` shows a path.
pub fn exported_message(n: usize, file: &str) -> (r: String)
    ensures
        r@ == exported_text(n as nat, path_debug_text(file@)),
{
    export_report(n, path_debug(file).as_str())
}

/// The lines that list the subscriptions.
pub fn list_lines(feeds: &[Feed]) -> (r: Vec<String>)
    ensures
        string_views(r@) == list_text(feed_views(feeds@)),
{
    let mut out: Vec<String> = Vec::new();
    if feeds.len() == 0 {
        out.push(no_subscriptions_message());
        assert(string_views(out@) =~= list_text(feed_views(feeds@)));
        return out;
    }
    let mut i: usize = 0;
    while i < feeds.len()
        invariant
            i <= feeds.len(),
            out@.len() == i,
            forall|j: int| 0 <= j < i ==> #[trigger] out@[j]@ == feed_line_text(feeds@[j]@),
        decreases feeds.len() - i,
    {
        out.push(feed_line(&feeds[i]));
        i += 1;
    }
    assert(string_views(out@) =~= list_text(feed_views(feeds@)));
    out
}

} // verus!
