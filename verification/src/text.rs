use vstd::prelude::*;

verus! {

/// Appends one character to a `String` (`String::push`).
#[verifier::external_body]
pub(crate) fn push_char(s: &mut String, c: char)
    ensures
        final(s)@ == old(s)@.push(c),
{
    s.push(c);
}

/// The characters of `s`, in order.
pub fn chars_of(s: &str) -> (v: Vec<char>)
    ensures
        v@ == s@,
{
    let mut v: Vec<char> = Vec::new();
    for c in it: s.chars()
        invariant
            v@ == it.seq().take(it.index() as int),
    {
        v.push(c);
    }
    v
}

/// A `String` holding exactly the characters of `v`.
pub fn string_of(v: &[char]) -> (s: String)
    ensures
        s@ == v@,
{
    let mut s = String::new();
    let mut i: usize = 0;
    while i < v.len()
        invariant
            i <= v.len(),
            s@ == v@.take(i as int),
        decreases v.len() - i,
    {
        push_char(&mut s, v[i]);
        i += 1;
        assert(v@.take(i as int) == v@.take(i - 1 as int).push(v@[i - 1]));
    }
    assert(v@.take(v.len() as int) == v@);
    s
}


/// Appends the characters of `src` to `out`.
pub fn append_chars(out: &mut Vec<char>, src: &[char])
    ensures
        final(out)@ == old(out)@ + src@,
{
    let mut k: usize = 0;
    while k < src.len()
        invariant
            k <= src.len(),
            out@ == old(out)@ + src@.take(k as int),
        decreases src.len() - k,
    {
        out.push(src[k]);
        k += 1;
        assert(src@.take(k as int) == src@.take(k - 1 as int).push(src@[k - 1]));
    }
    assert(src@.take(src.len() as int) == src@);
}

/// Appends `src[start..end]` to `out`.
pub fn append_range(out: &mut Vec<char>, src: &[char], start: usize, end: usize)
    requires
        start <= end <= src.len(),
    ensures
        final(out)@ == old(out)@ + src@.subrange(start as int, end as int),
{
    let mut k: usize = start;
    while k < end
        invariant
            start <= k <= end <= src.len(),
            out@ == old(out)@ + src@.subrange(start as int, k as int),
        decreases end - k,
    {
        out.push(src[k]);
        k += 1;
        assert(src@.subrange(start as int, k as int) == src@.subrange(start as int, k - 1 as int).push(src@[k - 1]));
    }
}

/// Unicode `White_Space`, the set that `char::is_whitespace` tests for.
pub open spec fn is_white_space(c: char) -> bool {
    let u = c as u32;
    ||| 9 <= u <= 13
    ||| u == 32
    ||| u == 0x85
    ||| u == 0xa0
    ||| u == 0x1680
    ||| 0x2000 <= u <= 0x200a
    ||| u == 0x2028
    ||| u == 0x2029
    ||| u == 0x202f
    ||| u == 0x205f
    ||| u == 0x3000
}

/// Tells whether `c` is white space in the sense of Unicode `White_Space`.
pub fn is_white_space_char(c: char) -> (b: bool)
    ensures
        b == is_white_space(c),
{
    let u = c as u32;
    (9 <= u && u <= 13) || u == 32 || u == 0x85 || u == 0xa0 || u == 0x1680 || (0x2000 <= u && u
        <= 0x200a) || u == 0x2028 || u == 0x2029 || u == 0x202f || u == 0x205f || u == 0x3000
}

/// The words of `s` that follow the partial word `cur`: the maximal runs of
/// characters that are not white space.
pub open spec fn words_from(s: Seq<char>, cur: Seq<char>) -> Seq<Seq<char>>
    decreases s.len(),
{
    if s.len() == 0 {
        if cur.len() > 0 {
            seq![cur]
        } else {
            Seq::empty()
        }
    } else if is_white_space(s[0]) {
        (if cur.len() > 0 {
            seq![cur]
        } else {
            Seq::empty()
        }) + words_from(s.drop_first(), Seq::empty())
    } else {
        words_from(s.drop_first(), cur.push(s[0]))
    }
}

/// The white-space separated words of `s`, as `str::split_whitespace` yields them.
pub open spec fn words(s: Seq<char>) -> Seq<Seq<char>> {
    words_from(s, Seq::empty())
}

/// The pieces of `parts` joined by `sep`.
pub open spec fn join(parts: Seq<Seq<char>>, sep: Seq<char>) -> Seq<char>
    decreases parts.len(),
{
    if parts.len() == 0 {
        Seq::empty()
    } else if parts.len() == 1 {
        parts[0]
    } else {
        join(parts.drop_last(), sep) + sep + parts.last()
    }
}

/// `text` with its words joined by single spaces: no leading, trailing or
/// repeated white space, and no white space but plain spaces.
pub open spec fn collapse_white_space(text: Seq<char>) -> Seq<char> {
    join(words(text), seq![' '])
}

proof fn lemma_join_len_pos(parts: Seq<Seq<char>>, sep: Seq<char>)
    requires
        parts.len() > 0,
        parts.last().len() > 0,
    ensures
        join(parts, sep).len() > 0,
{
}

proof fn lemma_join_push(parts: Seq<Seq<char>>, w: Seq<char>, sep: Seq<char>)
    ensures
        join(parts.push(w), sep) == if parts.len() == 0 {
            w
        } else {
            join(parts, sep) + sep + w
        },
{
    assert(parts.push(w).drop_last() == parts);
}

/// The words of `text` joined by single spaces (`split_whitespace` then `join(" ")`).
pub fn sanitize_text(text: &str) -> (r: String)
    ensures
        r@ == collapse_white_space(text@),
{
    let chars = chars_of(text);
    let mut out: Vec<char> = Vec::new();
    let mut cur: Vec<char> = Vec::new();
    let ghost mut done: Seq<Seq<char>> = Seq::empty();
    let mut i: usize = 0;
    assert(chars@.skip(0) == chars@);
    while i < chars.len()
        invariant
            i <= chars.len(),
            chars@ == text@,
            words(chars@) == done + words_from(chars@.skip(i as int), cur@),
            out@ == join(done, seq![' ']),
            done.len() > 0 <==> out@.len() > 0,
            forall|j: int| 0 <= j < done.len() ==> #[trigger] done[j].len() > 0,
        decreases chars.len() - i,
    {
        let c = chars[i];
        let ghost rest = chars@.skip(i as int);
        assert(rest[0] == c);
        assert(rest.drop_first() == chars@.skip(i + 1));
        if is_white_space_char(c) {
            assert(words_from(rest, cur@) == (if cur@.len() > 0 {
                seq![cur@]
            } else {
                Seq::<Seq<char>>::empty()
            }) + words_from(rest.drop_first(), Seq::empty()));
            if cur.len() > 0 {
                proof {
                    lemma_join_push(done, cur@, seq![' ']);
                }
                if out.len() > 0 {
                    out.push(' ');
                }
                append_chars(&mut out, &cur);
                proof {
                    assert(seq![cur@] + words_from(rest.drop_first(), Seq::empty()) == seq![
                        cur@,
                    ] + words_from(chars@.skip(i + 1), Seq::empty()));
                    assert(done + (seq![cur@] + words_from(chars@.skip(i + 1), Seq::empty())) == done.push(cur@) + words_from(chars@.skip(i + 1), Seq::empty()));
                    done = done.push(cur@);
                }
                cur = Vec::new();
                assert(words(chars@) == done + words_from(chars@.skip(i + 1), cur@)) by {
                    assert(cur@ == Seq::<char>::empty());
                }
            } else {
                assert(cur@ =~= Seq::<char>::empty());
                assert(Seq::<Seq<char>>::empty() + words_from(chars@.skip(i + 1), Seq::empty())
                    == words_from(chars@.skip(i + 1), Seq::empty()));
            }
        } else {
            let ghost old_cur = cur@;
            assert(words_from(rest, old_cur) == words_from(rest.drop_first(), old_cur.push(c)));
            cur.push(c);
            assert(words(chars@) == done + words_from(chars@.skip(i + 1), cur@));
        }
        i += 1;
    }
    assert(chars@.skip(i as int) =~= Seq::<char>::empty());
    assert(words(chars@) == done + words_from(Seq::<char>::empty(), cur@));
    if cur.len() > 0 {
        assert(words(chars@) == done.push(cur@));
        proof {
            lemma_join_push(done, cur@, seq![' ']);
            if done.len() > 0 {
                lemma_join_len_pos(done, seq![' ']);
            }
        }
        if out.len() > 0 {
            out.push(' ');
        }
        append_chars(&mut out, &cur);
        proof {
            done = done.push(cur@);
        }
    } else {
        assert(cur@ =~= Seq::<char>::empty());
        assert(words(chars@) == done);
    }
    string_of(&out)
}


/// `line` without one trailing carriage return.
pub open spec fn drop_carriage_return(line: Seq<char>) -> Seq<char> {
    if line.len() > 0 && line.last() == '\r' {
        line.drop_last()
    } else {
        line
    }
}

/// The lines of `s` that follow the partial line `cur`, as `str::lines` yields
/// them: split at `'\n'`, a `'\r'` just before the `'\n'` removed, and no
/// empty line after a final `'\n'`.
pub open spec fn lines_from(s: Seq<char>, cur: Seq<char>) -> Seq<Seq<char>>
    decreases s.len(),
{
    if s.len() == 0 {
        if cur.len() > 0 {
            seq![cur]
        } else {
            Seq::empty()
        }
    } else if s[0] == '\n' {
        seq![drop_carriage_return(cur)] + lines_from(s.drop_first(), Seq::empty())
    } else {
        lines_from(s.drop_first(), cur.push(s[0]))
    }
}

/// The lines of `s` (`str::lines`).
pub open spec fn lines(s: Seq<char>) -> Seq<Seq<char>> {
    lines_from(s, Seq::empty())
}

/// The character sequences that a vector of character vectors holds.
pub open spec fn views(v: Seq<Vec<char>>) -> Seq<Seq<char>> {
    v.map_values(|l: Vec<char>| l@)
}

/// Splits `s` into its lines, as `str::lines` does.
pub fn lines_of(s: &[char]) -> (r: Vec<Vec<char>>)
    ensures
        views(r@) == lines(s@),
{
    let mut out: Vec<Vec<char>> = Vec::new();
    let mut cur: Vec<char> = Vec::new();
    let mut i: usize = 0;
    assert(s@.skip(0) == s@);
    assert(views(out@) =~= Seq::<Seq<char>>::empty());
    while i < s.len()
        invariant
            i <= s.len(),
            lines(s@) == views(out@) + lines_from(s@.skip(i as int), cur@),
        decreases s.len() - i,
    {
        let c = s[i];
        let ghost rest = s@.skip(i as int);
        assert(rest[0] == c);
        assert(rest.drop_first() == s@.skip(i + 1));
        if c == '\n' {
            let ghost old_out = out@;
            let ghost line = drop_carriage_return(cur@);
            assert(lines_from(rest, cur@) == seq![line] + lines_from(rest.drop_first(), Seq::empty()));
            if cur.len() > 0 && cur[cur.len() - 1] == '\r' {
                cur.pop();
            }
            assert(cur@ == line);
            out.push(cur);
            assert(views(out@) =~= views(old_out).push(line));
            cur = Vec::new();
            assert(cur@ =~= Seq::<char>::empty());
        } else {
            let ghost old_cur = cur@;
            assert(lines_from(rest, old_cur) == lines_from(rest.drop_first(), old_cur.push(c)));
            cur.push(c);
        }
        i += 1;
    }
    assert(s@.skip(i as int) =~= Seq::<char>::empty());
    if cur.len() > 0 {
        let ghost old_out = out@;
        let ghost last = cur@;
        out.push(cur);
        assert(views(out@) =~= views(old_out).push(last));
    } else {
        assert(cur@ =~= Seq::<char>::empty());
    }
    out
}

/// The decimal digit character for `d < 10`.
pub open spec fn digit_char(d: int) -> char {
    (('0' as int) + d) as char
}

/// The decimal representation of `n`, without sign or leading zeros
/// (`u64`'s `Display`).
pub open spec fn decimal(n: nat) -> Seq<char>
    decreases n,
{
    if n < 10 {
        seq![digit_char(n as int)]
    } else {
        decimal(n / 10).push(digit_char((n % 10) as int))
    }
}

/// Appends the decimal representation of `n` to `out`.
pub fn push_decimal(out: &mut Vec<char>, n: u64)
    ensures
        final(out)@ == old(out)@ + decimal(n as nat),
    decreases n,
{
    if n >= 10 {
        push_decimal(out, n / 10);
    }
    let d = (n % 10) as u8;
    let c = (48 + d) as char;
    assert(c == digit_char((n % 10) as int));
    out.push(c);
}

/// The value of a sequence of decimal digits.
pub open spec fn digits_value(d: Seq<char>) -> int
    decreases d.len(),
{
    if d.len() == 0 {
        0
    } else {
        digits_value(d.drop_last()) * 10 + (d.last() as int - '0' as int)
    }
}

/// Every character of `d` is an ASCII decimal digit.
pub open spec fn all_digits(d: Seq<char>) -> bool {
    forall|i: int| 0 <= i < d.len() ==> '0' <= #[trigger] d[i] <= '9'
}

/// What `str::parse::<u64>` gives: an optional `+`, then one or more ASCII
/// digits whose value fits in a `u64`.
pub open spec fn parse_u64_spec(s: Seq<char>) -> Option<u64> {
    let d = if s.len() > 0 && s[0] == '+' {
        s.drop_first()
    } else {
        s
    };
    if d.len() > 0 && all_digits(d) && digits_value(d) <= u64::MAX {
        Some(digits_value(d) as u64)
    } else {
        None
    }
}

proof fn lemma_digits_value_grows(d: Seq<char>, k: int, j: int)
    requires
        all_digits(d),
        0 <= k <= j <= d.len(),
    ensures
        0 <= digits_value(d.take(k)) <= digits_value(d.take(j)),
    decreases j - k,
{
    if k < j {
        lemma_digits_value_grows(d, k, j - 1);
        assert(d.take(j).drop_last() == d.take(j - 1));
        assert(d.take(j).last() == d[j - 1]);
    } else {
        lemma_digits_value_nonneg(d.take(k));
    }
}

proof fn lemma_digits_value_nonneg(d: Seq<char>)
    requires
        all_digits(d),
    ensures
        digits_value(d) >= 0,
    decreases d.len(),
{
    if d.len() > 0 {
        assert(all_digits(d.drop_last()));
        lemma_digits_value_nonneg(d.drop_last());
    }
}

/// Parses a decimal `u64` as `str::parse::<u64>` does.
pub fn parse_u64(s: &str) -> (r: Option<u64>)
    ensures
        r == parse_u64_spec(s@),
{
    let chars = chars_of(s);
    let start: usize = if chars.len() > 0 && chars[0] == '+' {
        1
    } else {
        0
    };
    let ghost d = if s@.len() > 0 && s@[0] == '+' {
        s@.drop_first()
    } else {
        s@
    };
    assert(d == chars@.skip(start as int));
    if start >= chars.len() {
        return None;
    }
    let mut acc: u64 = 0;
    let mut i: usize = start;
    assert(d.take(0) =~= Seq::<char>::empty());
    while i < chars.len()
        invariant
            start <= i <= chars.len(),
            chars@ == s@,
            d == (if s@.len() > 0 && s@[0] == '+' {
                s@.drop_first()
            } else {
                s@
            }),
            d == chars@.skip(start as int),
            forall|k: int| 0 <= k < i - start ==> '0' <= #[trigger] d[k] <= '9',
            acc == digits_value(d.take(i - start)),
        decreases chars.len() - i,
    {
        let c = chars[i];
        assert(d[i - start] == c);
        if !('0' <= c && c <= '9') {
            assert(!all_digits(d));
            assert(parse_u64_spec(s@) is None);
            return None;
        }
        let v = (c as u32 - 48) as u64;
        assert(d.take(i - start + 1).drop_last() == d.take(i - start));
        assert(d.take(i - start + 1).last() == c);
        if acc > (u64::MAX - v) / 10 {
            proof {
                assert(acc * 10 + v > u64::MAX) by (nonlinear_arith)
                    requires
                        acc > (u64::MAX - v) / 10,
                        v <= 9,
                ;
                let n = i - start + 1;
                let rest = d.skip(n as int);
                if all_digits(d) {
                    lemma_digits_value_grows(d, n as int, d.len() as int);
                    assert(d.take(d.len() as int) == d);
                }
            }
            return None;
        }
        acc = acc * 10 + v;
        i += 1;
    }
    assert(d.take(i - start) == d);
    Some(acc)
}

/// What `str::parse::<bool>` gives: exactly `true` or `false`.
pub open spec fn parse_bool_spec(s: Seq<char>) -> Option<bool> {
    if s == seq!['t', 'r', 'u', 'e'] {
        Some(true)
    } else if s == seq!['f', 'a', 'l', 's', 'e'] {
        Some(false)
    } else {
        None
    }
}

/// Tells whether two character sequences are equal.
pub fn chars_equal(a: &[char], b: &[char]) -> (r: bool)
    ensures
        r == (a@ == b@),
{
    if a.len() != b.len() {
        return false;
    }
    let mut i: usize = 0;
    while i < a.len()
        invariant
            i <= a.len(),
            a.len() == b.len(),
            forall|k: int| 0 <= k < i ==> a@[k] == b@[k],
        decreases a.len() - i,
    {
        if a[i] != b[i] {
            return false;
        }
        i += 1;
    }
    assert(a@ =~= b@);
    true
}

/// Parses a `bool` as `str::parse::<bool>` does.
pub fn parse_bool(s: &str) -> (r: Option<bool>)
    ensures
        r == parse_bool_spec(s@),
{
    let chars = chars_of(s);
    let t: Vec<char> = vec!['t', 'r', 'u', 'e'];
    let f: Vec<char> = vec!['f', 'a', 'l', 's', 'e'];
    assert(t@ == seq!['t', 'r', 'u', 'e']);
    assert(f@ == seq!['f', 'a', 'l', 's', 'e']);
    if chars_equal(&chars, &t) {
        Some(true)
    } else if chars_equal(&chars, &f) {
        Some(false)
    } else {
        None
    }
}


/// The character sequences that a vector of strings holds.
pub open spec fn string_views(v: Seq<String>) -> Seq<Seq<char>> {
    v.map_values(|l: String| l@)
}

/// `s` cut into consecutive pieces of `w` characters; the last piece holds
/// what is left and is never empty unless `s` is.
pub open spec fn chunks(s: Seq<char>, w: nat) -> Seq<Seq<char>>
    decreases s.len(),
{
    if s.len() <= w || w == 0 {
        seq![s]
    } else {
        seq![s.take(w as int)] + chunks(s.skip(w as int), w)
    }
}

/// Wraps `s` into lines of at most `max_width` characters; a width of 0
/// leaves `s` whole, and an empty `s` gives one empty line.
pub fn wrap_text(s: &str, max_width: usize) -> (r: Vec<String>)
    ensures
        string_views(r@) == chunks(s@, max_width as nat),
{
    let chars = chars_of(s);
    if max_width == 0 {
        let mut r: Vec<String> = Vec::new();
        r.push(string_of(&chars));
        assert(string_views(r@) =~= seq![s@]);
        return r;
    }
    let mut lines: Vec<String> = Vec::new();
    let mut cur: Vec<char> = Vec::new();
    let mut line_start: usize = 0;
    let mut i: usize = 0;
    assert(chars@.skip(0) == chars@);
    assert(string_views(lines@) =~= Seq::<Seq<char>>::empty());
    while i < chars.len()
        invariant
            chars@ == s@,
            max_width > 0,
            line_start <= i <= chars.len(),
            cur@ == chars@.subrange(line_start as int, i as int),
            cur.len() <= max_width,
            chunks(chars@, max_width as nat) == string_views(lines@) + chunks(
                chars@.skip(line_start as int),
                max_width as nat,
            ),
        decreases chars.len() - i,
    {
        if cur.len() >= max_width {
            let ghost rest = chars@.skip(line_start as int);
            assert(rest.len() > max_width);
            assert(rest.take(max_width as int) == cur@);
            assert(rest.skip(max_width as int) == chars@.skip(i as int));
            let ghost old_lines = lines@;
            lines.push(string_of(&cur));
            assert(string_views(lines@) =~= string_views(old_lines).push(cur@));
            cur = Vec::new();
            line_start = i;
        }
        cur.push(chars[i]);
        i += 1;
        assert(cur@ =~= chars@.subrange(line_start as int, i as int));
    }
    let ghost rest = chars@.skip(line_start as int);
    assert(rest =~= cur@);
    let ghost old_lines = lines@;
    lines.push(string_of(&cur));
    assert(string_views(lines@) =~= string_views(old_lines).push(cur@));
    lines
}

/// `s` cut to at most `max_width` characters; when it is longer and the width
/// leaves room, the last three kept characters give way to `...`.
pub open spec fn truncated(s: Seq<char>, max_width: nat) -> Seq<char> {
    if s.len() <= max_width {
        s
    } else if max_width <= 3 {
        s.take(max_width as int)
    } else {
        s.take(max_width - 3) + seq!['.', '.', '.']
    }
}

/// Shortens `s` to `max_width` characters, marking a cut with `...`.
pub fn truncate_str(s: &str, max_width: usize) -> (r: String)
    ensures
        r@ == truncated(s@, max_width as nat),
{
    let chars = chars_of(s);
    if chars.len() <= max_width {
        string_of(&chars)
    } else if max_width <= 3 {
        let mut out: Vec<char> = Vec::new();
        append_range(&mut out, &chars, 0, max_width);
        assert(out@ =~= s@.take(max_width as int));
        string_of(&out)
    } else {
        let mut out: Vec<char> = Vec::new();
        append_range(&mut out, &chars, 0, max_width - 3);
        out.push('.');
        out.push('.');
        out.push('.');
        assert(out@ =~= s@.take(max_width - 3) + seq!['.', '.', '.']);
        string_of(&out)
    }
}

/// `needle` occurs in `hay` as a contiguous piece.
pub open spec fn occurs_in(needle: Seq<char>, hay: Seq<char>) -> bool {
    exists|i: int|
        0 <= i && i + needle.len() <= hay.len() && #[trigger] hay.subrange(i, i + needle.len())
            == needle
}

/// Tells whether `needle` occurs in `hay` (`str::contains` with a string pattern).
pub fn contains_chars(hay: &[char], needle: &[char]) -> (r: bool)
    ensures
        r == occurs_in(needle@, hay@),
{
    if needle.len() > hay.len() {
        return false;
    }
    let mut i: usize = 0;
    while i <= hay.len() - needle.len()
        invariant
            needle.len() <= hay.len(),
            i <= hay.len() - needle.len() + 1,
            forall|k: int|
                0 <= k < i ==> #[trigger] hay@.subrange(k, k + needle.len()) != needle@,
        decreases hay.len() - i,
    {
        let mut j: usize = 0;
        let mut same = true;
        while j < needle.len()
            invariant
                i + needle.len() <= hay.len(),
                j <= needle.len(),
                same == (forall|t: int| 0 <= t < j ==> hay@[i + t] == needle@[t]),
            decreases needle.len() - j,
        {
            if hay[i + j] != needle[j] {
                same = false;
            }
            j += 1;
        }
        if same {
            assert(hay@.subrange(i as int, i + needle.len()) =~= needle@);
            return true;
        }
        assert(hay@.subrange(i as int, i + needle.len()) != needle@) by {
            let t = choose|t: int| 0 <= t < needle.len() && hay@[i + t] != needle@[t];
            assert(hay@.subrange(i as int, i + needle.len())[t] == hay@[i + t]);
        }
        i += 1;
    }
    assert forall|k: int| 0 <= k && k + needle.len() <= hay.len() implies #[trigger] hay@.subrange(
        k,
        k + needle.len(),
    ) != needle@ by {
        assert(k < i);
    }
    false
}

/// Unicode lower-casing of a whole string, as `str::to_lowercase` performs it.
pub uninterp spec fn lowercase(s: Seq<char>) -> Seq<char>;

/// A character's ASCII lower case: `A` to `Z` become `a` to `z`, every
/// other character stays.
pub open spec fn ascii_lower(c: char) -> char {
    if 65 <= c as u32 <= 90 {
        ((c as u32) + 32) as char
    } else {
        c
    }
}

/// Every character of `s` is ASCII.
pub open spec fn is_ascii_text(s: Seq<char>) -> bool {
    forall|i: int| 0 <= i < s.len() ==> (#[trigger] s[i]) as u32 <= 127
}

/// `str::to_lowercase`: the contract claims that the result is a function of
/// the input's characters alone, and names it; and that an ASCII string
/// lower-cases character by character, as the Unicode lower-case mapping
/// takes `A` to `Z` to `a` to `z` and leaves every other ASCII character as
/// it is.
#[verifier::external_body]
pub(crate) fn to_lowercase(s: &str) -> (r: String)
    ensures
        r@ == lowercase(s@),
        is_ascii_text(s@) ==> r@ == s@.map_values(|c: char| ascii_lower(c)),
{
    s.to_lowercase()
}

/// Wrapping loses and adds nothing: the lines of `s` put back together give
/// `s`, there is at least one line, and with a nonzero width every line but
/// the last is exactly `w` characters long and the last is no longer.
pub proof fn law_wrap_text_pieces(s: Seq<char>, w: nat)
    ensures
        chunks(s, w).len() >= 1,
        chunks(s, w).flatten() == s,
        w > 0 ==> forall|i: int| 0 <= i < chunks(s, w).len() - 1 ==> (#[trigger] chunks(s, w)[i]).len() == w,
        w > 0 ==> chunks(s, w).last().len() <= w,
        s.len() > 0 ==> chunks(s, w).last().len() > 0,
    decreases s.len(),
{
    if s.len() <= w || w == 0 {
        seq![s].lemma_flatten_one_element();
    } else {
        let rest = s.skip(w as int);
        law_wrap_text_pieces(rest, w);
        let c = chunks(s, w);
        assert(c == seq![s.take(w as int)] + chunks(rest, w));
        assert(c.drop_first() =~= chunks(rest, w));
        assert(c.first() == s.take(w as int));
        assert(s.take(w as int) + rest =~= s);
        assert forall|i: int| 0 <= i < c.len() - 1 implies (#[trigger] c[i]).len() == w by {
            if i > 0 {
                assert(c[i] == chunks(rest, w)[i - 1]);
            }
        }
        assert(c.last() == chunks(rest, w).last());
    }
}

/// Shortening keeps at most `max_width` characters: `s` itself when it fits,
/// else exactly `max_width` characters that begin as `s` does.
pub proof fn law_truncate_fits(s: Seq<char>, max_width: nat)
    ensures
        truncated(s, max_width).len() == if s.len() <= max_width {
            s.len()
        } else {
            max_width
        },
        s.len() <= max_width ==> truncated(s, max_width) == s,
        s.len() > max_width && max_width > 3 ==> truncated(s, max_width).take(max_width - 3) == s.take(
            max_width - 3,
        ),
        s.len() > max_width && max_width <= 3 ==> truncated(s, max_width) == s.take(max_width as int),
{
    if s.len() > max_width && max_width > 3 {
        assert(truncated(s, max_width).take(max_width - 3) =~= s.take(max_width - 3));
    }
}

proof fn lemma_digit_char(d: int)
    requires
        0 <= d < 10,
    ensures
        '0' <= digit_char(d) <= '9',
        digit_char(d) as int - '0' as int == d,
{
}

/// The decimal text of a number is all digits, starts with a digit and has
/// the number's value.
pub proof fn lemma_decimal_digits(n: nat)
    ensures
        decimal(n).len() > 0,
        all_digits(decimal(n)),
        digits_value(decimal(n)) == n,
    decreases n,
{
    if n < 10 {
        lemma_digit_char(n as int);
        let d = decimal(n);
        assert(d.drop_last() =~= Seq::<char>::empty());
        assert(digits_value(d.drop_last()) == 0);
        assert(d.last() == digit_char(n as int));
    } else {
        lemma_decimal_digits(n / 10);
        lemma_digit_char((n % 10) as int);
        let d = decimal(n);
        assert(d.drop_last() =~= decimal(n / 10));
        assert(d.last() == digit_char((n % 10) as int));
        assert(forall|i: int| 0 <= i < d.len() - 1 ==> d[i] == decimal(n / 10)[i]);
        assert(digits_value(d) == digits_value(d.drop_last()) * 10 + (d.last() as int - '0' as int));
        assert((n / 10) * 10 + n % 10 == n);
    }
}

/// A number written in decimal reads back as itself.
pub proof fn law_decimal_parses_back(n: u64)
    ensures
        parse_u64_spec(decimal(n as nat)) == Some(n),
{
    lemma_decimal_digits(n as nat);
    let d = decimal(n as nat);
    assert('0' <= d[0] <= '9');
}

/// A `bool` written as `Display` writes it reads back as itself.
pub proof fn law_bool_parses_back(b: bool)
    ensures
        parse_bool_spec(if b { "true"@ } else { "false"@ }) == Some(b),
{
    reveal_strlit("true");
    reveal_strlit("false");
    assert("true"@ =~= seq!['t', 'r', 'u', 'e']);
    assert("false"@ =~= seq!['f', 'a', 'l', 's', 'e']);
}

/// `w` is a nonempty run of characters that are not white space.
pub open spec fn is_word(w: Seq<char>) -> bool {
    w.len() > 0 && forall|k: int| 0 <= k < w.len() ==> !is_white_space(#[trigger] w[k])
}

proof fn lemma_words_are_words(s: Seq<char>, cur: Seq<char>)
    requires
        forall|k: int| 0 <= k < cur.len() ==> !is_white_space(#[trigger] cur[k]),
    ensures
        forall|j: int| 0 <= j < words_from(s, cur).len() ==> is_word(#[trigger] words_from(s, cur)[j]),
    decreases s.len(),
{
    if s.len() > 0 {
        if is_white_space(s[0]) {
            lemma_words_are_words(s.drop_first(), Seq::empty());
            let head = if cur.len() > 0 {
                seq![cur]
            } else {
                Seq::<Seq<char>>::empty()
            };
            let tail = words_from(s.drop_first(), Seq::empty());
            assert(words_from(s, cur) == head + tail);
            assert forall|j: int| 0 <= j < (head + tail).len() implies is_word(#[trigger] (head + tail)[j]) by {
                if j >= head.len() {
                    assert((head + tail)[j] == tail[j - head.len()]);
                }
            }
        } else {
            let c2 = cur.push(s[0]);
            assert forall|k: int| 0 <= k < c2.len() implies !is_white_space(#[trigger] c2[k]) by {
                if k < cur.len() {
                    assert(c2[k] == cur[k]);
                }
            }
            lemma_words_are_words(s.drop_first(), c2);
            assert(words_from(s, cur) == words_from(s.drop_first(), c2));
        }
    } else if cur.len() > 0 {
        assert(words_from(s, cur) == seq![cur]);
        assert(is_word(seq![cur][0]));
    }
}

proof fn lemma_words_split(a: Seq<char>, b: Seq<char>, cur: Seq<char>)
    requires
        b.len() > 0,
        is_white_space(b[0]),
    ensures
        words_from(a + b, cur) == words_from(a, cur) + words_from(b, Seq::empty()),
    decreases a.len(),
{
    if a.len() == 0 {
        assert(a + b =~= b);
        let rest = words_from(b.drop_first(), Seq::<char>::empty());
        assert(words_from(b, Seq::empty()) == Seq::<Seq<char>>::empty() + rest);
        assert(Seq::<Seq<char>>::empty() + rest =~= rest);
    } else {
        assert((a + b).drop_first() =~= a.drop_first() + b);
        assert((a + b)[0] == a[0]);
        if is_white_space(a[0]) {
            lemma_words_split(a.drop_first(), b, Seq::empty());
            let head = if cur.len() > 0 {
                seq![cur]
            } else {
                Seq::<Seq<char>>::empty()
            };
            assert(head + (words_from(a.drop_first(), Seq::empty()) + words_from(b, Seq::empty()))
                =~= (head + words_from(a.drop_first(), Seq::empty())) + words_from(b, Seq::empty()));
        } else {
            lemma_words_split(a.drop_first(), b, cur.push(a[0]));
        }
    }
}

proof fn lemma_words_of_word(w: Seq<char>, cur: Seq<char>)
    requires
        is_word(w),
    ensures
        words_from(w, cur) == seq![cur + w],
    decreases w.len(),
{
    assert(w[0] == w[0]);
    assert(!is_white_space(w[0]));
    assert(words_from(w, cur) == words_from(w.drop_first(), cur.push(w[0])));
    if w.len() == 1 {
        assert(w.drop_first() =~= Seq::<char>::empty());
        assert(cur.push(w[0]) =~= cur + w);
        assert(words_from(Seq::<char>::empty(), cur.push(w[0])) == seq![cur.push(w[0])]);
    } else {
        let r = w.drop_first();
        assert forall|k: int| 0 <= k < r.len() implies !is_white_space(#[trigger] r[k]) by {
            assert(r[k] == w[k + 1]);
        }
        lemma_words_of_word(r, cur.push(w[0]));
        assert(cur.push(w[0]) + r =~= cur + w);
    }
}

proof fn lemma_words_of_join(ws: Seq<Seq<char>>)
    requires
        forall|j: int| 0 <= j < ws.len() ==> is_word(#[trigger] ws[j]),
    ensures
        words(join(ws, seq![' '])) == ws,
    decreases ws.len(),
{
    if ws.len() == 0 {
        assert(words(Seq::<char>::empty()) =~= Seq::<Seq<char>>::empty());
    } else if ws.len() == 1 {
        assert(is_word(ws[0]));
        lemma_words_of_word(ws[0], Seq::empty());
        assert(Seq::<char>::empty() + ws[0] =~= ws[0]);
        assert(seq![ws[0]] =~= ws);
    } else {
        let d = ws.drop_last();
        let w = ws.last();
        assert forall|j: int| 0 <= j < d.len() implies is_word(#[trigger] d[j]) by {
            assert(d[j] == ws[j]);
        }
        lemma_words_of_join(d);
        assert(is_word(ws[ws.len() - 1]));
        let b = seq![' '] + w;
        assert(join(ws, seq![' ']) =~= join(d, seq![' ']) + b);
        assert(is_white_space(b[0]));
        lemma_words_split(join(d, seq![' ']), b, Seq::empty());
        assert(b.drop_first() =~= w);
        lemma_words_of_word(w, Seq::empty());
        assert(words_from(b, Seq::empty()) == Seq::<Seq<char>>::empty() + words_from(w, Seq::empty()));
        assert(Seq::<char>::empty() + w =~= w);
        assert(d + seq![w] =~= ws);
    }
}

/// Collapsing white space twice gives what collapsing it once gave: the
/// result is already its words joined by single spaces.
pub proof fn law_collapse_white_space_idempotent(text: Seq<char>)
    ensures
        words(collapse_white_space(text)) == words(text),
        collapse_white_space(collapse_white_space(text)) == collapse_white_space(text),
{
    lemma_words_are_words(text, Seq::empty());
    lemma_words_of_join(words(text));
}

} // verus!
