//! Text rendering for the notification center: each renderer returns the
//! lines to print, in order.

use vstd::prelude::*;
use vstd::utf8::{decode_utf8, encode_utf8, is_char_boundary};

use crate::clock::{split_nanos, format_uuid, is_hour_minute_text, local_hour_minute, representable_nanos, local_seconds_of_day, now_nanos, uuid_hex_text};
use crate::filter::{dnd_active_at, manually_active_at, quiet_at, DndState};
use crate::input::{InputMode, UiState};
use crate::notification::{
    count_unread, group_by_app, group_members, is_grouping_of, of_app, undismissed, undismissed_in, unread_in, urgency_text,
    Notification, NotificationGroup, Urgency,
};
use crate::text::{decimal, decimal_text};

verus! {

broadcast use vstd::seq::group_seq_axioms;

/// The text of a list of lines.
pub open spec fn lines_view(v: Seq<String>) -> Seq<Seq<char>> {
    v.map_values(|s: String| s@)
}

/// The last character boundary of `bytes` at or below `k` (0 at the latest).
pub open spec fn boundary_at_or_below(bytes: Seq<u8>, k: int) -> int
    decreases k,
{
    if k <= 0 {
        0
    } else if is_char_boundary(bytes, k) {
        k
    } else {
        boundary_at_or_below(bytes, k - 1)
    }
}

/// The last boundary at or below `k` is a boundary, between 0 and `k`.
proof fn lemma_boundary_at_or_below(bytes: Seq<u8>, k: int)
    requires
        vstd::utf8::valid_utf8(bytes),
        k >= 0,
    ensures
        0 <= boundary_at_or_below(bytes, k) <= k,
        is_char_boundary(bytes, boundary_at_or_below(bytes, k)),
    decreases k,
{
    if k > 0 && !is_char_boundary(bytes, k) {
        lemma_boundary_at_or_below(bytes, k - 1);
    }
}

/// Where `truncate` cuts a text that is too long: three bytes before the
/// limit, leaving room for `...`; for a limit below 3, at the last
/// character boundary at or below the limit.
pub open spec fn cut_point(s: Seq<char>, max: usize) -> int {
    if max >= 3 { max - 3 } else { boundary_at_or_below(encode_utf8(s), max as int) }
}

/// Whether `truncate` can cut the text without splitting a character: it
/// fits, the limit is below 3 (the cut then moves back to a boundary), or
/// the byte three before the limit is a character boundary.
pub open spec fn truncatable(s: Seq<char>, max: usize) -> bool {
    encode_utf8(s).len() <= max || max < 3 || is_char_boundary(encode_utf8(s), max - 3)
}

/// What `truncate(s, max)` returns: `s` itself if its UTF-8 encoding fits
/// in `max` bytes, else the characters before the cut point followed by
/// `...`; for a limit below 3, where `...` cannot fit, the whole characters
/// within the first `max` bytes alone.
pub open spec fn truncate_text(s: Seq<char>, max: usize) -> Seq<char> {
    if encode_utf8(s).len() <= max {
        s
    } else if max < 3 {
        decode_utf8(encode_utf8(s).subrange(0, cut_point(s, max)))
    } else {
        decode_utf8(encode_utf8(s).subrange(0, cut_point(s, max))) + "..."@
    }
}

/// Truncate a string to max length in bytes, appending "..." if needed.
pub fn truncate(s: &str, max: usize) -> (r: String)
    requires
        truncatable(s@, max),
    ensures
        r@ == truncate_text(s@, max),
{
    let n = s.as_bytes().len();
    if n <= max {
        s.to_owned()
    } else if max < 3 {
        let ghost bytes = encode_utf8(s@);
        proof {
            vstd::utf8::encode_utf8_valid_utf8(s@);
        }
        let mut k: usize = max;
        while k > 0 && !s.is_char_boundary(k)
            invariant
                k <= max,
                max < 3,
                bytes == encode_utf8(s@),
                vstd::utf8::valid_utf8(bytes),
                boundary_at_or_below(bytes, max as int) == boundary_at_or_below(bytes, k as int),
            decreases k,
        {
            k = k - 1;
        }
        proof {
            lemma_boundary_at_or_below(bytes, k as int);
            assert(boundary_at_or_below(bytes, k as int) == k);
        }
        let (head, _tail) = s.split_at(k);
        proof {
            vstd::utf8::encode_utf8_decode_utf8(head@);
        }
        head.to_owned()
    } else {
        let (head, _tail) = s.split_at(max - 3);
        let r = head.to_owned().concat("...");
        proof {
            vstd::utf8::encode_utf8_decode_utf8(head@);
        }
        r
    }
}

/// Whether `truncate(s, max)` can cut `s` without splitting a character.
pub fn can_truncate(s: &str, max: usize) -> (r: bool)
    ensures
        r == truncatable(s@, max),
{
    let n = s.as_bytes().len();
    if n <= max || max < 3 {
        true
    } else {
        s.is_char_boundary(max - 3)
    }
}

/// Whether every title of the notifications can be truncated to 40 bytes.
pub fn titles_can_truncate(ns: &[Notification]) -> (r: bool)
    ensures
        r == titles_truncatable(ns@),
{
    let mut i: usize = 0;
    while i < ns.len()
        invariant
            i <= ns.len(),
            forall|k: int| 0 <= k < i ==> truncatable(#[trigger] ns@[k].title@, 40),
        decreases ns.len() - i,
    {
        if !can_truncate(ns[i].title.as_str(), 40) {
            return false;
        }
        i = i + 1;
    }
    true
}

/// `s` padded with spaces to at least `width` characters.
pub open spec fn padded(s: Seq<char>, width: nat) -> Seq<char> {
    if s.len() >= width { s } else { s + Seq::new((width - s.len()) as nat, |i: int| ' ') }
}

/// Pads a string with spaces to at least `width` characters, as the `{:<width}` format does.
fn pad_right(s: String, width: usize) -> (r: String)
    ensures
        r@ == padded(s@, width as nat),
{
    let n = s.unicode_len();
    let mut r = s;
    let mut k: usize = n;
    while k < width
        invariant
            n == s@.len(),
            n <= k || k == n,
            k >= n,
            k <= width || k == n,
            r@ == s@ + Seq::new((k - n) as nat, |i: int| ' '),
        decreases width - k,
    {
        r = r.concat(" ");
        proof {
            reveal_strlit(" ");
            assert(r@ =~= s@ + Seq::new((k + 1 - n) as nat, |i: int| ' '));
        }
        k = k + 1;
    }
    proof {
        if n >= width {
            assert(r@ =~= s@);
        } else {
            assert(k == width);
        }
    }
    r
}

/// `count` copies of a character.
pub open spec fn repeated(c: char, count: nat) -> Seq<char> {
    Seq::new(count, |i: int| c)
}

/// A string of `count` dashes.
fn dashes(count: usize) -> (r: String)
    ensures
        r@ == repeated('-', count as nat),
{
    let mut r = String::new();
    let mut k: usize = 0;
    while k < count
        invariant
            k <= count,
            r@ == repeated('-', k as nat),
        decreases count - k,
    {
        r = r.concat("-");
        proof {
            reveal_strlit("-");
            assert(r@ =~= repeated('-', (k + 1) as nat));
        }
        k = k + 1;
    }
    r
}

/// The first newline lies within the text.
pub proof fn lemma_first_newline_bounds(s: Seq<char>)
    ensures
        0 <= first_newline(s) <= s.len(),
        first_newline(s) < s.len() ==> s[first_newline(s)] == '\n',
        forall|k: int| 0 <= k < first_newline(s) ==> s[k] != '\n',
    decreases s.len(),
{
    if s.len() > 0 && s[0] != '\n' {
        lemma_first_newline_bounds(s.drop_first());
        assert forall|k: int| 0 <= k < first_newline(s) implies s[k] != '\n' by {
            if k > 0 {
                assert(s[k] == s.drop_first()[k - 1]);
            }
        }
    }
}

/// The lines of a text, as `str::lines` splits it: at each `\n`, without a
/// final empty line; a line ended by `\r\n` loses its `\r`, and a last
/// line without `\n` keeps any `\r`.
pub open spec fn text_lines(s: Seq<char>) -> Seq<Seq<char>>
    decreases s.len(),
{
    if s.len() == 0 {
        seq![]
    } else {
        let i = first_newline(s);
        proof {
            lemma_first_newline_bounds(s);
        }
        if i < s.len() {
            seq![strip_cr(s.take(i))] + text_lines(s.skip(i + 1))
        } else {
            seq![s]
        }
    }
}

/// The index of the first `\n` of `s`, or its length.
pub open spec fn first_newline(s: Seq<char>) -> int
    decreases s.len(),
{
    if s.len() == 0 {
        0
    } else if s[0] == '\n' {
        0
    } else {
        1 + first_newline(s.drop_first())
    }
}

/// `s` without one trailing carriage return.
pub open spec fn strip_cr(s: Seq<char>) -> Seq<char> {
    if s.len() > 0 && s.last() == '\r' { s.drop_last() } else { s }
}

/// The index of the first newline at or after `from`, or the length.
fn next_newline(c: &Vec<char>, from: usize) -> (j: usize)
    requires
        from <= c.len(),
    ensures
        from <= j <= c.len(),
        j - from == first_newline(c@.skip(from as int)),
{
    let mut j = from;
    while j < c.len() && c[j] != '\n'
        invariant
            from <= j <= c.len(),
            forall|k: int| from <= k < j ==> c@[k] != '\n',
        decreases c.len() - j,
    {
        j = j + 1;
    }
    proof {
        let t = c@.skip(from as int);
        lemma_first_newline_bounds(t);
        let f = first_newline(t);
        if f < j - from {
            assert(t[f] == c@[from + f]);
        }
        if f > j - from {
            assert(t[j - from] == c@[j as int]);
        }
    }
    j
}

/// Splits a text into lines as `str::lines` does.
pub fn split_lines(s: &str) -> (r: Vec<String>)
    ensures
        lines_view(r@) == text_lines(s@),
{
    let c = crate::text::chars_of(s);
    let mut r: Vec<String> = Vec::new();
    let mut pos: usize = 0;
    assert(s@.skip(0) =~= s@);
    while pos < c.len()
        invariant
            c@ == s@,
            pos <= c.len(),
            lines_view(r@) + text_lines(s@.skip(pos as int)) == text_lines(s@),
        decreases c.len() - pos,
    {
        let j = next_newline(&c, pos);
        let ghost t = s@.skip(pos as int);
        let mut end = j;
        if j < c.len() && end > pos && c[end - 1] == '\r' {
            end = end - 1;
        }
        let line = s.substring_char(pos, end).to_owned();
        proof {
            assert(t.take(j - pos) =~= s@.subrange(pos as int, j as int));
            assert(j < c.len() ==> line@ == strip_cr(t.take(j - pos))) by {
                if j < c.len() && j > pos && c@[j - 1] == '\r' {
                    assert(s@.subrange(pos as int, end as int) =~= t.take(j - pos).drop_last());
                } else {
                    assert(s@.subrange(pos as int, end as int) =~= t.take(j - pos));
                }
            }
        }
        let ghost before = r@;
        r.push(line);
        proof {
            assert(lines_view(r@) =~= lines_view(before) + seq![line@]);
        }
        if j < c.len() {
            proof {
                assert(t.skip(j - pos + 1) =~= s@.skip(j + 1));
                assert(text_lines(t) == seq![line@] + text_lines(s@.skip(j + 1)));
                assert(lines_view(r@) + text_lines(s@.skip(j + 1)) =~= lines_view(before) + text_lines(t));
            }
            pos = j + 1;
        } else {
            proof {
                assert(t.take(j - pos) =~= t);
                assert(line@ =~= t);
                assert(text_lines(t) == seq![line@]);
                assert(s@.skip(j as int) =~= Seq::<char>::empty());
                assert(text_lines(s@.skip(j as int)) == Seq::<Seq<char>>::empty());
                assert(lines_view(r@) + text_lines(s@.skip(j as int)) =~= lines_view(before) + text_lines(t));
            }
            pos = j;
        }
    }
    proof {
        assert(s@.skip(pos as int) =~= Seq::<char>::empty());
        assert(lines_view(r@) + Seq::<Seq<char>>::empty() =~= lines_view(r@));
    }
    r
}

/// Appends a line.
fn push_line(v: &mut Vec<String>, line: String)
    ensures
        lines_view(final(v)@) == lines_view(old(v)@).push(line@),
{
    v.push(line);
    proof {
        assert(lines_view(v@) =~= lines_view(old(v)@).push(line@));
    }
}

/// The cursor mark of a line.
pub open spec fn cursor_text(selected: bool) -> Seq<char> {
    if selected { ">"@ } else { " "@ }
}

/// The first line of a notification: cursor, unread mark, urgency mark,
/// title (truncated and padded to 40), time and dismissal mark.
pub open spec fn summary_line(n: Notification, selected: bool, time: Seq<char>) -> Seq<char> {
    "  "@ + cursor_text(selected)
        + (if n.read { " "@ } else { "*"@ })
        + (if n.urgency == Urgency::Critical { "!"@ } else { " "@ })
        + " "@ + padded(truncate_text(n.title@, 40), 40) + " "@ + time
        + (if n.dismissed { " [dismissed]"@ } else { ""@ })
}

/// Indents a line of a notification's body.
pub open spec fn indent_body(l: Seq<char>) -> Seq<char> {
    "      "@ + l
}

/// The lines shown under an expanded notification.
pub open spec fn detail_lines(n: Notification) -> Seq<Seq<char>> {
    seq!["      App: "@ + n.app_name@, "      Urgency: "@ + urgency_text(n.urgency), "      ID: "@ + uuid_hex_text(n.id)]
        + (if n.body@.len() > 0 { text_lines(n.body@).map_values(|l: Seq<char>| indent_body(l)) } else { seq![] })
        + seq![""@]
}

/// The lines of one notification.
pub open spec fn notification_lines(n: Notification, selected: bool, expanded: bool, time: Seq<char>) -> Seq<Seq<char>> {
    seq![summary_line(n, selected, time)] + if expanded { detail_lines(n) } else { seq![] }
}

/// Whether every title can be truncated to 40 bytes.
pub open spec fn titles_truncatable(ns: Seq<Notification>) -> bool {
    forall|i: int| 0 <= i < ns.len() ==> truncatable(#[trigger] ns[i].title@, 40)
}

/// The lines of one notification, with its time of day given.
pub fn notification_lines_at(n: &Notification, selected: bool, expanded: bool, time: &str) -> (r: Vec<String>)
    requires
        truncatable(n.title@, 40),
    ensures
        lines_view(r@) == notification_lines(*n, selected, expanded, time@),
{
    let cursor = if selected { String::from_str(">") } else { String::from_str(" ") };
    let read = if n.read { String::from_str(" ") } else { String::from_str("*") };
    let urgent = match n.urgency {
        Urgency::Critical => String::from_str("!"),
        _ => String::from_str(" "),
    };
    let dismissed = if n.dismissed { String::from_str(" [dismissed]") } else { String::from_str("") };
    let title = pad_right(truncate(n.title.as_str(), 40), 40);
    let line = String::from_str("  ").concat(cursor.as_str()).concat(read.as_str()).concat(urgent.as_str())
        .concat(" ").concat(title.as_str()).concat(" ").concat(time).concat(dismissed.as_str());
    let mut r: Vec<String> = Vec::new();
    push_line(&mut r, line);
    assert(lines_view(r@) =~= seq![summary_line(*n, selected, time@)]);
    if expanded {
        let ghost first = lines_view(r@);
        push_line(&mut r, String::from_str("      App: ").concat(n.app_name.as_str()));
        push_line(&mut r, String::from_str("      Urgency: ").concat(n.urgency.to_string().as_str()));
        push_line(&mut r, String::from_str("      ID: ").concat(format_uuid(n.id).as_str()));
        let ghost head = lines_view(r@);
        assert(head =~= first + seq!["      App: "@ + n.app_name@, "      Urgency: "@ + urgency_text(n.urgency), "      ID: "@ + uuid_hex_text(n.id)]);
        if n.body.unicode_len() > 0 {
            let body = split_lines(n.body.as_str());
            let mut k: usize = 0;
            while k < body.len()
                invariant
                    k <= body.len(),
                    lines_view(body@) == text_lines(n.body@),
                    lines_view(r@) == head + text_lines(n.body@).take(k as int).map_values(|l: Seq<char>| indent_body(l)),
                decreases body.len() - k,
            {
                let ghost before = lines_view(r@);
                push_line(&mut r, String::from_str("      ").concat(body[k].as_str()));
                proof {
                    assert(text_lines(n.body@)[k as int] == body@[k as int]@);
                    assert(text_lines(n.body@).take(k + 1).map_values(|l: Seq<char>| indent_body(l))
                        =~= text_lines(n.body@).take(k as int).map_values(|l: Seq<char>| indent_body(l)).push(indent_body(body@[k as int]@)));
                }
                k = k + 1;
            }
            assert(text_lines(n.body@).take(body.len() as int) =~= text_lines(n.body@));
        }
        let ghost mid = lines_view(r@);
        assert(mid == head + (if n.body@.len() > 0 { text_lines(n.body@).map_values(|l: Seq<char>| indent_body(l)) } else { seq![] })) by {
            if n.body@.len() == 0 {
                assert(mid =~= head + Seq::<Seq<char>>::empty());
            }
        }
        push_line(&mut r, String::new());
        proof {
            reveal_strlit("");
            let x = if n.body@.len() > 0 { text_lines(n.body@).map_values(|l: Seq<char>| indent_body(l)) } else { seq![] };
            let three = seq!["      App: "@ + n.app_name@, "      Urgency: "@ + urgency_text(n.urgency), "      ID: "@ + uuid_hex_text(n.id)];
            assert(""@ =~= Seq::<char>::empty());
            assert(lines_view(r@) == mid.push(""@));
            assert(detail_lines(*n) == three + x + seq![""@]);
            assert(mid.push(""@) =~= first + (three + x + seq![""@]));
            assert(lines_view(r@) =~= seq![summary_line(*n, selected, time@)] + detail_lines(*n));
        }
    }
    r
}

/// The text shown for the time of a notification: `HH:MM` in local time,
/// empty where the instant cannot be represented.
fn time_text(ts: i128) -> (r: String)
    ensures
        r@.len() == 0 || is_hour_minute_text(r@),
        representable_nanos(ts) ==> is_hour_minute_text(r@),
{
    match split_nanos(ts) {
        Some((secs, nanos)) => match local_hour_minute(secs, nanos) {
            Some(t) => t,
            None => String::new(),
        },
        None => String::new(),
    }
}

/// The lines of consecutive notifications, the first at position `start`
/// of the view; the one at position `selected` is marked, and expanded if
/// `expanded`. `times` holds their times of day.
pub open spec fn run_lines(ns: Seq<Notification>, start: int, selected: usize, expanded: bool, times: Seq<Seq<char>>) -> Seq<Seq<char>>
    decreases ns.len(),
{
    if ns.len() == 0 {
        seq![]
    } else {
        notification_lines(ns[0], start == selected, start == selected && expanded, times[0])
            + run_lines(ns.drop_first(), start + 1, selected, expanded, times.drop_first())
    }
}

/// Whether a line carries the selection cursor: `>` as its third character.
pub open spec fn marks_cursor(l: Seq<char>) -> bool {
    l.len() >= 3 && l[2] == '>'
}

/// How many lines carry the selection cursor.
pub open spec fn cursor_lines(ls: Seq<Seq<char>>) -> nat {
    ls.filter(|l: Seq<char>| marks_cursor(l)).len()
}

proof fn lemma_cursor_concat(a: Seq<Seq<char>>, b: Seq<Seq<char>>)
    ensures
        cursor_lines(a + b) == cursor_lines(a) + cursor_lines(b),
{
    Seq::filter_distributes_over_add(a, b, |l: Seq<char>| marks_cursor(l));
}

proof fn lemma_no_cursor(ls: Seq<Seq<char>>)
    requires
        forall|i: int| 0 <= i < ls.len() ==> !marks_cursor(#[trigger] ls[i]),
    ensures
        cursor_lines(ls) == 0,
{
    broadcast use vstd::seq_lib::group_filter_ensures;
    let f = ls.filter(|l: Seq<char>| marks_cursor(l));
    if f.len() > 0 {
        assert(marks_cursor(f[0]));
        assert(f.contains(f[0]));
        ls.lemma_filter_contains_rev(|l: Seq<char>| marks_cursor(l), f[0]);
        let k = choose|k: int| 0 <= k < ls.len() && ls[k] == f[0];
        assert(!marks_cursor(ls[k]));
    }
}

proof fn lemma_one_line_cursor(l: Seq<char>)
    ensures
        cursor_lines(seq![l]) == if marks_cursor(l) { 1nat } else { 0nat },
{
    broadcast use vstd::seq_lib::group_filter_ensures;
    let e = Seq::<Seq<char>>::empty();
    assert(e.filter(|x: Seq<char>| marks_cursor(x)).len() <= e.len());
    e.lemma_filter_push(l, |x: Seq<char>| marks_cursor(x));
    assert(e.push(l) =~= seq![l]);
}

/// A notification's lines: its summary line carries the cursor exactly when
/// it is selected, and its details follow only when it is expanded.
proof fn lemma_notification_layout(n: Notification, selected: bool, expanded: bool, time: Seq<char>)
    ensures
        cursor_lines(notification_lines(n, selected, expanded, time)) == if selected { 1nat } else { 0nat },
        notification_lines(n, selected, expanded, time).len() == 1 + if expanded { detail_lines(n).len() } else { 0 },
{
    reveal_strlit("  ");
    reveal_strlit(">");
    reveal_strlit(" ");
    reveal_strlit("");
    reveal_strlit("      ");
    reveal_strlit("      App: ");
    reveal_strlit("      Urgency: ");
    reveal_strlit("      ID: ");
    let line = summary_line(n, selected, time);
    let head = "  "@ + cursor_text(selected);
    assert(head.len() == 3 && head[2] == if selected { '>' } else { ' ' });
    assert(line[2] == head[2]);
    lemma_one_line_cursor(line);
    let d = detail_lines(n);
    let body: Seq<Seq<char>> = if n.body@.len() > 0 { text_lines(n.body@).map_values(|l: Seq<char>| indent_body(l)) } else { seq![] };
    assert(d == seq!["      App: "@ + n.app_name@, "      Urgency: "@ + urgency_text(n.urgency), "      ID: "@ + uuid_hex_text(n.id)] + body + seq![""@]);
    assert forall|i: int| 0 <= i < d.len() implies !marks_cursor(#[trigger] d[i]) by {
        if i >= 3 && i < 3 + body.len() {
            assert(d[i] == body[i - 3]);
            assert(body[i - 3] == indent_body(text_lines(n.body@)[i - 3]));
        }
    }
    lemma_no_cursor(d);
    if expanded {
        lemma_cursor_concat(seq![line], d);
    } else {
        assert(notification_lines(n, selected, expanded, time) =~= seq![line]);
    }
}

/// The first six characters of a notification's first line: two spaces, the
/// cursor `>` exactly when it is selected, `*` exactly when it is unread, `!`
/// exactly when its urgency is critical (a space for low and normal), then
/// a space before the title.
pub proof fn law_summary_line_marks(n: Notification, selected: bool, expanded: bool, time: Seq<char>)
    ensures
        notification_lines(n, selected, expanded, time).len() >= 1,
        notification_lines(n, selected, expanded, time)[0].len() >= 6,
        notification_lines(n, selected, expanded, time)[0][0] == ' ',
        notification_lines(n, selected, expanded, time)[0][1] == ' ',
        notification_lines(n, selected, expanded, time)[0][2] == if selected { '>' } else { ' ' },
        notification_lines(n, selected, expanded, time)[0][3] == if n.read { ' ' } else { '*' },
        notification_lines(n, selected, expanded, time)[0][4] == if n.urgency == Urgency::Critical { '!' } else { ' ' },
        notification_lines(n, selected, expanded, time)[0][5] == ' ',
{
    reveal_strlit("  ");
    reveal_strlit(">");
    reveal_strlit(" ");
    reveal_strlit("*");
    reveal_strlit("!");
    let line = summary_line(n, selected, time);
    let head = "  "@ + cursor_text(selected) + (if n.read { " "@ } else { "*"@ })
        + (if n.urgency == Urgency::Critical { "!"@ } else { " "@ }) + " "@;
    assert(head.len() == 6);
    assert(head[2] == if selected { '>' } else { ' ' });
    assert(head[3] == if n.read { ' ' } else { '*' });
    assert(head[4] == if n.urgency == Urgency::Critical { '!' } else { ' ' });
    assert(line == head + padded(truncate_text(n.title@, 40), 40) + " "@ + time
        + (if n.dismissed { " [dismissed]"@ } else { ""@ }));
    assert(notification_lines(n, selected, expanded, time)[0] == line);
    assert(line[0] == head[0] && line[1] == head[1] && line[2] == head[2]);
    assert(line[3] == head[3] && line[4] == head[4] && line[5] == head[5]);
}

/// Whether a time text fits a timestamp: empty or `HH:MM`, and `HH:MM`
/// for every instant chrono can represent.
pub open spec fn time_fits(ts: i128, t: Seq<char>) -> bool {
    &&& t.len() == 0 || is_hour_minute_text(t)
    &&& representable_nanos(ts) ==> is_hour_minute_text(t)
}

/// Whether the times fit the notifications, one for each.
pub open spec fn times_fit(ns: Seq<Notification>, times: Seq<Seq<char>>) -> bool {
    &&& times.len() == ns.len()
    &&& forall|i: int| 0 <= i < ns.len() ==> time_fits(#[trigger] ns[i].timestamp, times[i])
}

/// Times that fit two runs of notifications fit the two together.
proof fn lemma_times_fit_concat(a: Seq<Notification>, ta: Seq<Seq<char>>, b: Seq<Notification>, tb: Seq<Seq<char>>)
    requires
        times_fit(a, ta),
        times_fit(b, tb),
    ensures
        times_fit(a + b, ta + tb),
{
    assert forall|i: int| 0 <= i < (a + b).len() implies time_fits(#[trigger] (a + b)[i].timestamp, (ta + tb)[i]) by {
        if i < a.len() {
            assert((a + b)[i] == a[i]);
            assert((ta + tb)[i] == ta[i]);
        } else {
            assert((a + b)[i] == b[i - a.len()]);
            assert((ta + tb)[i] == tb[i - a.len()]);
        }
    }
}

/// Appends the lines of consecutive notifications, reading their times from the clock.
#[verifier::spinoff_prover]
fn push_run(out: &mut Vec<String>, ns: &Vec<Notification>, start: u128, selected: usize, expanded: bool) -> (times: Ghost<Seq<Seq<char>>>)
    requires
        titles_truncatable(ns@),
        start + ns.len() <= u128::MAX,
    ensures
        times_fit(ns@, times@),
        lines_view(final(out)@) == lines_view(old(out)@) + run_lines(ns@, start as int, selected, expanded, times@),
{
    let ghost all_times: Seq<Seq<char>> = Seq::empty();
    let ghost base = lines_view(out@);
    let mut i: usize = 0;
    assert forall|t: Seq<Seq<char>>| #![trigger run_lines(ns@.skip(0), start + 0, selected, expanded, t)] t.len() == ns@.len() - 0 implies
        base + run_lines(ns@, start as int, selected, expanded, all_times + t)
        == lines_view(out@) + run_lines(ns@.skip(0), start + 0, selected, expanded, t) by {
        assert(all_times + t =~= t);
        assert(ns@.skip(0) =~= ns@);
    }
    while i < ns.len()
        invariant
            i <= ns.len(),
            start + ns.len() <= u128::MAX,
            titles_truncatable(ns@),
            all_times.len() == i,
            forall|j: int| 0 <= j < i ==> time_fits(#[trigger] ns@[j].timestamp, all_times[j]),
            forall|t: Seq<Seq<char>>| #![trigger run_lines(ns@.skip(i as int), start + i, selected, expanded, t)] t.len() == ns@.len() - i ==>
                base + run_lines(ns@, start as int, selected, expanded, all_times + t)
                == lines_view(out@) + run_lines(ns@.skip(i as int), start + i, selected, expanded, t),
        decreases ns.len() - i,
    {
        let idx = start + i as u128;
        let t = time_text(ns[i].timestamp);
        let is_sel = idx == selected as u128;
        let lines = notification_lines_at(&ns[i], is_sel, is_sel && expanded, t.as_str());
        let ghost before = lines_view(out@);
        let mut k: usize = 0;
        while k < lines.len()
            invariant
                k <= lines.len(),
                lines_view(out@) == before + lines_view(lines@).take(k as int),
            decreases lines.len() - k,
        {
            let ghost b2 = lines_view(out@);
            push_line(out, lines[k].clone());
            proof {
                assert(lines_view(lines@).take(k + 1) =~= lines_view(lines@).take(k as int).push(lines@[k as int]@));
                assert(lines_view(out@) =~= before + lines_view(lines@).take(k + 1));
            }
            k = k + 1;
        }
        proof {
            assert(lines_view(lines@).take(lines.len() as int) =~= lines_view(lines@));
            let ghost old_times = all_times;
            assert forall|u: Seq<Seq<char>>| #![trigger run_lines(ns@.skip(i + 1), start + i + 1, selected, expanded, u)] u.len() == ns@.len() - (i + 1) implies
                base + run_lines(ns@, start as int, selected, expanded, old_times.push(t@) + u)
                == lines_view(out@) + run_lines(ns@.skip(i + 1), start + i + 1, selected, expanded, u) by {
                let full = seq![t@] + u;
                assert(old_times.push(t@) + u =~= old_times + full);
                assert(full.len() == ns@.len() - i);
                assert(run_lines(ns@.skip(i as int), start + i, selected, expanded, full)
                    == notification_lines(ns@[i as int], idx == selected, idx == selected && expanded, t@)
                        + run_lines(ns@.skip(i + 1), start + i + 1, selected, expanded, u)) by {
                    assert(ns@.skip(i as int).drop_first() =~= ns@.skip(i + 1));
                    assert(full.drop_first() =~= u);
                }
            }
            all_times = old_times.push(t@);
        }
        i = i + 1;
    }
    proof {
        assert(ns@.skip(ns.len() as int) =~= Seq::<Notification>::empty());
        let e: Seq<Seq<char>> = Seq::empty();
        assert(all_times + e =~= all_times);
        assert(run_lines(ns@.skip(i as int), start + i, selected, expanded, e) == Seq::<Seq<char>>::empty());
        assert(lines_view(out@) + Seq::<Seq<char>>::empty() =~= lines_view(out@));
    }
    Ghost(all_times)
}

/// The heading of a group: a blank line, the application with its count
/// (and unread count, if any), and a rule.
pub open spec fn group_heading(g: NotificationGroup) -> Seq<Seq<char>> {
    let unread = unread_in(g.notifications@);
    seq![
        ""@,
        "  "@ + g.app_name@ + " ("@ + decimal_text(g.notifications@.len()) + ")"@
            + (if unread > 0 { "  ["@ + decimal_text(unread) + " unread]"@ } else { ""@ }),
        "  "@ + repeated('-', 50),
    ]
}

/// The lines of consecutive groups, their first notification at position
/// `start` of the view.
pub open spec fn groups_run(gs: Seq<NotificationGroup>, start: int, selected: usize, expanded: bool, times: Seq<Seq<char>>) -> Seq<Seq<char>>
    decreases gs.len(),
{
    if gs.len() == 0 {
        seq![]
    } else {
        let n = gs[0].notifications@.len();
        group_heading(gs[0]) + run_lines(gs[0].notifications@, start, selected, expanded, times.take(n as int))
            + groups_run(gs.drop_first(), start + n, selected, expanded, times.skip(n as int))
    }
}

/// The lines of `render_groups`: the groups, or a note that there are none.
pub open spec fn groups_lines(gs: Seq<NotificationGroup>, selected: usize, expanded: bool, times: Seq<Seq<char>>) -> Seq<Seq<char>> {
    if gs.len() == 0 {
        seq!["  No notifications."@]
    } else {
        groups_run(gs, 0, selected, expanded, times)
    }
}

/// Consecutive notifications: the one at the selected position, if among
/// them, carries the cursor and alone may be expanded.
proof fn lemma_run_layout(ns: Seq<Notification>, start: int, selected: usize, expanded: bool, times: Seq<Seq<char>>)
    ensures
        cursor_lines(run_lines(ns, start, selected, expanded, times))
            == if start <= selected < start + ns.len() { 1nat } else { 0nat },
        run_lines(ns, start, selected, expanded, times).len() == ns.len()
            + if expanded && start <= selected < start + ns.len() { detail_lines(ns[selected - start]).len() } else { 0 },
    decreases ns.len(),
{
    if ns.len() > 0 {
        let first = notification_lines(ns[0], start == selected, start == selected && expanded, times[0]);
        let rest = run_lines(ns.drop_first(), start + 1, selected, expanded, times.drop_first());
        lemma_notification_layout(ns[0], start == selected, start == selected && expanded, times[0]);
        lemma_run_layout(ns.drop_first(), start + 1, selected, expanded, times.drop_first());
        lemma_cursor_concat(first, rest);
        if start + 1 <= selected < start + ns.len() {
            assert(ns.drop_first()[selected - (start + 1)] == ns[selected - start]);
        }
    }
}

/// A group's heading has three lines, none with the cursor, unless the
/// application's name begins with `>`.
proof fn lemma_heading_layout(g: NotificationGroup)
    requires
        g.app_name@.len() == 0 || g.app_name@[0] != '>',
    ensures
        cursor_lines(group_heading(g)) == 0,
        group_heading(g).len() == 3,
{
    reveal_strlit("");
    reveal_strlit("  ");
    reveal_strlit(" (");
    let h = group_heading(g);
    assert forall|i: int| 0 <= i < h.len() implies !marks_cursor(#[trigger] h[i]) by {
        if i == 1 {
            if g.app_name@.len() > 0 {
                assert(h[1][2] == g.app_name@[0]);
            } else {
                assert(h[1][2] == ' ');
            }
        } else if i == 2 {
            assert(h[2][2] == '-');
        }
    }
    lemma_no_cursor(h);
}

/// The members of groups are those of the first group, then the others'.
proof fn lemma_group_members_front(gs: Seq<NotificationGroup>)
    requires
        gs.len() > 0,
    ensures
        group_members(gs) == gs[0].notifications@ + group_members(gs.drop_first()),
    decreases gs.len(),
{
    if gs.len() == 1 {
        assert(gs.drop_last() =~= Seq::<NotificationGroup>::empty());
        assert(gs.drop_first() =~= Seq::<NotificationGroup>::empty());
        assert(group_members(gs.drop_last()) == Seq::<Notification>::empty());
        assert(gs.last() == gs[0]);
        assert(group_members(gs) =~= gs[0].notifications@);
        assert(gs[0].notifications@ + Seq::<Notification>::empty() =~= gs[0].notifications@);
    } else {
        lemma_group_members_front(gs.drop_last());
        assert(gs.drop_last().drop_first() =~= gs.drop_first().drop_last());
        assert(gs.drop_first().last() == gs.last());
        assert(gs.drop_last()[0] == gs[0]);
        assert(group_members(gs) =~= gs[0].notifications@ + group_members(gs.drop_first()));
    }
}

/// Consecutive groups: headings, then notifications; the one at the
/// selected position across the groups carries the cursor and alone may be
/// expanded.
proof fn lemma_groups_layout(gs: Seq<NotificationGroup>, start: int, selected: usize, expanded: bool, times: Seq<Seq<char>>)
    requires
        forall|i: int| 0 <= i < gs.len() ==> (#[trigger] gs[i]).app_name@.len() == 0 || gs[i].app_name@[0] != '>',
    ensures
        cursor_lines(groups_run(gs, start, selected, expanded, times))
            == if start <= selected < start + group_members(gs).len() { 1nat } else { 0nat },
        groups_run(gs, start, selected, expanded, times).len() == 3 * gs.len() + group_members(gs).len()
            + if expanded && start <= selected < start + group_members(gs).len() {
                detail_lines(group_members(gs)[selected - start]).len()
            } else {
                0
            },
    decreases gs.len(),
{
    if gs.len() > 0 {
        let g = gs[0];
        let n = g.notifications@.len();
        let run = run_lines(g.notifications@, start, selected, expanded, times.take(n as int));
        let rest = groups_run(gs.drop_first(), start + n, selected, expanded, times.skip(n as int));
        assert(gs[0] == g);
        lemma_heading_layout(g);
        lemma_run_layout(g.notifications@, start, selected, expanded, times.take(n as int));
        lemma_groups_layout(gs.drop_first(), start + n, selected, expanded, times.skip(n as int));
        lemma_group_members_front(gs);
        lemma_cursor_concat(group_heading(g), run);
        lemma_cursor_concat(group_heading(g) + run, rest);
        let m = group_members(gs);
        if start <= selected < start + n {
            assert(m[selected - start] == g.notifications@[selected - start]);
        } else if start + n <= selected < start + m.len() {
            assert(m[selected - start] == group_members(gs.drop_first())[selected - (start + n)]);
        }
    } else {
        lemma_no_cursor(Seq::<Seq<char>>::empty());
    }
}

/// The layout of grouped notifications, counted across the groups in their
/// order: each group has its three heading lines and each notification its
/// summary line; exactly one line carries the cursor, that of the
/// notification at the selected position, when that position is in range,
/// and none otherwise; and only that notification is expanded, when
/// expanding is on. With no groups, one line says so. (A heading whose
/// application name begins with `>` would itself look like a cursor; such
/// names are left out.)
pub proof fn law_groups_layout(gs: Seq<NotificationGroup>, selected: usize, expanded: bool, times: Seq<Seq<char>>)
    requires
        forall|i: int| 0 <= i < gs.len() ==> (#[trigger] gs[i]).app_name@.len() == 0 || gs[i].app_name@[0] != '>',
    ensures
        gs.len() == 0 ==> groups_lines(gs, selected, expanded, times) == seq!["  No notifications."@],
        cursor_lines(groups_lines(gs, selected, expanded, times))
            == if selected < group_members(gs).len() { 1nat } else { 0nat },
        gs.len() > 0 ==> groups_lines(gs, selected, expanded, times).len() == 3 * gs.len() + group_members(gs).len()
            + if expanded && selected < group_members(gs).len() {
                detail_lines(group_members(gs)[selected as int]).len()
            } else {
                0
            },
{
    if gs.len() == 0 {
        reveal_strlit("  No notifications.");
        assert(group_members(gs) =~= Seq::<Notification>::empty());
        let l = "  No notifications."@;
        assert(l[2] == 'N');
        lemma_one_line_cursor(l);
    } else {
        lemma_groups_layout(gs, 0, selected, expanded, times);
    }
}

/// Whether every title of every group can be truncated to 40 bytes.
pub open spec fn group_titles_truncatable(gs: Seq<NotificationGroup>) -> bool {
    forall|i: int| 0 <= i < gs.len() ==> titles_truncatable(#[trigger] gs[i].notifications@)
}

/// Appends a group's heading.
fn push_heading(out: &mut Vec<String>, g: &NotificationGroup)
    ensures
        lines_view(final(out)@) == lines_view(old(out)@) + group_heading(*g),
{
    let unread = g.unread_count();
    let count = g.count();
    let extra = if unread > 0 {
        String::from_str("  [").concat(decimal(unread as u64).as_str()).concat(" unread]")
    } else {
        String::from_str("")
    };
    let ghost base = lines_view(out@);
    push_line(out, String::new());
    push_line(out, String::from_str("  ").concat(g.app_name.as_str()).concat(" (").concat(decimal(count as u64).as_str()).concat(")").concat(extra.as_str()));
    push_line(out, String::from_str("  ").concat(dashes(50).as_str()));
    proof {
        reveal_strlit("");
        let h = group_heading(*g);
        assert(lines_view(out@)[base.len() as int] == h[0]);
        assert(lines_view(out@)[base.len() as int + 1] == h[1]);
        assert(lines_view(out@)[base.len() as int + 2] == h[2]);
        assert(lines_view(out@) =~= base + group_heading(*g));
    }
}

/// Render notification groups, numbering notifications across groups; the
/// times of day are read from the clock.
pub fn render_groups(groups: &[NotificationGroup], ui: &UiState) -> (r: Vec<String>)
    requires
        group_titles_truncatable(groups@),
    ensures
        exists|times: Seq<Seq<char>>| times_fit(group_members(groups@), times)
            && lines_view(r@) == groups_lines(groups@, ui.selected_index, ui.expanded, times),
{
    let mut out: Vec<String> = Vec::new();
    if groups.len() == 0 {
        push_line(&mut out, String::from_str("  No notifications."));
        assert(lines_view(out@) =~= groups_lines(groups@, ui.selected_index, ui.expanded, Seq::empty()));
        assert(times_fit(group_members(groups@), Seq::<Seq<char>>::empty()));
        return out;
    }
    let ghost gs = groups@;
    let sel = ui.selected_index;
    let exp = ui.expanded;
    let ghost acc: Seq<Seq<char>> = Seq::empty();
    let mut start: u128 = 0;
    let mut k: usize = 0;
    assert forall|t: Seq<Seq<char>>| #![trigger groups_run(gs.skip(0), 0, sel, exp, t)]
        groups_run(gs, 0, sel, exp, acc + t) == lines_view(out@) + groups_run(gs.skip(0), 0, sel, exp, t) by {
        assert(acc + t =~= t);
        assert(gs.skip(0) =~= gs);
        assert(lines_view(out@) + groups_run(gs.skip(0), 0, sel, exp, t) =~= groups_run(gs.skip(0), 0, sel, exp, t));
    }
    while k < groups.len()
        invariant
            gs == groups@,
            k <= gs.len(),
            group_titles_truncatable(gs),
            start as int <= k * 0x1_0000_0000_0000_0000,
            gs.len() <= usize::MAX,
            times_fit(group_members(gs.take(k as int)), acc),
            forall|t: Seq<Seq<char>>| #![trigger groups_run(gs.skip(k as int), start as int, sel, exp, t)]
                groups_run(gs, 0, sel, exp, acc + t) == lines_view(out@) + groups_run(gs.skip(k as int), start as int, sel, exp, t),
        decreases gs.len() - k,
    {
        let g = &groups[k];
        let n = g.notifications.len();
        proof {
            assert(k * 0x1_0000_0000_0000_0000 + n <= (k + 1) * 0x1_0000_0000_0000_0000) by (nonlinear_arith)
                requires n <= 0xffff_ffff_ffff_ffff;
            assert((k + 1) * 0x1_0000_0000_0000_0000 <= 0x1_0000_0000_0000_0000 * 0x1_0000_0000_0000_0000) by (nonlinear_arith)
                requires k + 1 <= 0x1_0000_0000_0000_0000;
            assert(titles_truncatable(gs[k as int].notifications@));
        }
        let ghost before = lines_view(out@);
        push_heading(&mut out, g);
        let Ghost(tk) = push_run(&mut out, &g.notifications, start, sel, exp);
        proof {
            let gk = gs[k as int];
            assert forall|u: Seq<Seq<char>>| #![trigger groups_run(gs.skip(k + 1), start + n, sel, exp, u)]
                groups_run(gs, 0, sel, exp, (acc + tk) + u) == lines_view(out@) + groups_run(gs.skip(k + 1), start + n, sel, exp, u) by {
                let t = tk + u;
                assert((acc + tk) + u =~= acc + t);
                assert(t.take(n as int) =~= tk);
                assert(t.skip(n as int) =~= u);
                assert(gs.skip(k as int).drop_first() =~= gs.skip(k + 1));
                assert(gs.skip(k as int)[0] == gk);
                assert(groups_run(gs.skip(k as int), start as int, sel, exp, t)
                    == group_heading(gk) + run_lines(gk.notifications@, start as int, sel, exp, tk) + groups_run(gs.skip(k + 1), start + n, sel, exp, u));
            }
            assert(gs.take(k + 1).drop_last() =~= gs.take(k as int));
            assert(gs.take(k + 1).last() == gk);
            lemma_times_fit_concat(group_members(gs.take(k as int)), acc, gk.notifications@, tk);
            acc = acc + tk;
        }
        start = start + n as u128;
        k = k + 1;
    }
    proof {
        let e: Seq<Seq<char>> = Seq::empty();
        assert(gs.skip(k as int) =~= Seq::<NotificationGroup>::empty());
        assert(acc + e =~= acc);
        assert(lines_view(out@) + groups_run(gs.skip(k as int), start as int, sel, exp, e) =~= lines_view(out@));
        assert(lines_view(out@) == groups_lines(groups@, sel, exp, acc));
        assert(gs.take(k as int) =~= gs);
    }
    out
}

/// The text of a DND state: `ON` or `OFF`.
pub open spec fn on_off(active: bool) -> Seq<char> {
    if active { "ON"@ } else { "OFF"@ }
}

/// The header of the notification center.
pub open spec fn header_lines(dnd_active: bool, unread: usize, total: usize) -> Seq<Seq<char>> {
    seq![
        ""@,
        "  Notifications  [DnD: "@ + on_off(dnd_active) + "]  ["@ + decimal_text(unread as nat) + " unread / "@
            + decimal_text(total as nat) + " total]"@,
        "  "@ + repeated('-', 54),
    ]
}

/// The header, with the DND state given.
pub fn header_lines_for(dnd_active: bool, unread: usize, total: usize) -> (r: Vec<String>)
    ensures
        lines_view(r@) == header_lines(dnd_active, unread, total),
{
    let status = if dnd_active { String::from_str("ON") } else { String::from_str("OFF") };
    let mut out: Vec<String> = Vec::new();
    push_line(&mut out, String::new());
    push_line(&mut out, String::from_str("  Notifications  [DnD: ").concat(status.as_str()).concat("]  [")
        .concat(decimal(unread as u64).as_str()).concat(" unread / ").concat(decimal(total as u64).as_str()).concat(" total]"));
    push_line(&mut out, String::from_str("  ").concat(dashes(54).as_str()));
    proof {
        reveal_strlit("");
        let h = header_lines(dnd_active, unread, total);
        assert(lines_view(out@)[0] == h[0]);
        assert(lines_view(out@)[1] == h[1]);
        assert(lines_view(out@)[2] == h[2]);
        assert(lines_view(out@) =~= h);
    }
    out
}

/// Render the notification center header; whether DND is active is read
/// from the clock.
pub fn render_header(dnd: &DndState, unread: usize, total: usize) -> (r: Vec<String>)
    ensures
        exists|now: i128, secs: u32| secs < 86400 && lines_view(r@) == header_lines(dnd_active_at(*dnd, now, secs), unread, total),
{
    let now = now_nanos();
    let secs = local_seconds_of_day();
    let r = header_lines_for(dnd.is_active_at(now, secs), unread, total);
    assert(secs < 86400 && lines_view(r@) == header_lines(dnd_active_at(*dnd, now, secs), unread, total));
    r
}

/// The lines of `render_notification_list`.
pub open spec fn list_lines(ns: Seq<Notification>, selected: usize, expanded: bool, times: Seq<Seq<char>>) -> Seq<Seq<char>> {
    if ns.len() == 0 {
        seq!["  No results."@]
    } else {
        run_lines(ns, 0, selected, expanded, times)
    }
}

/// Render a flat list of notifications (for search results); the times of
/// day are read from the clock.
pub fn render_notification_list(notifications: &Vec<Notification>, ui: &UiState) -> (r: Vec<String>)
    requires
        titles_truncatable(notifications@),
    ensures
        exists|times: Seq<Seq<char>>| times_fit(notifications@, times)
            && lines_view(r@) == list_lines(notifications@, ui.selected_index, ui.expanded, times),
{
    let mut out: Vec<String> = Vec::new();
    if notifications.len() == 0 {
        push_line(&mut out, String::from_str("  No results."));
        assert(lines_view(out@) =~= list_lines(notifications@, ui.selected_index, ui.expanded, Seq::empty()));
        assert(times_fit(notifications@, Seq::<Seq<char>>::empty()));
        return out;
    }
    let Ghost(times) = push_run(&mut out, notifications, 0, ui.selected_index, ui.expanded);
    assert(lines_view(out@) =~= list_lines(notifications@, ui.selected_index, ui.expanded, times));
    out
}

/// The mode indicator / input line.
pub open spec fn mode_lines(mode: InputMode, input: Seq<char>) -> Seq<Seq<char>> {
    seq![
        ""@,
        match mode {
            InputMode::Normal => "  [Normal] j/k:nav  d:dismiss  D:all  n:dnd  /:search  q:quit  ?:help"@,
            InputMode::History => "  [History] j/k:nav  d:delete  c:clear  /:search  u:urgency  Esc:back"@,
            InputMode::Search => "  [Search] /"@ + input,
            InputMode::Command => "  [Command] :"@ + input,
        },
    ]
}

/// Render the mode indicator / input line.
pub fn render_mode_line(ui: &UiState) -> (r: Vec<String>)
    ensures
        lines_view(r@) == mode_lines(ui.mode, ui.input_buffer@),
{
    let line = match ui.mode {
        InputMode::Normal => String::from_str("  [Normal] j/k:nav  d:dismiss  D:all  n:dnd  /:search  q:quit  ?:help"),
        InputMode::History => String::from_str("  [History] j/k:nav  d:delete  c:clear  /:search  u:urgency  Esc:back"),
        InputMode::Search => String::from_str("  [Search] /").concat(ui.input_buffer.as_str()),
        InputMode::Command => String::from_str("  [Command] :").concat(ui.input_buffer.as_str()),
    };
    let mut out: Vec<String> = Vec::new();
    push_line(&mut out, String::new());
    push_line(&mut out, line);
    proof {
        reveal_strlit("");
        let m = mode_lines(ui.mode, ui.input_buffer@);
        assert(lines_view(out@)[0] == m[0]);
        assert(lines_view(out@)[1] == m[1]);
        assert(lines_view(out@) =~= m);
    }
    out
}

/// The line of one group in the status summary.
pub open spec fn status_group_line(g: NotificationGroup) -> Seq<char> {
    "    "@ + g.app_name@ + ": "@ + decimal_text(g.notifications@.len()) + " ("@
        + decimal_text(unread_in(g.notifications@)) + " unread)"@
}

/// The status summary (for the CLI `status` command).
pub open spec fn status_lines(active_dnd: bool, manual: bool, quiet: bool, total: usize, unread: usize, active: usize, gs: Seq<NotificationGroup>) -> Seq<Seq<char>> {
    seq!["Shirase Notification Center"@, ""@, "  DnD:     "@ + on_off(active_dnd)]
        + (if manual { seq!["  DnD mode: manual"@] } else { seq![] })
        + (if quiet { seq!["  DnD mode: quiet hours"@] } else { seq![] })
        + seq![
            "  Total:   "@ + decimal_text(total as nat),
            "  Unread:  "@ + decimal_text(unread as nat),
            "  Active:  "@ + decimal_text(active as nat),
            ""@,
        ]
        + (if gs.len() > 0 { seq!["  Groups:"@] + gs.map_values(|g: NotificationGroup| status_group_line(g)) } else { seq![] })
}

/// The status summary, with the DND state's parts given.
pub fn status_lines_for(active_dnd: bool, manual: bool, quiet: bool, total: usize, unread: usize, active: usize, groups: &[NotificationGroup]) -> (r: Vec<String>)
    ensures
        lines_view(r@) == status_lines(active_dnd, manual, quiet, total, unread, active, groups@),
{
    let mut out: Vec<String> = Vec::new();
    let status = if active_dnd { String::from_str("ON") } else { String::from_str("OFF") };
    push_line(&mut out, String::from_str("Shirase Notification Center"));
    push_line(&mut out, String::new());
    push_line(&mut out, String::from_str("  DnD:     ").concat(status.as_str()));
    proof { reveal_strlit(""); }
    let ghost p1 = lines_view(out@);
    proof {
        let e = seq!["Shirase Notification Center"@, ""@, "  DnD:     "@ + on_off(active_dnd)];
        assert(p1[0] == e[0]);
        assert(p1[1] == e[1]);
        assert(p1[2] == e[2]);
    }
    assert(p1 =~= seq!["Shirase Notification Center"@, ""@, "  DnD:     "@ + on_off(active_dnd)]);
    if manual {
        push_line(&mut out, String::from_str("  DnD mode: manual"));
    }
    let ghost p2 = lines_view(out@);
    assert(p2 =~= p1 + (if manual { seq!["  DnD mode: manual"@] } else { seq![] }));
    if quiet {
        push_line(&mut out, String::from_str("  DnD mode: quiet hours"));
    }
    let ghost p3 = lines_view(out@);
    assert(p3 =~= p2 + (if quiet { seq!["  DnD mode: quiet hours"@] } else { seq![] }));
    push_line(&mut out, String::from_str("  Total:   ").concat(decimal(total as u64).as_str()));
    push_line(&mut out, String::from_str("  Unread:  ").concat(decimal(unread as u64).as_str()));
    push_line(&mut out, String::from_str("  Active:  ").concat(decimal(active as u64).as_str()));
    push_line(&mut out, String::new());
    let ghost p4 = lines_view(out@);
    assert(p4 =~= p3 + seq![
        "  Total:   "@ + decimal_text(total as nat),
        "  Unread:  "@ + decimal_text(unread as nat),
        "  Active:  "@ + decimal_text(active as nat),
        ""@,
    ]);
    if groups.len() > 0 {
        push_line(&mut out, String::from_str("  Groups:"));
        let mut k: usize = 0;
        while k < groups.len()
            invariant
                k <= groups.len(),
                lines_view(out@) == p4 + seq!["  Groups:"@] + groups@.take(k as int).map_values(|g: NotificationGroup| status_group_line(g)),
            decreases groups.len() - k,
        {
            let g = &groups[k];
            push_line(&mut out, String::from_str("    ").concat(g.app_name.as_str()).concat(": ")
                .concat(decimal(g.count() as u64).as_str()).concat(" (")
                .concat(decimal(g.unread_count() as u64).as_str()).concat(" unread)"));
            proof {
                assert(groups@.take(k + 1).map_values(|g: NotificationGroup| status_group_line(g))
                    =~= groups@.take(k as int).map_values(|g: NotificationGroup| status_group_line(g)).push(status_group_line(groups@[k as int])));
            }
            k = k + 1;
        }
        assert(groups@.take(groups.len() as int) =~= groups@);
    }
    proof {
        let tail = if groups@.len() > 0 { seq!["  Groups:"@] + groups@.map_values(|g: NotificationGroup| status_group_line(g)) } else { seq![] };
        assert(lines_view(out@) =~= p4 + tail);
        assert(lines_view(out@) =~= status_lines(active_dnd, manual, quiet, total, unread, active, groups@));
    }
    out
}

/// Render a status summary; the DND state is read as of now.
pub fn render_status(dnd: &DndState, total: usize, unread: usize, active: usize, groups: &[NotificationGroup]) -> (r: Vec<String>)
    ensures
        exists|now: i128, secs: u32| secs < 86400 && lines_view(r@) == status_lines(dnd_active_at(*dnd, now, secs), manually_active_at(*dnd, now), quiet_at(*dnd, secs), total, unread, active, groups@),
{
    let now = now_nanos();
    let secs = local_seconds_of_day();
    let r = status_lines_for(dnd.is_active_at(now, secs), dnd.is_manually_active_at(now), dnd.is_quiet_hours_at(secs), total, unread, active, groups);
    assert(lines_view(r@) == status_lines(dnd_active_at(*dnd, now, secs), manually_active_at(*dnd, now), quiet_at(*dnd, secs), total, unread, active, groups@));
    r
}

/// The text of two lists of lines one after the other.
proof fn lemma_lines_view_add(a: Seq<String>, b: Seq<String>)
    ensures
        lines_view(a + b) == lines_view(a) + lines_view(b),
{
    assert(lines_view(a + b) =~= lines_view(a) + lines_view(b));
}

/// Every title of a list whose members all come from `s` can be truncated
/// when every title of `s` can.
proof fn lemma_titles_of_members(s: Seq<Notification>, t: Seq<Notification>)
    requires
        titles_truncatable(s),
        forall|x: Notification| #[trigger] t.contains(x) ==> s.contains(x),
    ensures
        titles_truncatable(t),
{
    assert forall|i: int| 0 <= i < t.len() implies truncatable(#[trigger] t[i].title@, 40) by {
        assert(t.contains(t[i]));
        let j = choose|j: int| 0 <= j < s.len() && s[j] == t[i];
        assert(truncatable(s[j].title@, 40));
    }
}

/// The groups of a list hold only its members, so their titles can be
/// truncated when the list's can.
proof fn lemma_group_titles(s: Seq<Notification>, gs: Seq<NotificationGroup>)
    requires
        titles_truncatable(s),
        is_grouping_of(s, gs),
    ensures
        group_titles_truncatable(gs),
{
    broadcast use vstd::seq_lib::group_filter_ensures;
    broadcast use vstd::seq_lib::group_to_multiset_ensures;
    assert forall|i: int| 0 <= i < gs.len() implies titles_truncatable(#[trigger] gs[i].notifications@) by {
        let f = of_app(s, gs[i].app_name@);
        crate::order::lemma_newest_first_sorted_permutation(f);
        assert forall|x: Notification| #[trigger] gs[i].notifications@.contains(x) implies s.contains(x) by {
            assert(gs[i].notifications@.to_multiset().count(x) > 0);
            assert(f.contains(x));
            s.lemma_filter_contains_rev(|n: Notification| n.app_name@ == gs[i].app_name@, x);
        }
        lemma_titles_of_members(s, gs[i].notifications@);
    }
}

/// The full notification center view: the screen is cleared, then come the
/// header, the groups of the undismissed notifications and the mode line.
pub open spec fn center_lines(
    ns: Seq<Notification>,
    dnd_active: bool,
    gs: Seq<NotificationGroup>,
    ui: UiState,
    times: Seq<Seq<char>>,
) -> Seq<Seq<char>> {
    seq!["\x1b[2J\x1b[H"@] + header_lines(dnd_active, unread_in(ns) as usize, ns.len() as usize).drop_first()
        + groups_lines(gs, ui.selected_index, ui.expanded, times) + mode_lines(ui.mode, ui.input_buffer@)
}

/// Render the full notification center view; DND and the times of day are
/// read from the clock.
pub fn render_center(notifications: &[Notification], dnd: &DndState, ui: &UiState) -> (r: Vec<String>)
    requires
        titles_truncatable(undismissed_in(notifications@)),
    ensures
        exists|now: i128, secs: u32, gs: Seq<NotificationGroup>, times: Seq<Seq<char>>|
            secs < 86400 && is_grouping_of(undismissed_in(notifications@), gs) && times_fit(group_members(gs), times)
                && lines_view(r@) == center_lines(notifications@, dnd_active_at(*dnd, now, secs), gs, *ui, times),
{
    let unread = count_unread(notifications);
    let total = notifications.len();
    let now = now_nanos();
    let secs = local_seconds_of_day();
    let header = header_lines_for(dnd.is_active_at(now, secs), unread, total);
    let active = undismissed(notifications);
    let groups = group_by_app(active.as_slice());
    proof {
        lemma_group_titles(active@, groups@);
    }
    let mut body = render_groups(groups.as_slice(), ui);
    let mut mode = render_mode_line(ui);
    let mut header = header;
    assert(lines_view(header@).len() == 3);
    let _blank = header.remove(0);
    let mut out: Vec<String> = Vec::new();
    push_line(&mut out, String::from_str("\x1b[2J\x1b[H"));
    let ghost (h, b, m) = (header@, body@, mode@);
    let ghost o0 = out@;
    out.append(&mut header);
    let ghost o1 = out@;
    out.append(&mut body);
    let ghost o2 = out@;
    out.append(&mut mode);
    proof {
        lemma_lines_view_add(o0, h);
        lemma_lines_view_add(o1, b);
        lemma_lines_view_add(o2, m);
        let gs = groups@;
        let ex = choose|times: Seq<Seq<char>>| times_fit(group_members(gs), times)
            && lines_view(b) == groups_lines(gs, ui.selected_index, ui.expanded, times);
        assert(lines_view(h) =~= header_lines(dnd_active_at(*dnd, now, secs), unread, total).drop_first());
        assert(lines_view(out@) =~= center_lines(notifications@, dnd_active_at(*dnd, now, secs), gs, *ui, ex));
    }
    out
}

/// The UTF-8 encoding of two texts one after the other.
proof fn lemma_encode_concat(a: Seq<char>, b: Seq<char>)
    ensures
        encode_utf8(a + b) == encode_utf8(a) + encode_utf8(b),
    decreases a.len(),
{
    if a.len() == 0 {
        assert(a + b =~= b);
    } else {
        lemma_encode_concat(a.drop_first(), b);
        assert((a + b).drop_first() =~= a.drop_first() + b);
        assert((a + b)[0] == a[0]);
    }
}

/// A truncated text fits in its byte budget; a text that had to be cut
/// ends with `...` when the budget has room for it, and one that fits is
/// left as it is.
pub proof fn law_truncate_fits(s: Seq<char>, max: usize)
    requires
        truncatable(s, max),
    ensures
        encode_utf8(truncate_text(s, max)).len() <= max,
        encode_utf8(s).len() <= max ==> truncate_text(s, max) == s,
        encode_utf8(s).len() > max && max >= 3 ==> ({
            let t = truncate_text(s, max);
            t.len() >= 3 && t.subrange(t.len() - 3, t.len() as int) == "..."@
        }),
{
    broadcast use vstd::utf8::group_utf8_lib;
    let bytes = encode_utf8(s);
    if bytes.len() > max && max < 3 {
        lemma_boundary_at_or_below(bytes, max as int);
        let head_bytes = bytes.subrange(0, cut_point(s, max));
        assert(vstd::utf8::valid_utf8(bytes));
        assert(vstd::utf8::valid_utf8(head_bytes));
        assert(encode_utf8(decode_utf8(head_bytes)) == head_bytes);
    } else if bytes.len() > max {
        let cut = cut_point(s, max);
        let head_bytes = bytes.subrange(0, cut);
        assert(vstd::utf8::valid_utf8(bytes));
        assert(vstd::utf8::valid_utf8(head_bytes));
        let head = decode_utf8(head_bytes);
        assert(encode_utf8(head) == head_bytes);
        reveal_strlit("...");
        lemma_encode_concat(head, "..."@);
        let dots = "..."@;
        assert(dots.len() == 3);
        assert(encode_utf8(dots).len() == 3) by {
            reveal_with_fuel(encode_utf8, 4);
            assert(dots.drop_first().drop_first().drop_first() =~= Seq::<char>::empty());
        }
        let t = truncate_text(s, max);
        assert(t.subrange(t.len() - 3, t.len() as int) =~= dots);
    }
}

} // verus!
