//! Text helpers: decimal numbers, padding, table rows, lists, trimming and
//! splitting file content into lines.
use vstd::prelude::*;
use vstd::string::*;
use vstd::slice::slice_subrange;
use vstd::utf8::{decode_utf8, valid_utf8};

verus! {

/// The character of a decimal digit `d < 10`.
pub open spec fn digit_char(d: int) -> char {
    if d == 0 {
        '0'
    } else if d == 1 {
        '1'
    } else if d == 2 {
        '2'
    } else if d == 3 {
        '3'
    } else if d == 4 {
        '4'
    } else if d == 5 {
        '5'
    } else if d == 6 {
        '6'
    } else if d == 7 {
        '7'
    } else if d == 8 {
        '8'
    } else {
        '9'
    }
}

/// The decimal representation of `n`, without sign or leading zeros.
pub open spec fn decimal_text(n: nat) -> Seq<char>
    decreases n,
{
    if n < 10 {
        seq![digit_char(n as int)]
    } else {
        decimal_text(n / 10) + seq![digit_char((n % 10) as int)]
    }
}

fn digit_str(d: u64) -> (s: &'static str)
    requires
        d < 10,
    ensures
        s@ == seq![digit_char(d as int)],
{
    proof {
        reveal_strlit("0");
        reveal_strlit("1");
        reveal_strlit("2");
        reveal_strlit("3");
        reveal_strlit("4");
        reveal_strlit("5");
        reveal_strlit("6");
        reveal_strlit("7");
        reveal_strlit("8");
        reveal_strlit("9");
    }
    let s = if d == 0 {
        "0"
    } else if d == 1 {
        "1"
    } else if d == 2 {
        "2"
    } else if d == 3 {
        "3"
    } else if d == 4 {
        "4"
    } else if d == 5 {
        "5"
    } else if d == 6 {
        "6"
    } else if d == 7 {
        "7"
    } else if d == 8 {
        "8"
    } else {
        "9"
    };
    assert(s@ =~= seq![digit_char(d as int)]);
    s
}

/// Writes `n` in decimal.
pub fn decimal(n: u64) -> (r: String)
    ensures
        r@ == decimal_text(n as nat),
    decreases n,
{
    if n < 10 {
        String::from_str(digit_str(n))
    } else {
        let mut r = decimal(n / 10);
        r.append(digit_str(n % 10));
        r
    }
}

/// `s` followed by spaces up to a total of `width` characters.
pub open spec fn padded(s: Seq<char>, width: nat) -> Seq<char> {
    if s.len() < width {
        s + Seq::new((width - s.len()) as nat, |i: int| ' ')
    } else {
        s
    }
}

/// Pads `s` on the right with spaces to `width` characters.
pub fn pad_right(s: &str, width: usize) -> (r: String)
    ensures
        r@ == padded(s@, width as nat),
{
    proof {
        reveal_strlit(" ");
    }
    assert(" "@ =~= seq![' ']);
    let mut r = String::from_str(s);
    let n = s.unicode_len();
    let mut k: usize = n;
    while k < width
        invariant
            n == s@.len(),
            n <= k,
            k == n || k <= width,
            " "@ == seq![' '],
            r@ == s@ + Seq::new((k - n) as nat, |i: int| ' '),
        decreases width - k,
    {
        let ghost prev = r@;
        r.append(" ");
        k = k + 1;
        assert(r@ == prev + seq![' ']);
        assert(r@ =~= s@ + Seq::new((k - n) as nat, |i: int| ' '));
    }
    assert(r@ =~= padded(s@, width as nat));
    r
}

/// `::` starts at character `i` of `s`.
pub open spec fn separator_at(s: Seq<char>, i: int) -> bool {
    0 <= i && i + 1 < s.len() && s[i] == ':' && s[i + 1] == ':'
}

/// A table cell holding `c`.
pub open spec fn cell(c: Seq<char>) -> Seq<char> {
    "<td>"@ + c + "</td>"@
}

/// The cells of the segments of `s` from `start` on, where the current segment
/// began at `start` and the scan has reached `i`; segments are separated by
/// `::`, found left to right without overlap.
pub open spec fn cells_from(s: Seq<char>, start: int, i: int) -> Seq<char>
    recommends
        0 <= start <= i <= s.len(),
    decreases s.len() - i,
{
    if i >= s.len() {
        cell(s.subrange(start, s.len() as int))
    } else if separator_at(s, i) {
        cell(s.subrange(start, i)) + cells_from(s, i + 2, i + 2)
    } else {
        cells_from(s, start, i + 1)
    }
}

/// A table row with one cell for each `::`-separated segment of `msg`.
pub open spec fn table_row(msg: Seq<char>) -> Seq<char> {
    "<tr>"@ + cells_from(msg, 0, 0) + "</tr>"@
}

/// Renders `msg` as a table row, one cell for each `::`-separated segment.
pub fn html_row(msg: &str) -> (r: String)
    ensures
        r@ == table_row(msg@),
{
    proof {
        reveal_strlit(":");
    }
    let colon = ":".get_char(0);
    let n = msg.unicode_len();
    let mut acc = String::from_str("<tr>");
    let mut start: usize = 0;
    let mut i: usize = 0;
    while i < n
        invariant
            n == msg@.len(),
            colon == ':',
            start <= i <= n,
            acc@ + cells_from(msg@, start as int, i as int) == "<tr>"@ + cells_from(msg@, 0, 0),
        decreases n - i,
    {
        if i + 1 < n && msg.get_char(i) == colon && msg.get_char(i + 1) == colon {
            let ghost before = acc@;
            acc.append("<td>");
            acc.append(msg.substring_char(start, i));
            acc.append("</td>");
            assert(acc@ + cells_from(msg@, i + 2, i + 2) =~= before + cells_from(msg@, start as int, i as int));
            i = i + 2;
            start = i;
        } else {
            i = i + 1;
        }
    }
    let ghost before = acc@;
    acc.append("<td>");
    acc.append(msg.substring_char(start, n));
    acc.append("</td>");
    acc.append("</tr>");
    assert(acc@ =~= table_row(msg@));
    acc
}

/// The items joined by `, `.
pub open spec fn joined(items: Seq<Seq<char>>) -> Seq<char>
    decreases items.len(),
{
    if items.len() == 0 {
        Seq::empty()
    } else if items.len() == 1 {
        items[0]
    } else {
        joined(items.drop_last()) + ", "@ + items.last()
    }
}

/// The items in brackets, separated by `, `.
pub open spec fn bracketed(items: Seq<Seq<char>>) -> Seq<char> {
    "["@ + joined(items) + "]"@
}

/// Lists `items` in brackets, separated by `, `.
pub fn bracket_list(items: &Vec<String>) -> (r: String)
    ensures
        r@ == bracketed(items@.map_values(|x: String| x@)),
{
    let ghost views = items@.map_values(|x: String| x@);
    let mut acc = String::new();
    let mut k: usize = 0;
    while k < items.len()
        invariant
            k <= items@.len(),
            views == items@.map_values(|x: String| x@),
            acc@ == joined(views.take(k as int)),
        decreases items@.len() - k,
    {
        if k > 0 {
            acc.append(", ");
        }
        acc.append(items[k].as_str());
        assert(views.take(k + 1).drop_last() =~= views.take(k as int));
        k = k + 1;
    }
    assert(views.take(k as int) =~= views);
    let mut r = String::from_str("[");
    r.append(acc.as_str());
    r.append("]");
    r
}

/// A character of Unicode's `White_Space` property.
pub open spec fn is_white_space(c: char) -> bool {
    let u = c as u32;
    (9 <= u <= 13) || u == 32 || u == 0x85 || u == 0xa0 || u == 0x1680 || (0x2000 <= u <= 0x200a)
        || u == 0x2028 || u == 0x2029 || u == 0x202f || u == 0x205f || u == 0x3000
}

/// `s` without its leading white space.
pub open spec fn trim_start(s: Seq<char>) -> Seq<char>
    decreases s.len(),
{
    if s.len() > 0 && is_white_space(s[0]) {
        trim_start(s.drop_first())
    } else {
        s
    }
}

/// `s` without its trailing white space.
pub open spec fn trim_end(s: Seq<char>) -> Seq<char>
    decreases s.len(),
{
    if s.len() > 0 && is_white_space(s.last()) {
        trim_end(s.drop_last())
    } else {
        s
    }
}

/// `s` without leading and trailing white space.
pub open spec fn trimmed(s: Seq<char>) -> Seq<char> {
    trim_end(trim_start(s))
}

fn white_space(c: char) -> (r: bool)
    ensures
        r == is_white_space(c),
{
    let u = c as u32;
    (9 <= u && u <= 13) || u == 32 || u == 0x85 || u == 0xa0 || u == 0x1680 || (0x2000 <= u && u <= 0x200a)
        || u == 0x2028 || u == 0x2029 || u == 0x202f || u == 0x205f || u == 0x3000
}

proof fn lemma_trim_start_skip(s: Seq<char>, k: int)
    requires
        0 <= k <= s.len(),
        forall|i: int| 0 <= i < k ==> is_white_space(#[trigger] s[i]),
    ensures
        trim_start(s) == trim_start(s.subrange(k, s.len() as int)),
    decreases k,
{
    if k > 0 {
        lemma_trim_start_skip(s, k - 1);
        let t = s.subrange(k - 1, s.len() as int);
        assert(t[0] == s[k - 1]);
        assert(t.drop_first() =~= s.subrange(k, s.len() as int));
    } else {
        assert(s.subrange(0, s.len() as int) =~= s);
    }
}

proof fn lemma_trim_end_skip(s: Seq<char>, k: int)
    requires
        0 <= k <= s.len(),
        forall|i: int| k <= i < s.len() ==> is_white_space(#[trigger] s[i]),
    ensures
        trim_end(s) == trim_end(s.subrange(0, k)),
    decreases s.len() - k,
{
    if k < s.len() {
        lemma_trim_end_skip(s, k + 1);
        let t = s.subrange(0, k + 1);
        assert(t.last() == s[k]);
        assert(t.drop_last() =~= s.subrange(0, k));
    } else {
        assert(s.subrange(0, k) =~= s);
    }
}

/// Removes leading and trailing `White_Space` characters.
pub fn trim_text(s: &str) -> (r: String)
    ensures
        r@ == trimmed(s@),
{
    let n = s.unicode_len();
    let mut a: usize = 0;
    while a < n && white_space(s.get_char(a))
        invariant
            a <= n,
            n == s@.len(),
            forall|i: int| 0 <= i < a ==> is_white_space(#[trigger] s@[i]),
        decreases n - a,
    {
        a = a + 1;
    }
    let mut b: usize = n;
    while b > a && white_space(s.get_char(b - 1))
        invariant
            a <= b <= n,
            n == s@.len(),
            forall|i: int| b <= i < n ==> is_white_space(#[trigger] s@[i]),
        decreases b,
    {
        b = b - 1;
    }
    proof {
        lemma_trim_start_skip(s@, a as int);
        let t = s@.subrange(a as int, n as int);
        assert(trim_start(t) == t);
        assert forall|i: int| b - a <= i < t.len() implies is_white_space(#[trigger] t[i]) by {
            assert(t[i] == s@[a + i]);
        }
        lemma_trim_end_skip(t, b - a);
        assert(t.subrange(0, b - a) =~= s@.subrange(a as int, b as int));
        let u = s@.subrange(a as int, b as int);
        if u.len() > 0 {
            assert(u.last() == s@[b - 1]);
        }
        assert(trim_end(u) == u);
    }
    String::from_str(s.substring_char(a, b))
}

/// The `Debug` rendering of a string: quoted, with escapes.
pub uninterp spec fn debug_quoted(s: Seq<char>) -> Seq<char>;

/// Relies on the `Debug` impl of `str`, which writes the string quoted and escaped.
#[verifier::external_body]
pub(crate) fn debug_text(s: &str) -> (r: String)
    ensures
        r@ == debug_quoted(s@),
{
    format!("{:?}", s)
}

/// The text of `bytes` where they are valid UTF-8.
pub open spec fn decoded(bytes: Seq<u8>) -> Option<Seq<char>> {
    if valid_utf8(bytes) {
        Some(decode_utf8(bytes))
    } else {
        None
    }
}

/// Relies on `std::str::from_utf8`: succeeds exactly on valid UTF-8, and the
/// text then has those bytes as its encoding.
#[verifier::external_body]
pub(crate) fn utf8_text(bytes: &[u8]) -> (r: Option<String>)
    ensures
        r matches Some(s) ==> decoded(bytes@) == Some(s@),
        r is None ==> decoded(bytes@) is None,
{
    std::str::from_utf8(bytes).ok().map(|s| s.to_string())
}

/// `l` without one trailing carriage return.
pub open spec fn strip_cr(l: Seq<u8>) -> Seq<u8> {
    if l.len() > 0 && l.last() == 13u8 {
        l.drop_last()
    } else {
        l
    }
}

/// The lines of `d` after the line that began at `start`, scanned up to `i`:
/// lines end at a line feed, which is dropped together with a carriage return
/// before it; a last line without line feed counts when it is not empty.
pub open spec fn lines_from(d: Seq<u8>, start: int, i: int) -> Seq<Seq<u8>>
    recommends
        0 <= start <= i <= d.len(),
    decreases d.len() - i,
{
    if i >= d.len() {
        if start < d.len() {
            seq![d.subrange(start, d.len() as int)]
        } else {
            Seq::empty()
        }
    } else if d[i] == 10u8 {
        seq![strip_cr(d.subrange(start, i))] + lines_from(d, i + 1, i + 1)
    } else {
        lines_from(d, start, i + 1)
    }
}

/// The lines of a file's bytes.
pub open spec fn byte_lines(d: Seq<u8>) -> Seq<Seq<u8>> {
    lines_from(d, 0, 0)
}

/// The view of an optional string.
pub open spec fn opt_view(o: Option<String>) -> Option<Seq<char>> {
    match o {
        Some(s) => Some(s@),
        None => None,
    }
}

/// The lines of a file, each decoded, or `None` where it is not valid UTF-8.
pub open spec fn text_lines(d: Seq<u8>) -> Seq<Option<Seq<char>>> {
    byte_lines(d).map_values(|l: Seq<u8>| decoded(l))
}

fn line_text(data: &[u8], start: usize, end: usize) -> (r: Option<String>)
    requires
        start <= end <= data@.len(),
    ensures
        opt_view(r) == decoded(data@.subrange(start as int, end as int)),
{
    utf8_text(slice_subrange(data, start, end))
}

/// Splits file content into lines and decodes each one.
pub fn split_lines(data: &[u8]) -> (r: Vec<Option<String>>)
    ensures
        r@.map_values(|o: Option<String>| opt_view(o)) == text_lines(data@),
{
    let n = data.len();
    let mut r: Vec<Option<String>> = Vec::new();
    let ghost mut segs: Seq<Seq<u8>> = Seq::empty();
    let mut start: usize = 0;
    let mut i: usize = 0;
    while i < n
        invariant
            n == data@.len(),
            start <= i <= n,
            segs + lines_from(data@, start as int, i as int) == byte_lines(data@),
            r@.len() == segs.len(),
            r@.map_values(|o: Option<String>| opt_view(o)) == segs.map_values(|l: Seq<u8>| decoded(l)),
        decreases n - i,
    {
        if data[i] == 10u8 {
            let mut end: usize = i;
            if end > start && data[end - 1] == 13u8 {
                end = end - 1;
            }
            let ghost seg = strip_cr(data@.subrange(start as int, i as int));
            assert(data@.subrange(start as int, end as int) =~= seg);
            let line = line_text(data, start, end);
            let ghost old_r = r@;
            let ghost old_segs = segs;
            proof {
                assert(segs.push(seg) + lines_from(data@, i + 1, i + 1) =~= segs + lines_from(data@, start as int, i as int));
                segs = segs.push(seg);
            }
            r.push(line);
            assert forall|j: int| 0 <= j < r@.len() implies opt_view(#[trigger] r@[j]) == decoded(segs[j]) by {
                if j < old_r.len() {
                    assert(old_r.map_values(|o: Option<String>| opt_view(o))[j] == old_segs.map_values(|l: Seq<u8>| decoded(l))[j]);
                }
            }
            assert(r@.map_values(|o: Option<String>| opt_view(o)) =~= segs.map_values(|l: Seq<u8>| decoded(l)));
            i = i + 1;
            start = i;
        } else {
            i = i + 1;
        }
    }
    if start < n {
        let line = line_text(data, start, n);
        let ghost old_r = r@;
        let ghost old_segs = segs;
        proof {
            assert(segs.push(data@.subrange(start as int, n as int)) =~= byte_lines(data@));
            segs = segs.push(data@.subrange(start as int, n as int));
        }
        r.push(line);
        assert forall|j: int| 0 <= j < r@.len() implies opt_view(#[trigger] r@[j]) == decoded(segs[j]) by {
            if j < old_r.len() {
                assert(old_r.map_values(|o: Option<String>| opt_view(o))[j] == old_segs.map_values(|l: Seq<u8>| decoded(l))[j]);
            }
        }
        assert(r@.map_values(|o: Option<String>| opt_view(o)) =~= segs.map_values(|l: Seq<u8>| decoded(l)));
    } else {
        assert(segs =~= byte_lines(data@));
    }
    r
}

} // verus!
