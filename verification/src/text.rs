//! Text: the character classes, lines, numbers and string building that the
//! rest of the library is written with. A string is its sequence of
//! characters.

use crate::views::{opt_str, opt_view, views, views_empty, views_push};
use vstd::prelude::*;

verus! {

broadcast use {views_push, views_empty};

/// `str == str` compares the two texts.
pub assume_specification[ <str as PartialEq>::eq ](s: &str, other: &str) -> (res: bool)
    ensures
        res == (s@ == other@),
;

/// `String::push` appends the character.
pub assume_specification[ std::string::String::push ](s: &mut std::string::String, c: char)
    ensures
        final(s)@ == old(s)@.push(c),
;

/// Free text in log lines and the summary is cut to this many characters.
pub const MAX_TEXT: usize = 200;

/// Whether two texts are equal.
pub fn same(a: &str, b: &str) -> (r: bool)
    ensures
        r == (a@ == b@),
{
    *a == *b
}

/// A copy of an optional string.
pub fn copy_opt(o: &Option<String>) -> (r: Option<String>)
    ensures
        opt_view(r) == opt_view(*o),
{
    match o {
        Some(s) => Some(s.clone()),
        None => None,
    }
}

/// An optional string from a borrowed one.
pub fn own_opt(o: Option<&str>) -> (r: Option<String>)
    ensures
        opt_view(r) == opt_str(o),
{
    match o {
        Some(s) => Some(s.to_owned()),
        None => None,
    }
}

/// A copy of a list of strings.
pub fn copy_all(v: &Vec<String>) -> (r: Vec<String>)
    ensures
        views(r@) == views(v@),
{
    let mut r: Vec<String> = Vec::new();
    for i in 0..v.len()
        invariant
            views(r@) == views(v@).take(i as int),
    {
        r.push(v[i].clone());
        assert(views(v@).take(i + 1) =~= views(v@).take(i as int).push(v@[i as int]@));
    }
    assert(views(v@).take(v@.len() as int) =~= views(v@));
    r
}

/// Whether TEXT is one of LIST.
pub fn contains(list: &Vec<String>, text: &str) -> (r: bool)
    ensures
        r == views(list@).contains(text@),
{
    for i in 0..list.len()
        invariant
            forall|k: int| 0 <= k < i ==> (#[trigger] views(list@)[k]) != text@,
    {
        if same(list[i].as_str(), text) {
            assert(views(list@)[i as int] == text@);
            return true;
        }
    }
    false
}

// ---- Characters --------------------------------------------------------

/// The Unicode control characters (general category Cc).
pub open spec fn is_control_char(c: char) -> bool {
    (c as u32) < 0x20 || 0x7f <= (c as u32) <= 0x9f
}

/// The Unicode White_Space characters.
pub open spec fn is_space_char(c: char) -> bool {
    ||| 0x09 <= (c as u32) <= 0x0d
    ||| (c as u32) == 0x20
    ||| (c as u32) == 0x85
    ||| (c as u32) == 0xa0
    ||| (c as u32) == 0x1680
    ||| 0x2000 <= (c as u32) <= 0x200a
    ||| (c as u32) == 0x2028
    ||| (c as u32) == 0x2029
    ||| (c as u32) == 0x202f
    ||| (c as u32) == 0x205f
    ||| (c as u32) == 0x3000
}

/// `0` to `9`.
pub open spec fn is_digit_char(c: char) -> bool {
    '0' <= c && c <= '9'
}

/// `a` to `z` and `A` to `Z`.
pub open spec fn is_alpha_char(c: char) -> bool {
    ('a' <= c && c <= 'z') || ('A' <= c && c <= 'Z')
}

/// An ASCII letter, in lower case; any other character as it is.
pub open spec fn lower_char(c: char) -> char {
    if 'A' <= c && c <= 'Z' {
        ((c as u32 + 32) as u32) as char
    } else {
        c
    }
}

pub fn is_control(c: char) -> (r: bool)
    ensures
        r == is_control_char(c),
{
    let n: u32 = c as u32;
    n < 0x20 || (0x7f <= n && n <= 0x9f)
}

pub fn is_space(c: char) -> (r: bool)
    ensures
        r == is_space_char(c),
{
    let n: u32 = c as u32;
    (0x09 <= n && n <= 0x0d) || n == 0x20 || n == 0x85 || n == 0xa0 || n == 0x1680 || (0x2000 <= n
        && n <= 0x200a) || n == 0x2028 || n == 0x2029 || n == 0x202f || n == 0x205f || n == 0x3000
}

pub fn is_digit(c: char) -> (r: bool)
    ensures
        r == is_digit_char(c),
{
    '0' <= c && c <= '9'
}

pub fn is_alpha(c: char) -> (r: bool)
    ensures
        r == is_alpha_char(c),
{
    ('a' <= c && c <= 'z') || ('A' <= c && c <= 'Z')
}

// ---- Strings and characters --------------------------------------------

/// The characters of a string.
pub fn chars_of(s: &str) -> (v: Vec<char>)
    ensures
        v@ == s@,
{
    let mut v: Vec<char> = Vec::new();
    for c in it: s.chars()
        invariant
            v@ == it.seq().take(it.index() as int),
            it.seq() == s@,
    {
        v.push(c);
    }
    v
}

/// The string of the characters FROM up to TO.
pub fn string_of(v: &Vec<char>, from: usize, to: usize) -> (s: String)
    requires
        from <= to <= v@.len(),
    ensures
        s@ == v@.subrange(from as int, to as int),
{
    let mut s = String::new();
    let mut i: usize = from;
    while i < to
        invariant
            from <= i <= to <= v@.len(),
            s@ == v@.subrange(from as int, i as int),
        decreases to - i,
    {
        s.push(v[i]);
        i += 1;
    }
    s
}

/// TEXT starts with PREFIX.
pub open spec fn has_prefix(text: Seq<char>, prefix: Seq<char>) -> bool {
    prefix.len() <= text.len() && text.take(prefix.len() as int) == prefix
}

/// TEXT without PREFIX, where it starts with it.
pub open spec fn without_prefix(text: Seq<char>, prefix: Seq<char>) -> Option<Seq<char>> {
    if has_prefix(text, prefix) {
        Some(text.skip(prefix.len() as int))
    } else {
        None
    }
}

pub fn strip_prefix(text: &str, prefix: &str) -> (r: Option<String>)
    ensures
        opt_view(r) == without_prefix(text@, prefix@),
{
    let t = chars_of(text);
    let p = chars_of(prefix);
    if p.len() > t.len() {
        return None;
    }
    for i in 0..p.len()
        invariant
            p@.len() <= t@.len(),
            t@ == text@,
            p@ == prefix@,
            t@.take(i as int) == p@.take(i as int),
    {
        if t[i] != p[i] {
            assert(t@.take(p@.len() as int)[i as int] != p@[i as int]);
            return None;
        }
        assert(t@.take(i + 1) =~= t@.take(i as int).push(t@[i as int]));
        assert(p@.take(i + 1) =~= p@.take(i as int).push(p@[i as int]));
    }
    assert(p@.take(p@.len() as int) =~= p@);
    let r = string_of(&t, p.len(), t.len());
    assert(r@ =~= text@.skip(prefix@.len() as int));
    Some(r)
}

pub fn starts_with(text: &str, prefix: &str) -> (r: bool)
    ensures
        r == has_prefix(text@, prefix@),
{
    strip_prefix(text, prefix).is_some()
}

// ---- Cutting -----------------------------------------------------------

/// TEXT with a blank for every control character.
pub open spec fn one_line(text: Seq<char>) -> Seq<char> {
    Seq::new(
        text.len(),
        |i: int|
            if is_control_char(text[i]) {
                ' '
            } else {
                text[i]
            },
    )
}

/// TEXT on one line and in at most MAX_TEXT characters: a longer text ends
/// in an ellipsis.
pub open spec fn cut_text(text: Seq<char>) -> Seq<char> {
    if text.len() > MAX_TEXT {
        one_line(text).take(MAX_TEXT - 1).push('…')
    } else {
        one_line(text)
    }
}

/// On one line (so nothing an agent writes can start a line of the job
/// log, and so act as a workflow command) and cut to MAX_TEXT characters.
pub fn cut(s: &str) -> (r: String)
    ensures
        r@ == cut_text(s@),
{
    let v = chars_of(s);
    let long = v.len() > MAX_TEXT;
    let n: usize = if long {
        MAX_TEXT - 1
    } else {
        v.len()
    };
    let mut r = String::new();
    for i in 0..n
        invariant
            n <= v@.len(),
            v@ == s@,
            r@ == one_line(s@).take(i as int),
    {
        r.push(
            if is_control(v[i]) {
                ' '
            } else {
                v[i]
            },
        );
        assert(one_line(s@).take(i + 1) =~= one_line(s@).take(i as int).push(
            one_line(s@)[i as int],
        ));
    }
    if long {
        r.push('…');
    } else {
        assert(one_line(s@).take(n as int) =~= one_line(s@));
    }
    r
}

/// What `cut` gives is at most MAX_TEXT characters long, whatever it is
/// given.
pub proof fn law_cut_is_short(text: Seq<char>)
    ensures
        cut_text(text).len() <= MAX_TEXT,
{
}

/// What `cut` gives holds no control character: no line break above all.
pub proof fn law_cut_is_one_line(text: Seq<char>)
    ensures
        forall|i: int| 0 <= i < cut_text(text).len() ==> !is_control_char(#[trigger] cut_text(text)[i]),
{
}

/// Cutting a cut text changes nothing.
pub proof fn law_cut_is_idempotent(text: Seq<char>)
    ensures
        cut_text(cut_text(text)) == cut_text(text),
{
    assert(cut_text(cut_text(text)) =~= cut_text(text));
}

/// A text of at most MAX_TEXT characters without control characters is cut
/// to itself.
pub proof fn law_cut_keeps_short_lines(text: Seq<char>)
    requires
        text.len() <= MAX_TEXT,
        forall|i: int| 0 <= i < text.len() ==> !is_control_char(#[trigger] text[i]),
    ensures
        cut_text(text) == text,
{
    assert(cut_text(text) =~= text);
}

/// Only the first MAX_TEXT characters and one more decide what a text is
/// cut to.
pub proof fn law_cut_needs_one_more(text: Seq<char>, n: nat)
    requires
        n > MAX_TEXT,
    ensures
        n <= text.len() ==> cut_text(text.take(n as int)) == cut_text(text),
{
    if n <= text.len() {
        assert(one_line(text.take(n as int)).take(MAX_TEXT - 1) =~= one_line(text).take(
            MAX_TEXT - 1,
        ));
    }
}

// ---- Blanks and lines --------------------------------------------------

/// TEXT holds nothing but white space.
pub open spec fn is_blank(text: Seq<char>) -> bool {
    forall|i: int| 0 <= i < text.len() ==> is_space_char(#[trigger] text[i])
}

/// TEXT without its leading white space.
pub open spec fn trim_start(text: Seq<char>) -> Seq<char>
    decreases text.len(),
{
    if text.len() > 0 && is_space_char(text[0]) {
        trim_start(text.skip(1))
    } else {
        text
    }
}

/// TEXT without its trailing white space.
pub open spec fn trim_end(text: Seq<char>) -> Seq<char>
    decreases text.len(),
{
    if text.len() > 0 && is_space_char(text.last()) {
        trim_end(text.drop_last())
    } else {
        text
    }
}

/// TEXT without the white space around it.
pub open spec fn trimmed(text: Seq<char>) -> Seq<char> {
    trim_end(trim_start(text))
}

pub fn blank(s: &str) -> (r: bool)
    ensures
        r == is_blank(s@),
{
    let v = chars_of(s);
    for i in 0..v.len()
        invariant
            v@ == s@,
            forall|k: int| 0 <= k < i ==> is_space_char(#[trigger] s@[k]),
    {
        if !is_space(v[i]) {
            assert(!is_space_char(s@[i as int]));
            return false;
        }
    }
    true
}

pub fn trim(s: &str) -> (r: String)
    ensures
        r@ == trimmed(s@),
{
    let v = chars_of(s);
    let mut a: usize = 0;
    assert(v@.skip(0) =~= v@);
    while a < v.len() && is_space(v[a])
        invariant
            a <= v@.len(),
            trim_start(v@) == trim_start(v@.skip(a as int)),
        decreases v@.len() - a,
    {
        assert(v@.skip(a as int).skip(1) =~= v@.skip(a + 1));
        a += 1;
    }
    let ghost t = v@.skip(a as int);
    assert(trim_start(v@) == t);
    let mut b: usize = v.len();
    assert(v@.subrange(a as int, b as int) =~= t);
    while b > a && is_space(v[b - 1])
        invariant
            a <= b <= v@.len(),
            trim_end(t) == trim_end(v@.subrange(a as int, b as int)),
        decreases b,
    {
        assert(v@.subrange(a as int, b as int).drop_last() =~= v@.subrange(a as int, b - 1));
        b -= 1;
    }
    string_of(&v, a, b)
}

/// Where the first line break of TEXT is, or its length.
pub open spec fn line_end(text: Seq<char>) -> nat
    decreases text.len(),
{
    if text.len() == 0 || text[0] == '\n' {
        0
    } else {
        1 + line_end(text.skip(1))
    }
}

pub proof fn lemma_line_end(text: Seq<char>)
    ensures
        line_end(text) <= text.len(),
        line_end(text) < text.len() ==> text[line_end(text) as int] == '\n',
        forall|i: int| 0 <= i < line_end(text) ==> text[i] != '\n',
    decreases text.len(),
{
    if text.len() > 0 && text[0] != '\n' {
        lemma_line_end(text.skip(1));
        assert forall|i: int| 0 <= i < line_end(text) implies text[i] != '\n' by {
            if i > 0 {
                assert(text.skip(1)[i - 1] == text[i]);
            }
        }
    }
}

/// A text without line breaks up to END, where it ends or has one.
pub proof fn lemma_line_end_is(text: Seq<char>, end: nat)
    requires
        end <= text.len(),
        end < text.len() ==> text[end as int] == '\n',
        forall|i: int| 0 <= i < end ==> text[i] != '\n',
    ensures
        line_end(text) == end,
{
    lemma_line_end(text);
    if line_end(text) < end {
        assert(text[line_end(text) as int] != '\n');
    }
    if end < line_end(text) {
        assert(text[end as int] != '\n');
    }
}

/// The lines of TEXT, ended by a line feed that may follow a carriage
/// return; the last one may also end with the text.
pub open spec fn lines_of(text: Seq<char>) -> Seq<Seq<char>>
    decreases text.len(),
{
    if text.len() == 0 {
        Seq::empty()
    } else {
        let n = line_end(text) as int;
        if n >= text.len() {
            seq![text]
        } else {
            let line = if n > 0 && text[n - 1] == '\r' {
                text.take(n - 1)
            } else {
                text.take(n)
            };
            seq![line] + lines_of(text.skip(n + 1))
        }
    }
}

pub fn lines(s: &str) -> (r: Vec<String>)
    ensures
        views(r@) == lines_of(s@),
{
    let v = chars_of(s);
    let mut r: Vec<String> = Vec::new();
    let mut from: usize = 0;
    assert(v@.skip(0) =~= v@);
    assert(views(r@) + lines_of(v@) =~= lines_of(v@));
    while from < v.len()
        invariant
            from <= v@.len(),
            v@ == s@,
            views(r@) + lines_of(v@.skip(from as int)) == lines_of(s@),
        decreases v@.len() - from,
    {
        let ghost rest = v@.skip(from as int);
        let ghost before = views(r@);
        let mut end: usize = from;
        while end < v.len() && v[end] != '\n'
            invariant
                from <= end <= v@.len(),
                forall|i: int| from <= i < end ==> v@[i] != '\n',
            decreases v@.len() - end,
        {
            end += 1;
        }
        proof {
            assert forall|i: int| 0 <= i < end - from implies rest[i] != '\n' by {
                assert(rest[i] == v@[from + i]);
            }
            lemma_line_end_is(rest, (end - from) as nat);
        }
        if end == v.len() {
            r.push(string_of(&v, from, end));
            assert(views(r@) =~= before + lines_of(rest)) by {
                assert(v@.subrange(from as int, end as int) =~= rest);
            }
            assert(views(r@) + lines_of(v@.skip(end as int)) =~= views(r@));
            from = end;
        } else {
            let stop: usize = if end > from && v[end - 1] == '\r' {
                end - 1
            } else {
                end
            };
            r.push(string_of(&v, from, stop));
            proof {
                assert(v@.subrange(from as int, stop as int) =~= rest.take(stop - from));
                assert(rest.skip(end - from + 1) =~= v@.skip(end + 1));
                let line = rest.take(stop - from);
                assert(lines_of(rest) == seq![line] + lines_of(v@.skip(end + 1)));
                assert(before + lines_of(rest) =~= before.push(line) + lines_of(v@.skip(end + 1)));
            }
            from = end + 1;
        }
    }
    assert(views(r@) + lines_of(v@.skip(from as int)) =~= views(r@));
    r
}

/// The first of LINES that says something, else nothing.
pub open spec fn first_nonblank(lines: Seq<Seq<char>>) -> Seq<char>
    decreases lines.len(),
{
    if lines.len() == 0 {
        Seq::empty()
    } else if !is_blank(lines[0]) {
        lines[0]
    } else {
        first_nonblank(lines.skip(1))
    }
}

/// The first line of S that is not blank, else nothing.
pub fn first_line(s: &str) -> (r: String)
    ensures
        r@ == first_nonblank(lines_of(s@)),
{
    let v = lines(s);
    let mut i: usize = 0;
    assert(views(v@).skip(0) =~= views(v@));
    while i < v.len()
        invariant
            i <= v@.len(),
            views(v@) == lines_of(s@),
            first_nonblank(views(v@)) == first_nonblank(views(v@).skip(i as int)),
        decreases v@.len() - i,
    {
        assert(views(v@).skip(i as int)[0] == v@[i as int]@);
        if !blank(v[i].as_str()) {
            return v[i].clone();
        }
        assert(views(v@).skip(i as int).skip(1) =~= views(v@).skip(i + 1));
        i += 1;
    }
    String::new()
}

/// TEXTS with SEP between each two.
pub open spec fn joined(texts: Seq<Seq<char>>, sep: Seq<char>) -> Seq<char>
    decreases texts.len(),
{
    if texts.len() == 0 {
        Seq::empty()
    } else if texts.len() == 1 {
        texts[0]
    } else {
        joined(texts.drop_last(), sep) + sep + texts.last()
    }
}

pub fn join(texts: &Vec<String>, sep: &str) -> (r: String)
    ensures
        r@ == joined(views(texts@), sep@),
{
    if texts.len() == 0 {
        return String::new();
    }
    let mut r = texts[0].clone();
    let ghost all = views(texts@);
    assert(all.take(1) =~= seq![all[0]]);
    for i in 1..texts.len()
        invariant
            all == views(texts@),
            r@ == joined(all.take(i as int), sep@),
    {
        assert(all.take(i + 1).drop_last() =~= all.take(i as int));
        r.append(sep);
        r.append(texts[i].as_str());
    }
    assert(all.take(texts@.len() as int) =~= all);
    r
}

// ---- Numbers -----------------------------------------------------------

/// The decimal digit of D.
pub open spec fn digit_char(d: nat) -> char {
    ((48 + d) as u32) as char
}

/// N in decimal.
pub open spec fn decimal(n: nat) -> Seq<char>
    decreases n,
{
    if n < 10 {
        seq![digit_char(n)]
    } else {
        decimal(n / 10).push(digit_char(n % 10))
    }
}

/// N in decimal, with a minus sign where it is negative.
pub open spec fn signed_decimal(n: int) -> Seq<char> {
    if n < 0 {
        seq!['-'] + decimal((-n) as nat)
    } else {
        decimal(n as nat)
    }
}

/// The decimal digit of a number below ten.
pub fn digit(d: u64) -> (c: char)
    requires
        d < 10,
    ensures
        c == digit_char(d as nat),
{
    if d == 0 {
        '0'
    } else if d == 1 {
        '1'
    } else if d == 2 {
        '2'
    } else if d == 3 {
        '3'
    } else if d == 4 {
        '4'
    } else if d == 5 {
        '5'
    } else if d == 6 {
        '6'
    } else if d == 7 {
        '7'
    } else if d == 8 {
        '8'
    } else {
        '9'
    }
}

pub fn number(n: u64) -> (s: String)
    ensures
        s@ == decimal(n as nat),
    decreases n,
{
    if n < 10 {
        let mut s = String::new();
        s.push(digit(n));
        assert(s@ =~= seq![digit_char(n as nat)]);
        s
    } else {
        let mut s = number(n / 10);
        s.push(digit(n % 10));
        s
    }
}

pub fn signed_number(n: i64) -> (s: String)
    ensures
        s@ == signed_decimal(n as int),
{
    if n < 0 {
        let mut s = "-".to_owned();
        let m: u64 = if n == i64::MIN {
            9223372036854775808
        } else {
            (-n) as u64
        };
        s.append(number(m).as_str());
        proof {
            reveal_strlit("-");
            assert("-"@ =~= seq!['-']);
        }
        s
    } else {
        number(n as u64)
    }
}

/// TEXT is one or more decimal digits.
pub open spec fn all_digits(text: Seq<char>) -> bool {
    text.len() > 0 && forall|i: int| 0 <= i < text.len() ==> is_digit_char(#[trigger] text[i])
}

/// The number that decimal digits write.
pub open spec fn digits_value(text: Seq<char>) -> nat
    decreases text.len(),
{
    if text.len() == 0 {
        0
    } else {
        digits_value(text.drop_last()) * 10 + (text.last() as u32 - 48) as nat
    }
}

/// The number that an optional plus sign and decimal digits write, where
/// it is at most MAX.
pub open spec fn unsigned_value(text: Seq<char>, max: nat) -> Option<nat> {
    let digits = if text.len() > 0 && text[0] == '+' {
        text.skip(1)
    } else {
        text
    };
    if all_digits(digits) && digits_value(digits) <= max {
        Some(digits_value(digits))
    } else {
        None
    }
}

/// The number that an optional sign and decimal digits write, where it is
/// in range.
pub open spec fn signed_value(text: Seq<char>) -> Option<int> {
    if text.len() > 0 && text[0] == '-' {
        let digits = text.skip(1);
        if all_digits(digits) && digits_value(digits) <= 0x8000_0000_0000_0000 {
            Some(-(digits_value(digits) as int))
        } else {
            None
        }
    } else {
        match unsigned_value(text, i64::MAX as nat) {
            Some(n) => Some(n as int),
            None => None,
        }
    }
}

pub proof fn lemma_digits_grow(text: Seq<char>, n: int)
    requires
        0 <= n <= text.len(),
        forall|i: int| 0 <= i < text.len() ==> is_digit_char(#[trigger] text[i]),
    ensures
        digits_value(text.take(n)) <= digits_value(text),
    decreases text.len() - n,
{
    if n == text.len() {
        assert(text.take(n) =~= text);
    } else {
        lemma_digits_grow(text, n + 1);
        assert(text.take(n + 1).drop_last() =~= text.take(n));
    }
}

/// The number that decimal digits write, from FROM on, where it is at most
/// MAX.
fn digits_number(v: &Vec<char>, from: usize, max: u64) -> (r: Option<u64>)
    requires
        from <= v@.len(),
    ensures
        ({
            let text = v@.skip(from as int);
            match r {
                Some(n) => all_digits(text) && digits_value(text) == n && n <= max,
                None => !all_digits(text) || digits_value(text) > max,
            }
        }),
{
    let ghost text = v@.skip(from as int);
    if from == v.len() {
        return None;
    }
    for i in from..v.len()
        invariant
            from <= v@.len(),
            text == v@.skip(from as int),
            forall|k: int| 0 <= k < i - from ==> is_digit_char(#[trigger] text[k]),
    {
        if !is_digit(v[i]) {
            assert(!is_digit_char(text[i - from]));
            return None;
        }
        assert(text[i - from] == v@[i as int]);
    }
    let mut n: u64 = 0;
    for i in from..v.len()
        invariant
            from <= v@.len(),
            text == v@.skip(from as int),
            all_digits(text),
            n == digits_value(text.take(i - from)),
            n <= max,
    {
        let ghost head = text.take(i - from + 1);
        proof {
            assert(head.drop_last() =~= text.take(i - from));
            assert(head.last() == v@[i as int]);
            assert(is_digit_char(text[i - from]));
            lemma_digits_grow(text, i - from + 1);
        }
        let d: u64 = (v[i] as u32 - 48) as u64;
        let m: Option<u64> = n.checked_mul(10);
        if m.is_none() {
            return None;
        }
        let s: Option<u64> = m.unwrap().checked_add(d);
        if s.is_none() {
            return None;
        }
        if s.unwrap() > max {
            return None;
        }
        n = s.unwrap();
    }
    assert(text.take(v@.len() - from) =~= text);
    Some(n)
}

/// Reads an unsigned number of at most MAX: decimal digits that may follow
/// a plus sign.
pub fn parse_unsigned(s: &str, max: u64) -> (r: Option<u64>)
    ensures
        match r {
            Some(n) => unsigned_value(s@, max as nat) == Some(n as nat),
            None => unsigned_value(s@, max as nat) is None,
        },
{
    let v = chars_of(s);
    let plus = v.len() > 0 && v[0] == '+';
    assert(v@.skip(0) =~= v@);
    digits_number(
        &v,
        if plus {
            1
        } else {
            0
        },
        max,
    )
}

/// Reads a signed number: decimal digits that may follow a sign.
pub fn parse_signed(s: &str) -> (r: Option<i64>)
    ensures
        match r {
            Some(n) => signed_value(s@) == Some(n as int),
            None => signed_value(s@) is None,
        },
{
    let v = chars_of(s);
    if v.len() > 0 && v[0] == '-' {
        match digits_number(&v, 1, 0x8000_0000_0000_0000) {
            None => None,
            Some(n) => {
                if n == 0x8000_0000_0000_0000 {
                    Some(i64::MIN)
                } else {
                    Some(-(n as i64))
                }
            },
        }
    } else {
        match parse_unsigned(s, 0x7fff_ffff_ffff_ffff) {
            None => None,
            Some(n) => Some(n as i64),
        }
    }
}

/// A number's digits are digits, and they write that number.
pub proof fn law_decimal_reads_back(n: nat)
    ensures
        all_digits(decimal(n)),
        digits_value(decimal(n)) == n,
    decreases n,
{
    reveal_with_fuel(digits_value, 2);
    if n >= 10 {
        law_decimal_reads_back(n / 10);
        assert(decimal(n).drop_last() =~= decimal(n / 10));
        assert(decimal(n).last() == digit_char(n % 10));
        assert forall|i: int| 0 <= i < decimal(n).len() implies is_digit_char(
            #[trigger] decimal(n)[i],
        ) by {
            if i < decimal(n).len() - 1 {
                assert(decimal(n)[i] == decimal(n / 10)[i]);
            }
        }
    } else {
        assert(decimal(n).drop_last() =~= Seq::<char>::empty());
    }
}

// ---- The order of texts ------------------------------------------------

/// Texts in the order of their characters.
pub open spec fn text_lt(a: Seq<char>, b: Seq<char>) -> bool
    decreases b.len(),
{
    if b.len() == 0 {
        false
    } else if a.len() == 0 {
        true
    } else if a[0] == b[0] {
        text_lt(a.skip(1), b.skip(1))
    } else {
        a[0] < b[0]
    }
}

pub proof fn lemma_text_strict(a: Seq<char>)
    ensures
        !text_lt(a, a),
    decreases a.len(),
{
    if a.len() > 0 {
        lemma_text_strict(a.skip(1));
    }
}

pub proof fn lemma_text_order(a: Seq<char>, b: Seq<char>)
    ensures
        text_lt(a, b) ==> !text_lt(b, a),
        !text_lt(a, b) && !text_lt(b, a) ==> a == b,
    decreases a.len() + b.len(),
{
    if a.len() > 0 && b.len() > 0 && a[0] == b[0] {
        lemma_text_order(a.skip(1), b.skip(1));
        if a.skip(1) == b.skip(1) {
            assert(a =~= seq![a[0]] + a.skip(1));
            assert(b =~= seq![b[0]] + b.skip(1));
        }
    }
    if a.len() == 0 && b.len() == 0 {
        assert(a =~= b);
    }
}

pub proof fn lemma_text_trans(a: Seq<char>, b: Seq<char>, c: Seq<char>)
    requires
        text_lt(a, b),
        text_lt(b, c),
    ensures
        text_lt(a, c),
    decreases a.len(),
{
    if a.len() > 0 && a[0] == b[0] && b[0] == c[0] {
        lemma_text_trans(a.skip(1), b.skip(1), c.skip(1));
    }
}

/// Whether A comes before B.
pub fn text_before(a: &str, b: &str) -> (r: bool)
    ensures
        r == text_lt(a@, b@),
{
    let x = chars_of(a);
    let y = chars_of(b);
    let mut i: usize = 0;
    assert(x@.skip(0) =~= x@);
    assert(y@.skip(0) =~= y@);
    while i < x.len() && i < y.len() && x[i] == y[i]
        invariant
            i <= x@.len(),
            i <= y@.len(),
            text_lt(x@, y@) == text_lt(x@.skip(i as int), y@.skip(i as int)),
        decreases x@.len() - i,
    {
        assert(x@.skip(i as int).skip(1) =~= x@.skip(i + 1));
        assert(y@.skip(i as int).skip(1) =~= y@.skip(i + 1));
        i += 1;
    }
    if i >= y.len() {
        false
    } else if i >= x.len() {
        true
    } else {
        x[i] < y[i]
    }
}

// ---- Text that std makes -----------------------------------------------

/// What `String::from_utf8_lossy` makes of bytes: the text they encode, with
/// a replacement character for what is no UTF-8.
pub uninterp spec fn utf8_text(bytes: Seq<u8>) -> Seq<char>;

/// `String::from_utf8_lossy`.
#[verifier::external_body]
pub(crate) fn decode(bytes: &Vec<u8>) -> (r: String)
    ensures
        r@ == utf8_text(bytes@),
{
    String::from_utf8_lossy(bytes).into_owned()
}

/// A text as `{:?}` writes it: in double quotes, and with escapes.
pub uninterp spec fn debug_text(text: Seq<char>) -> Seq<char>;

/// The text as `{:?}` of a `str` writes it.
#[verifier::external_body]
pub(crate) fn quote(text: &str) -> (r: String)
    ensures
        r@ == debug_text(text@),
{
    format!("{text:?}")
}

// ---- What the texts come to --------------------------------------------

/// What `cut` gives holds no line break, nor any other of the characters
/// that a terminal or a log acts on.
pub proof fn law_cut_holds_no_control(text: Seq<char>, i: int)
    requires
        0 <= i < cut_text(text).len(),
    ensures
        cut_text(text)[i] as u32 >= 0x20,
        (cut_text(text)[i] as u32) < 0x7f || cut_text(text)[i] as u32 > 0x9f,
{
}

/// What `cut` keeps of a text are its first characters, each in its place,
/// with a blank for those that are none to show. A text of up to two hundred
/// characters keeps its length; a longer one comes to two hundred, the last
/// of which is an ellipsis.
pub proof fn law_cut_keeps_the_head(text: Seq<char>, i: int)
    ensures
        text.len() <= 200 ==> cut_text(text).len() == text.len(),
        text.len() > 200 ==> cut_text(text).len() == 200 && cut_text(text)[199] == '…',
        0 <= i < text.len() && (i < 199 || text.len() <= 200) && text[i] as u32 >= 0x20 && (
        (text[i] as u32) < 0x7f || text[i] as u32 > 0x9f) ==> cut_text(text)[i] == text[i],
        0 <= i < text.len() && (i < 199 || text.len() <= 200) && ((text[i] as u32) < 0x20 || 0x7f
            <= text[i] as u32 <= 0x9f) ==> cut_text(text)[i] == ' ',
{
}

/// Of the ASCII characters, the blank, the tab, the line feed, the vertical
/// tab, the form feed and the carriage return are white space.
pub proof fn law_ascii_white_space(c: char)
    requires
        (c as u32) < 0x80,
    ensures
        is_space_char(c) <==> c == ' ' || c == '\t' || c == '\n' || c == '\r' || c as u32 == 0x0b
            || c as u32 == 0x0c,
{
}

/// Beyond ASCII, white space is the next line, the spaces of every width, the
/// two separators and the ideographic space, and nothing else.
pub proof fn law_other_white_space(c: char)
    requires
        (c as u32) >= 0x80,
    ensures
        is_space_char(c) <==> c == '\u{85}' || c == '\u{a0}' || c == '\u{1680}' || c == '\u{2000}'
            || c == '\u{2001}' || c == '\u{2002}' || c == '\u{2003}' || c == '\u{2004}' || c
            == '\u{2005}' || c == '\u{2006}' || c == '\u{2007}' || c == '\u{2008}' || c
            == '\u{2009}' || c == '\u{200a}' || c == '\u{2028}' || c == '\u{2029}' || c
            == '\u{202f}' || c == '\u{205f}' || c == '\u{3000}',
{
}

proof fn lemma_trim_start(text: Seq<char>) -> (a: int)
    ensures
        0 <= a <= text.len(),
        trim_start(text) == text.skip(a),
        forall|i: int| 0 <= i < a ==> is_space_char(#[trigger] text[i]),
        a < text.len() ==> !is_space_char(text[a]),
    decreases text.len(),
{
    if text.len() > 0 && is_space_char(text[0]) {
        let rest = text.skip(1);
        let b = lemma_trim_start(rest);
        assert(rest.skip(b) =~= text.skip(b + 1));
        assert forall|i: int| 0 <= i < b + 1 implies is_space_char(#[trigger] text[i]) by {
            if i > 0 {
                assert(rest[i - 1] == text[i]);
            }
        }
        if b < rest.len() {
            assert(rest[b] == text[b + 1]);
        }
        b + 1
    } else {
        assert(text.skip(0) =~= text);
        0
    }
}

proof fn lemma_trim_end(text: Seq<char>) -> (b: int)
    ensures
        0 <= b <= text.len(),
        trim_end(text) == text.take(b),
        forall|i: int| b <= i < text.len() ==> is_space_char(#[trigger] text[i]),
        b > 0 ==> !is_space_char(text[b - 1]),
    decreases text.len(),
{
    if text.len() > 0 && is_space_char(text.last()) {
        let rest = text.drop_last();
        let b = lemma_trim_end(rest);
        assert(rest.take(b) =~= text.take(b));
        assert forall|i: int| b <= i < text.len() implies is_space_char(#[trigger] text[i]) by {
            if i < rest.len() {
                assert(rest[i] == text[i]);
            }
        }
        if b > 0 {
            assert(rest[b - 1] == text[b - 1]);
        }
        b
    } else {
        assert(text.take(text.len() as int) =~= text);
        text.len() as int
    }
}

/// Trimming takes white space off both ends and nothing else: a text with
/// white space around it is trimmed to what is between.
pub proof fn law_trimming_takes_white_space(
    before: Seq<char>,
    text: Seq<char>,
    after: Seq<char>,
)
    requires
        is_blank(before),
        is_blank(after),
        text.len() > 0,
        !is_space_char(text[0]),
        !is_space_char(text.last()),
    ensures
        trimmed(before + text + after) == text,
{
    let whole = before + text + after;
    let a = lemma_trim_start(whole);
    let n = before.len() as int;
    if a < n {
        assert(whole[a] == before[a]);
    }
    if a > n {
        assert(whole[n] == text[0]);
    }
    let rest = whole.skip(n);
    assert(rest =~= text + after);
    let b = lemma_trim_end(rest);
    let m = text.len() as int;
    if b > m {
        assert(rest[b - 1] == after[b - 1 - m]);
    }
    if b < m {
        assert(rest[m - 1] == text.last());
    }
    assert(rest.take(m) =~= text);
}

/// White space is trimmed to nothing.
pub proof fn law_blanks_are_trimmed_away(text: Seq<char>)
    ensures
        is_blank(text) <==> trimmed(text).len() == 0,
{
    let a = lemma_trim_start(text);
    let rest = text.skip(a);
    let b = lemma_trim_end(rest);
    if is_blank(text) {
        if a < text.len() {
            assert(is_space_char(text[a]));
        }
    } else {
        let k = choose|k: int| 0 <= k < text.len() && !is_space_char(#[trigger] text[k]);
        assert(text[k] == rest[k - a]);
    }
}

/// A text without a line feed is one line, as it is.
pub proof fn law_one_line_is_one(line: Seq<char>)
    requires
        line.len() > 0,
        forall|i: int| 0 <= i < line.len() ==> line[i] != '\n',
    ensures
        lines_of(line) == seq![line],
{
    lemma_line_end_is(line, line.len());
}

/// A line ends with a line feed, or with a carriage return and a line feed;
/// neither belongs to it. The lines after it are those of the rest.
pub proof fn law_lines_end_at_line_feeds(line: Seq<char>, rest: Seq<char>)
    requires
        forall|i: int| 0 <= i < line.len() ==> line[i] != '\n',
    ensures
        line.len() == 0 || line.last() != '\r' ==> lines_of(line.push('\n') + rest) == seq![line]
            + lines_of(rest),
        lines_of(line.push('\r').push('\n') + rest) == seq![line] + lines_of(rest),
        lines_of(Seq::<char>::empty()).len() == 0,
{
    let whole = line.push('\n') + rest;
    lemma_line_end_is(whole, line.len());
    assert(whole.take(line.len() as int) =~= line);
    assert(whole.skip(line.len() as int + 1) =~= rest);
    let other = line.push('\r').push('\n') + rest;
    lemma_line_end_is(other, line.len() + 1);
    assert(other.take(line.len() as int) =~= line);
    assert(other.skip(line.len() as int + 2) =~= rest);
}

/// The first line that says something is the one that has only blank ones
/// before it; where all are blank, it is nothing.
pub proof fn law_first_line_says_something(lines: Seq<Seq<char>>, i: int)
    requires
        0 <= i <= lines.len(),
        i < lines.len() ==> !is_blank(lines[i]),
        forall|k: int| 0 <= k < i ==> is_blank(#[trigger] lines[k]),
    ensures
        first_nonblank(lines) == if i < lines.len() {
            lines[i]
        } else {
            Seq::empty()
        },
    decreases i,
{
    if i > 0 {
        assert(is_blank(lines[0]));
        let rest = lines.skip(1);
        assert forall|k: int| 0 <= k < i - 1 implies is_blank(#[trigger] rest[k]) by {
            assert(rest[k] == lines[k + 1]);
        }
        if i < lines.len() {
            assert(rest[i - 1] == lines[i]);
        }
        law_first_line_says_something(rest, i - 1);
    }
}

/// Texts are joined in their order, with the separator between each two and
/// nowhere else.
pub proof fn law_joining_goes_on(a: Seq<Seq<char>>, b: Seq<Seq<char>>, sep: Seq<char>)
    ensures
        a.len() > 0 && b.len() > 0 ==> joined(a + b, sep) == joined(a, sep) + sep + joined(b, sep),
        a.len() == 0 ==> joined(a, sep).len() == 0,
        a.len() == 1 ==> joined(a, sep) == a[0],
    decreases b.len(),
{
    if a.len() > 0 && b.len() > 0 {
        let whole = a + b;
        assert(whole.last() == b.last());
        assert(whole.drop_last() =~= a + b.drop_last());
        if b.len() == 1 {
            assert(a + b.drop_last() =~= a);
        } else {
            law_joining_goes_on(a, b.drop_last(), sep);
            assert(joined(whole, sep) =~= joined(a, sep) + sep + joined(b, sep));
        }
    }
}

/// Numbers are written in decimal: their last digit last, and no zeros in
/// front.
pub proof fn law_decimal_is_positional(n: nat, d: nat)
    requires
        d < 10,
    ensures
        decimal(d) == seq![((d + 0x30) as u32) as char],
        n > 0 ==> decimal(n * 10 + d) == decimal(n).push(((d + 0x30) as u32) as char),
        digits_value(decimal(n).push(((d + 0x30) as u32) as char)) == n * 10 + d,
{
    law_decimal_reads_back(n);
    assert(decimal(n).push(((d + 0x30) as u32) as char).drop_last() =~= decimal(n));
}

/// A number reads back from its digits, whether or not a plus sign stands
/// before them, where it is not too large.
pub proof fn law_numbers_read_back(n: nat, max: nat)
    ensures
        unsigned_value(decimal(n), max) == if n <= max {
            Some(n)
        } else {
            None
        },
        unsigned_value(seq!['+'] + decimal(n), max) == if n <= max {
            Some(n)
        } else {
            None
        },
{
    law_decimal_reads_back(n);
    assert(is_digit_char(decimal(n)[0]));
    assert((seq!['+'] + decimal(n)).skip(1) =~= decimal(n));
}

/// What holds anything but digits, after an optional sign, is no number;
/// neither is nothing.
pub proof fn law_only_digits_are_numbers(text: Seq<char>, max: nat, i: int)
    ensures
        text.len() == 0 ==> unsigned_value(text, max) is None && signed_value(text) is None,
        text.len() == 1 && (text[0] == '+' || text[0] == '-') ==> unsigned_value(text, max) is None
            && signed_value(text) is None,
        0 < i < text.len() && (text[i] < '0' || text[i] > '9') ==> unsigned_value(text, max) is None
            && signed_value(text) is None,
        text.len() > 0 && (text[0] < '0' || text[0] > '9') && text[0] != '+' ==> unsigned_value(
            text,
            max,
        ) is None && (text[0] != '-' ==> signed_value(text) is None),
{
    if 0 < i < text.len() && (text[i] < '0' || text[i] > '9') {
        assert(text.skip(1)[i - 1] == text[i]);
        assert(!is_digit_char(text[i]));
    }
    if text.len() > 0 {
        assert(text.skip(1).len() == text.len() - 1);
    }
}

/// A signed number reads back from what is written of it.
pub proof fn law_signed_numbers_read_back(n: int)
    ensures
        signed_value(signed_decimal(n)) == if i64::MIN <= n <= i64::MAX {
            Some(n)
        } else {
            None
        },
        n >= 0 ==> signed_decimal(n) == decimal(n as nat),
        n < 0 ==> signed_decimal(n) == seq!['-'] + decimal((-n) as nat),
{
    if n < 0 {
        law_decimal_reads_back((-n) as nat);
        assert((seq!['-'] + decimal((-n) as nat)).skip(1) =~= decimal((-n) as nat));
    } else {
        law_numbers_read_back(n as nat, i64::MAX as nat);
        law_decimal_reads_back(n as nat);
        assert(is_digit_char(decimal(n as nat)[0]));
    }
}

/// A text that starts with a prefix is the prefix and what is left without
/// it.
pub proof fn law_prefixes_come_off(prefix: Seq<char>, rest: Seq<char>, text: Seq<char>)
    ensures
        without_prefix(prefix + rest, prefix) == Some(rest),
        without_prefix(text, prefix) is Some ==> text == prefix + without_prefix(text, prefix)->0,
        has_prefix(text, prefix) <==> without_prefix(text, prefix) is Some,
{
    assert((prefix + rest).take(prefix.len() as int) =~= prefix);
    assert((prefix + rest).skip(prefix.len() as int) =~= rest);
    if has_prefix(text, prefix) {
        assert(text =~= prefix + text.skip(prefix.len() as int));
    }
}

/// Texts are in the order of the first characters in which they differ; a
/// text comes before those that go on from it.
pub proof fn law_first_difference_orders(a: Seq<char>, b: Seq<char>, k: int)
    requires
        0 <= k <= a.len(),
        k < b.len(),
        forall|i: int| 0 <= i < k ==> #[trigger] a[i] == b[i],
        k < a.len() ==> a[k] < b[k],
    ensures
        text_lt(a, b),
        !text_lt(b, a),
    decreases k,
{
    if k > 0 {
        assert(a[0] == b[0]);
        let x = a.skip(1);
        let y = b.skip(1);
        assert forall|i: int| 0 <= i < k - 1 implies #[trigger] x[i] == y[i] by {
            assert(a[i + 1] == b[i + 1]);
        }
        if k < a.len() {
            assert(x[k - 1] == a[k] && y[k - 1] == b[k]);
        }
        law_first_difference_orders(x, y, k - 1);
    }
}

/// A small letter is its capital in lower case; nothing else changes.
pub proof fn law_capitals_are_lowered(c: char)
    ensures
        lower_char('A') == 'a' && lower_char('Z') == 'z',
        'A' <= c && c <= 'Z' ==> lower_char(c) as u32 == c as u32 + 32,
        !('A' <= c && c <= 'Z') ==> lower_char(c) == c,
{
}

} // verus!
