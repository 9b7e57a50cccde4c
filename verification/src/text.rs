//! Text as sequences of characters: trimming, splitting, joining, padding and
//! decimal numbers.

use vstd::prelude::*;
use vstd::string::*;
use vstd::utf8::*;

verus! {

/// The characters with the Unicode property `White_Space`.
pub open spec fn is_white(c: char) -> bool {
    ||| '\u{9}' <= c <= '\u{d}'
    ||| c == ' '
    ||| c == '\u{85}'
    ||| c == '\u{a0}'
    ||| c == '\u{1680}'
    ||| '\u{2000}' <= c <= '\u{200a}'
    ||| c == '\u{2028}'
    ||| c == '\u{2029}'
    ||| c == '\u{202f}'
    ||| c == '\u{205f}'
    ||| c == '\u{3000}'
}

/// `s` without its leading white space.
pub open spec fn trimmed_start(s: Seq<char>) -> Seq<char>
    decreases s.len(),
{
    if s.len() > 0 && is_white(s[0]) {
        trimmed_start(s.drop_first())
    } else {
        s
    }
}

/// `s` without its trailing white space.
pub open spec fn trimmed_end(s: Seq<char>) -> Seq<char>
    decreases s.len(),
{
    if s.len() > 0 && is_white(s.last()) {
        trimmed_end(s.drop_last())
    } else {
        s
    }
}

/// `s` without white space at either end.
pub open spec fn trimmed(s: Seq<char>) -> Seq<char> {
    trimmed_end(trimmed_start(s))
}

/// The pieces of `s` between the separators `sep`: one more than there are
/// separators.
pub open spec fn pieces(s: Seq<char>, sep: char) -> Seq<Seq<char>>
    decreases s.len(),
{
    if s.len() == 0 {
        seq![Seq::empty()]
    } else {
        let before = pieces(s.drop_last(), sep);
        if s.last() == sep {
            before.push(Seq::empty())
        } else {
            before.drop_last().push(before.last().push(s.last()))
        }
    }
}

/// `items` one after another, with `sep` between each two.
pub open spec fn joined(items: Seq<Seq<char>>, sep: Seq<char>) -> Seq<char>
    decreases items.len(),
{
    if items.len() == 0 {
        Seq::empty()
    } else if items.len() == 1 {
        items[0]
    } else {
        joined(items.drop_last(), sep) + sep + items.last()
    }
}

/// What each string of a vector holds.
pub open spec fn texts(items: Seq<String>) -> Seq<Seq<char>> {
    items.map_values(|s: String| s@)
}

/// What an optional string holds.
pub open spec fn text_of(o: Option<String>) -> Option<Seq<char>> {
    match o {
        Some(s) => Some(s@),
        None => None,
    }
}

/// `n` spaces.
pub open spec fn spaces(n: int) -> Seq<char> {
    Seq::new(if n > 0 { n as nat } else { 0 }, |i: int| ' ')
}

/// The length in bytes of the longest of `items`.
pub open spec fn widest(items: Seq<Seq<char>>) -> nat
    decreases items.len(),
{
    if items.len() == 0 {
        0
    } else {
        let before = widest(items.drop_last());
        let last = byte_len(items.last());
        if before < last { last } else { before }
    }
}

/// `s` in a column of `width` characters, flush left. A longer `s` is kept whole.
pub open spec fn flush_left(s: Seq<char>, width: int) -> Seq<char> {
    s + spaces(width - s.len())
}

/// `s` in a column of `width` characters, flush right. A longer `s` is kept whole.
pub open spec fn flush_right(s: Seq<char>, width: int) -> Seq<char> {
    spaces(width - s.len()) + s
}

/// The number of lines of `s`: a line break ends a line, and what stands after
/// the last one is a line too unless it is empty.
pub open spec fn line_count(s: Seq<char>) -> int {
    let lines = pieces(s, '\n');
    if lines.last().len() == 0 {
        lines.len() - 1
    } else {
        lines.len() as int
    }
}

/// Whether `part` stands somewhere in `s`.
pub open spec fn holds(s: Seq<char>, part: Seq<char>) -> bool {
    exists|i: int|
        0 <= i <= s.len() - part.len() && #[trigger] s.subrange(i, i + part.len()) == part
}

/// What `format!("{:?}", ..)` makes of a string.
pub uninterp spec fn debug_text(s: Seq<char>) -> Seq<char>;

/// The length of `s` in bytes of UTF-8.
pub open spec fn byte_len(s: Seq<char>) -> nat {
    encode_utf8(s).len()
}

/// The decimal digit `d`.
pub open spec fn digit(d: int) -> char {
    if d == 0 { '0' }
    else if d == 1 { '1' }
    else if d == 2 { '2' }
    else if d == 3 { '3' }
    else if d == 4 { '4' }
    else if d == 5 { '5' }
    else if d == 6 { '6' }
    else if d == 7 { '7' }
    else if d == 8 { '8' }
    else { '9' }
}

/// `n` in decimal notation.
pub open spec fn decimal(n: nat) -> Seq<char>
    decreases n,
{
    if n < 10 {
        seq![digit(n as int)]
    } else {
        decimal(n / 10).push(digit((n % 10) as int))
    }
}

/// `n` in decimal notation, with a minus sign where it is negative.
pub open spec fn signed_decimal(n: int) -> Seq<char> {
    if n < 0 {
        seq!['-'] + decimal((-n) as nat)
    } else {
        decimal(n as nat)
    }
}

/// The value of a decimal digit.
pub open spec fn digit_value(c: char) -> int {
    c as int - '0' as int
}

/// Whether `s` is made of decimal digits, at least one.
pub open spec fn is_digits(s: Seq<char>) -> bool {
    s.len() > 0 && forall|i: int| 0 <= i < s.len() ==> '0' <= #[trigger] s[i] <= '9'
}

/// The number that decimal digits stand for.
pub open spec fn digits_value(s: Seq<char>) -> int
    decreases s.len(),
{
    if s.len() == 0 {
        0
    } else {
        digits_value(s.drop_last()) * 10 + digit_value(s.last())
    }
}

/// The signed 64-bit number that `s` writes: an optional sign and decimal
/// digits, and nothing else.
pub open spec fn integer_of(s: Seq<char>) -> Option<i64> {
    let signed = s.len() > 0 && (s[0] == '-' || s[0] == '+');
    let digits = if signed { s.drop_first() } else { s };
    let value = if signed && s[0] == '-' {
        -digits_value(digits)
    } else {
        digits_value(digits)
    };
    if is_digits(digits) && i64::MIN <= value <= i64::MAX {
        Some(value as i64)
    } else {
        None
    }
}

/// What the standard library says of a text that is no signed 64-bit number.
pub uninterp spec fn integer_fault(s: Seq<char>) -> Seq<char>;

/// Whether `c` is a capital letter of the basic alphabet.
pub open spec fn is_capital(c: char) -> bool {
    'A' <= c <= 'Z'
}

/// The small letter for the capital `c`.
pub open spec fn small(c: char) -> char {
    ((c as u32) + 32) as char
}

/// `s` in kebab case: each capital is written small, with a hyphen before it
/// unless it comes first.
pub open spec fn kebab(s: Seq<char>) -> Seq<char>
    decreases s.len(),
{
    if s.len() == 0 {
        Seq::empty()
    } else {
        let before = kebab(s.drop_last());
        let c = s.last();
        if !is_capital(c) {
            before.push(c)
        } else if s.len() == 1 {
            seq![small(c)]
        } else {
            before.push('-').push(small(c))
        }
    }
}

/// Whether `c` is white space.
pub fn is_whitespace(c: char) -> (r: bool)
    ensures
        r == is_white(c),
{
    ('\u{9}' <= c && c <= '\u{d}') || c == ' ' || c == '\u{85}' || c == '\u{a0}' || c == '\u{1680}'
        || ('\u{2000}' <= c && c <= '\u{200a}') || c == '\u{2028}' || c == '\u{2029}' || c
        == '\u{202f}' || c == '\u{205f}' || c == '\u{3000}'
}

/// The characters of `s`.
pub fn chars_of(s: &str) -> (r: Vec<char>)
    ensures
        r@ == s@,
{
    let mut out: Vec<char> = Vec::new();
    for c in it: s.chars()
        invariant
            it.seq() == s@,
            out@ == s@.take(it.index()),
    {
        out.push(c);
        assert(s@.take(it.index() + 1) =~= s@.take(it.index()).push(c));
    }
    assert(s@.take(s@.len() as int) =~= s@);
    out
}

/// `s` without white space at either end.
pub fn trim(s: &str) -> (r: &str)
    ensures
        r@ == trimmed(s@),
{
    let chars = chars_of(s);
    let mut from: usize = 0;
    assert(s@.skip(0) =~= s@);
    while from < chars.len() && is_whitespace(chars[from])
        invariant
            chars@ == s@,
            from <= chars.len(),
            trimmed_start(s@.skip(from as int)) == trimmed_start(s@),
        decreases chars.len() - from,
    {
        assert(s@.skip(from as int).drop_first() =~= s@.skip(from + 1));
        from += 1;
    }
    let ghost rest = trimmed_start(s@);
    assert(rest == s@.skip(from as int));
    let mut to: usize = chars.len();
    assert(s@.subrange(from as int, to as int) =~= rest);
    while from < to && is_whitespace(chars[to - 1])
        invariant
            chars@ == s@,
            from <= to <= chars.len(),
            trimmed_end(s@.subrange(from as int, to as int)) == trimmed_end(rest),
        decreases to,
    {
        assert(s@.subrange(from as int, to as int).drop_last() =~= s@.subrange(
            from as int,
            to - 1,
        ));
        to -= 1;
    }
    s.substring_char(from, to)
}

/// Whether `a` and `b` hold the same characters.
pub fn same(a: &str, b: &str) -> (r: bool)
    ensures
        r == (a@ == b@),
{
    a.to_owned() == b.to_owned()
}

/// Whether `prefix` is the beginning of `s`.
pub fn starts_with(s: &str, prefix: &str) -> (r: bool)
    ensures
        r == prefix@.is_prefix_of(s@),
{
    let all = chars_of(s);
    let head = chars_of(prefix);
    if head.len() > all.len() {
        return false;
    }
    let mut i: usize = 0;
    while i < head.len()
        invariant
            all@ == s@,
            head@ == prefix@,
            head.len() <= all.len(),
            i <= head.len(),
            head@.take(i as int) =~= all@.take(i as int),
        decreases head.len() - i,
    {
        if all[i] != head[i] {
            assert(prefix@[i as int] != s@.subrange(0, prefix@.len() as int)[i as int]);
            return false;
        }
        i += 1;
    }
    assert(head@.take(i as int) =~= prefix@);
    true
}

/// Whether `item` is one of `items`.
pub fn listed(items: &Vec<String>, item: &String) -> (r: bool)
    ensures
        r == texts(items@).contains(item@),
{
    let mut i: usize = 0;
    while i < items.len()
        invariant
            i <= items.len(),
            forall|j: int| 0 <= j < i ==> #[trigger] texts(items@)[j] != item@,
        decreases items.len() - i,
    {
        if items[i] == *item {
            assert(texts(items@)[i as int] == item@);
            return true;
        }
        i += 1;
    }
    false
}

/// A copy of an optional string.
pub fn copy_option(o: &Option<String>) -> (r: Option<String>)
    ensures
        text_of(r) == text_of(*o),
{
    match o {
        Some(s) => Some(s.clone()),
        None => None,
    }
}

/// A copy of a vector of strings.
pub fn copy_texts(items: &Vec<String>) -> (r: Vec<String>)
    ensures
        texts(r@) == texts(items@),
{
    let mut out: Vec<String> = Vec::new();
    let mut i: usize = 0;
    while i < items.len()
        invariant
            i <= items.len(),
            out.len() == i,
            forall|j: int| 0 <= j < i ==> #[trigger] out@[j]@ == items@[j]@,
        decreases items.len() - i,
    {
        out.push(items[i].clone());
        i += 1;
    }
    assert(texts(out@) =~= texts(items@));
    out
}

/// The pieces of `s` between the separators `sep`.
pub fn split(s: &str, sep: char) -> (r: Vec<String>)
    ensures
        texts(r@) == pieces(s@, sep),
{
    let chars = chars_of(s);
    let mut out: Vec<String> = Vec::new();
    let mut from: usize = 0;
    let mut i: usize = 0;
    assert(s@.subrange(0, 0) =~= Seq::<char>::empty());
    assert(texts(out@).push(s@.subrange(0, 0)) =~= pieces(s@.take(0), sep));
    while i < chars.len()
        invariant
            chars@ == s@,
            from <= i <= chars.len(),
            texts(out@).push(s@.subrange(from as int, i as int)) == pieces(s@.take(i as int), sep),
        decreases chars.len() - i,
    {
        let ghost before = pieces(s@.take(i as int), sep);
        assert(s@.take(i + 1).drop_last() =~= s@.take(i as int));
        assert(before.drop_last() =~= texts(out@));
        assert(before.last() == s@.subrange(from as int, i as int));
        if chars[i] == sep {
            let ghost done = texts(out@);
            let piece = s.substring_char(from, i).to_owned();
            out.push(piece);
            from = i + 1;
            assert(texts(out@) =~= done.push(piece@));
            assert(s@.subrange(from as int, i + 1) =~= Seq::<char>::empty());
            assert(texts(out@) =~= before);
        } else {
            assert(s@.subrange(from as int, i + 1) =~= s@.subrange(from as int, i as int).push(
                s@[i as int],
            ));
        }
        i += 1;
    }
    assert(s@.take(i as int) =~= s@);
    let ghost done = texts(out@);
    let piece = s.substring_char(from, i).to_owned();
    out.push(piece);
    assert(texts(out@) =~= done.push(piece@));
    out
}

/// `items` one after another, with `sep` between each two.
pub fn join(items: &Vec<String>, sep: &str) -> (r: String)
    ensures
        r@ == joined(texts(items@), sep@),
{
    let mut out = String::new();
    let mut i: usize = 0;
    while i < items.len()
        invariant
            i <= items.len(),
            out@ == joined(texts(items@).take(i as int), sep@),
        decreases items.len() - i,
    {
        let ghost shown = texts(items@).take(i + 1);
        assert(shown.drop_last() =~= texts(items@).take(i as int));
        if i > 0 {
            out.append(sep);
        }
        out.append(items[i].as_str());
        assert(out@ =~= joined(shown, sep@));
        i += 1;
    }
    assert(texts(items@).take(i as int) =~= texts(items@));
    out
}

/// The small letter for the capital `c`.
fn small_letter(c: char) -> (r: &'static str)
    requires
        is_capital(c),
    ensures
        r@ == seq![small(c)],
{
    let letters = "abcdefghijklmnopqrstuvwxyz";
    let at: usize = c as usize - 'A' as usize;
    proof {
        reveal_strlit("abcdefghijklmnopqrstuvwxyz");
    }
    let r = letters.substring_char(at, at + 1);
    assert(r@ =~= seq![small(c)]);
    r
}

/// `s` in kebab case.
pub fn kebab_case(s: &str) -> (r: String)
    ensures
        r@ == kebab(s@),
{
    let chars = chars_of(s);
    let mut out = String::new();
    let mut i: usize = 0;
    while i < chars.len()
        invariant
            chars@ == s@,
            i <= chars.len(),
            out@ == kebab(s@.take(i as int)),
        decreases chars.len() - i,
    {
        let c = chars[i];
        assert(s@.take(i + 1).drop_last() =~= s@.take(i as int));
        if 'A' <= c && c <= 'Z' {
            if i > 0 {
                proof {
                    reveal_strlit("-");
                }
                out.append("-");
            }
            out.append(small_letter(c));
        } else {
            out.append(s.substring_char(i, i + 1));
        }
        assert(out@ =~= kebab(s@.take(i + 1)));
        i += 1;
    }
    assert(s@.take(i as int) =~= s@);
    out
}

/// `n` spaces.
pub fn blank(n: usize) -> (r: String)
    ensures
        r@ == spaces(n as int),
{
    let mut out = String::new();
    let mut i: usize = 0;
    assert(out@ =~= spaces(0));
    while i < n
        invariant
            i <= n,
            out@ == spaces(i as int),
        decreases n - i,
    {
        proof {
            reveal_strlit(" ");
        }
        out.append(" ");
        i += 1;
        assert(out@ =~= spaces(i as int));
    }
    out
}

/// `s` in a column of `width` characters, flush left.
pub fn pad_right(s: &str, width: usize) -> (r: String)
    ensures
        r@ == flush_left(s@, width as int),
{
    let len: usize = s.unicode_len();
    let mut out = s.to_owned();
    if len < width {
        let gap = blank(width - len);
        out.append(gap.as_str());
    }
    assert(out@ =~= flush_left(s@, width as int));
    out
}

/// `s` in a column of `width` characters, flush right.
pub fn pad_left(s: &str, width: usize) -> (r: String)
    ensures
        r@ == flush_right(s@, width as int),
{
    let len: usize = s.unicode_len();
    let mut out = if len < width {
        blank(width - len)
    } else {
        String::new()
    };
    out.append(s);
    assert(out@ =~= flush_right(s@, width as int));
    out
}

/// The length of `s` in bytes of UTF-8.
pub fn size(s: &str) -> (r: usize)
    ensures
        r == byte_len(s@),
{
    s.as_bytes().len()
}

/// The decimal digit `d`.
fn digit_str(d: u64) -> (r: &'static str)
    requires
        d < 10,
    ensures
        r@ == seq![digit(d as int)],
{
    proof {
        reveal_strlit("0");
        reveal_strlit("1");
        reveal_strlit("2");
        reveal_strlit("3");
        reveal_strlit("4");
        reveal_strlit("5");
        reveal_strlit("6");
        reveal_strlit("7");
        reveal_strlit("8");
        reveal_strlit("9");
    }
    let r = match d {
        0 => "0",
        1 => "1",
        2 => "2",
        3 => "3",
        4 => "4",
        5 => "5",
        6 => "6",
        7 => "7",
        8 => "8",
        _ => "9",
    };
    assert(r@ =~= seq![digit(d as int)]);
    r
}

/// `n` in decimal notation.
pub fn show(n: u64) -> (r: String)
    ensures
        r@ == decimal(n as nat),
    decreases n,
{
    if n < 10 {
        digit_str(n).to_owned()
    } else {
        let mut out = show(n / 10);
        out.append(digit_str(n % 10));
        assert(out@ =~= decimal(n as nat));
        out
    }
}

/// `n` in decimal notation, with a minus sign where it is negative.
pub fn show_signed(n: i64) -> (r: String)
    ensures
        r@ == signed_decimal(n as int),
{
    if n >= 0 {
        show(n as u64)
    } else {
        proof {
            reveal_strlit("-");
        }
        let size: u64 = (-(n + 1)) as u64 + 1;
        let mut out = "-".to_owned();
        out.append(show(size).as_str());
        assert(out@ =~= signed_decimal(n as int));
        out
    }
}

/// The number of lines of `s`.
pub fn count_lines(s: &str) -> (r: usize)
    ensures
        r == line_count(s@),
{
    let lines = split(s, '\n');
    proof {
        pieces_shape(s@, '\n');
        assert(texts(lines@).last() == lines@.last()@);
    }
    if lines[lines.len() - 1].as_str().is_empty() {
        lines.len() - 1
    } else {
        lines.len()
    }
}

/// `s` as `{:?}` writes it: `format!` of the standard library, whose result is
/// named and not described here.
#[verifier::external_body]
pub(crate) fn debug_quoted(s: &str) -> (r: String)
    ensures
        r@ == debug_text(s@),
{
    format!("{:?}", s)
}

/// The signed 64-bit number that `s` writes: `str::parse::<i64>` of the standard
/// library, which takes an optional sign and decimal digits, and refuses
/// anything else and any number out of range. Its words for what it refuses are
/// named and not described here.
#[verifier::external_body]
pub(crate) fn parse_integer(s: &str) -> (r: Result<i64, String>)
    ensures
        match r {
            Ok(n) => integer_of(s@) == Some(n),
            Err(e) => integer_of(s@) is None && e@ == integer_fault(s@),
        },
{
    s.parse::<i64>().map_err(|e| e.to_string())
}

/// There is always at least one piece, and no piece holds the separator.
pub proof fn pieces_shape(s: Seq<char>, sep: char)
    ensures
        pieces(s, sep).len() > 0,
        forall|i: int|
            0 <= i < pieces(s, sep).len() ==> !(#[trigger] pieces(s, sep)[i]).contains(sep),
    decreases s.len(),
{
    if s.len() > 0 {
        pieces_shape(s.drop_last(), sep);
        let before = pieces(s.drop_last(), sep);
        if s.last() != sep {
            let grown = before.last().push(s.last());
            assert(!grown.contains(sep)) by {
                if grown.contains(sep) {
                    let k = choose|k: int| 0 <= k < grown.len() && grown[k] == sep;
                    assert(k < before.last().len());
                    assert(before.last()[k] == sep);
                }
            }
        }
    }
}

/// A text has at least as many bytes as characters.
pub proof fn byte_len_covers_chars(s: Seq<char>)
    ensures
        s.len() <= byte_len(s),
    decreases s.len(),
{
    if s.len() > 0 {
        byte_len_covers_chars(s.drop_first());
    }
}

/// Whether `s` is a word: it is not empty and has no white space at either end.
pub open spec fn is_word(s: Seq<char>) -> bool {
    s.len() > 0 && !is_white(s[0]) && !is_white(s.last())
}

/// What trimming leaves stands in the text as it was, and has no white space at
/// either end.
pub proof fn trimmed_shape(s: Seq<char>)
    ensures
        trimmed(s).len() > 0 ==> is_word(trimmed(s)),
        forall|c: char| #[trigger] trimmed(s).contains(c) ==> s.contains(c),
{
    trimmed_start_shape(s);
    trimmed_end_shape(trimmed_start(s));
}

proof fn trimmed_start_shape(s: Seq<char>)
    ensures
        trimmed_start(s).len() > 0 ==> !is_white(trimmed_start(s)[0]),
        forall|c: char| #[trigger] trimmed_start(s).contains(c) ==> s.contains(c),
    decreases s.len(),
{
    if s.len() > 0 && is_white(s[0]) {
        trimmed_start_shape(s.drop_first());
        assert forall|c: char| #[trigger] s.drop_first().contains(c) implies s.contains(c) by {
            let k = choose|k: int| 0 <= k < s.drop_first().len() && s.drop_first()[k] == c;
            assert(s[k + 1] == c);
        }
    }
}

proof fn trimmed_end_shape(s: Seq<char>)
    ensures
        trimmed_end(s).len() > 0 ==> !is_white(trimmed_end(s).last()) && trimmed_end(s)[0] == s[0],
        forall|c: char| #[trigger] trimmed_end(s).contains(c) ==> s.contains(c),
    decreases s.len(),
{
    if s.len() > 0 && is_white(s.last()) {
        trimmed_end_shape(s.drop_last());
        assert forall|c: char| #[trigger] s.drop_last().contains(c) implies s.contains(c) by {
            let k = choose|k: int| 0 <= k < s.drop_last().len() && s.drop_last()[k] == c;
            assert(s[k] == c);
        }
    }
}

/// Trimming takes white space away and nothing else: a word comes back whole
/// from behind any white space.
pub proof fn trimmed_word(gap: Seq<char>, word: Seq<char>)
    requires
        forall|i: int| 0 <= i < gap.len() ==> is_white(#[trigger] gap[i]),
        is_word(word),
    ensures
        trimmed(gap + word) == word,
    decreases gap.len(),
{
    if gap.len() > 0 {
        trimmed_word(gap.drop_first(), word);
        assert((gap + word).drop_first() =~= gap.drop_first() + word);
        assert((gap + word)[0] == gap[0]);
    } else {
        assert(gap + word =~= word);
    }
}

/// A text without the separator is its own only piece.
pub proof fn pieces_of_one(s: Seq<char>, sep: char)
    requires
        !s.contains(sep),
    ensures
        pieces(s, sep) == seq![s],
    decreases s.len(),
{
    if s.len() > 0 {
        assert(s.last() != sep) by {
            assert(s[s.len() - 1] == s.last());
        }
        assert(!s.drop_last().contains(sep)) by {
            if s.drop_last().contains(sep) {
                let k = choose|k: int| 0 <= k < s.drop_last().len() && s.drop_last()[k] == sep;
                assert(s[k] == sep);
            }
        }
        pieces_of_one(s.drop_last(), sep);
        assert(s.drop_last().push(s.last()) =~= s);
        assert(pieces(s, sep) =~= seq![s]);
    } else {
        assert(s =~= Seq::empty());
        assert(pieces(s, sep) =~= seq![s]);
    }
}

/// A separator and a text without one add one piece.
pub proof fn pieces_append(s: Seq<char>, sep: char, t: Seq<char>)
    requires
        !t.contains(sep),
    ensures
        pieces(s.push(sep) + t, sep) == pieces(s, sep).push(t),
    decreases t.len(),
{
    let whole = s.push(sep) + t;
    if t.len() == 0 {
        assert(whole =~= s.push(sep));
        assert(whole.drop_last() =~= s);
        assert(t =~= Seq::empty());
    } else {
        assert(t.last() != sep) by {
            assert(t[t.len() - 1] == t.last());
        }
        assert(!t.drop_last().contains(sep)) by {
            if t.drop_last().contains(sep) {
                let k = choose|k: int| 0 <= k < t.drop_last().len() && t.drop_last()[k] == sep;
                assert(t[k] == sep);
            }
        }
        pieces_append(s, sep, t.drop_last());
        assert(whole.drop_last() =~= s.push(sep) + t.drop_last());
        assert(t.drop_last().push(t.last()) =~= t);
        let before = pieces(s, sep).push(t.drop_last());
        assert(before.drop_last() =~= pieces(s, sep));
    }
}

/// What stands in a text stands in any longer one that begins with it.
pub broadcast proof fn holds_on(s: Seq<char>, more: Seq<char>, part: Seq<char>)
    requires
        holds(s, part),
    ensures
        #[trigger] holds(s + more, part),
{
    let i = choose|i: int|
        0 <= i <= s.len() - part.len() && #[trigger] s.subrange(i, i + part.len()) == part;
    assert((s + more).subrange(i, i + part.len()) =~= part);
}

/// A text holds what it ends with.
pub proof fn holds_end(s: Seq<char>, part: Seq<char>)
    ensures
        holds(s + part, part),
{
    let i = s.len() as int;
    assert((s + part).subrange(i, i + part.len()) =~= part);
}

/// What a filter keeps was there before.
pub proof fn kept_was_there<A>(s: Seq<A>, keep: spec_fn(A) -> bool)
    ensures
        forall|i: int| 0 <= i < s.filter(keep).len() ==> s.contains(#[trigger] s.filter(keep)[i]),
        forall|i: int| 0 <= i < s.filter(keep).len() ==> keep(#[trigger] s.filter(keep)[i]),
    decreases s.len(),
{
    reveal(Seq::filter);
    if s.len() > 0 {
        let before = s.drop_last();
        kept_was_there(before, keep);
        assert forall|i: int| 0 <= i < s.filter(keep).len() implies s.contains(
            #[trigger] s.filter(keep)[i],
        ) by {
            if i < before.filter(keep).len() {
                assert(s.filter(keep)[i] == before.filter(keep)[i]);
                let k = choose|k: int| 0 <= k < before.len() && before[k] == s.filter(keep)[i];
                assert(s[k] == s.filter(keep)[i]);
            } else {
                assert(s[s.len() - 1] == s.last());
            }
        }
        assert forall|i: int| 0 <= i < s.filter(keep).len() implies keep(
            #[trigger] s.filter(keep)[i],
        ) by {
            if i < before.filter(keep).len() {
                assert(s.filter(keep)[i] == before.filter(keep)[i]);
            }
        }
    }
}

/// A filter that every item passes changes nothing.
pub proof fn filter_keeps_all<A>(s: Seq<A>, keep: spec_fn(A) -> bool)
    requires
        forall|i: int| 0 <= i < s.len() ==> keep(#[trigger] s[i]),
    ensures
        s.filter(keep) == s,
    decreases s.len(),
{
    reveal(Seq::filter);
    if s.len() > 0 {
        assert(keep(s[s.len() - 1]));
        assert forall|i: int| 0 <= i < s.drop_last().len() implies keep(
            #[trigger] s.drop_last()[i],
        ) by {
            assert(keep(s[i]));
        }
        filter_keeps_all(s.drop_last(), keep);
        assert(s.drop_last().push(s.last()) =~= s);
    }
}

/// Words that are joined by a separator, with white space after it, come apart
/// again at the separator.
pub proof fn pieces_of_joined(items: Seq<Seq<char>>, sep: char, gap: Seq<char>)
    requires
        items.len() > 0,
        forall|i: int| 0 <= i < gap.len() ==> is_white(#[trigger] gap[i]),
        !gap.contains(sep),
        forall|i: int| 0 <= i < items.len() ==> is_word(#[trigger] items[i]),
        forall|i: int| 0 <= i < items.len() ==> !(#[trigger] items[i]).contains(sep),
    ensures
        pieces(joined(items, seq![sep] + gap), sep).len() == items.len(),
        forall|i: int|
            0 <= i < items.len() ==> trimmed(
                #[trigger] pieces(joined(items, seq![sep] + gap), sep)[i],
            ) == items[i],
    decreases items.len(),
{
    let last = items.last();
    assert(last == items[items.len() - 1]);
    if items.len() == 1 {
        pieces_of_one(items[0], sep);
        trimmed_word(Seq::empty(), items[0]);
        assert(Seq::<char>::empty() + items[0] =~= items[0]);
    } else {
        let front = items.drop_last();
        assert forall|i: int| 0 <= i < front.len() implies is_word(#[trigger] front[i]) by {
            assert(is_word(items[i]));
        }
        assert forall|i: int| 0 <= i < front.len() implies !(#[trigger] front[i]).contains(
            sep,
        ) by {
            assert(!items[i].contains(sep));
        }
        pieces_of_joined(front, sep, gap);
        let before = joined(front, seq![sep] + gap);
        assert(joined(items, seq![sep] + gap) =~= before.push(sep) + (gap + last));
        assert(!(gap + last).contains(sep)) by {
            if (gap + last).contains(sep) {
                let k = choose|k: int| 0 <= k < (gap + last).len() && (gap + last)[k] == sep;
                if k < gap.len() {
                    assert(gap[k] == sep);
                } else {
                    assert(last[k - gap.len()] == sep);
                }
            }
        }
        pieces_append(before, sep, gap + last);
        trimmed_word(gap, last);
    }
}

// ── Laws ─────────────────────────────────────────────────────────────────

/// White space is the 25 characters that Unicode gives the property to.
pub proof fn white_space_is_these(c: char)
    ensures
        is_white(c) <==> (c as int == 0x20 || 0x9 <= c as int <= 0xd || c as int == 0x85 || c as int
            == 0xa0 || c as int == 0x1680 || 0x2000 <= c as int <= 0x200a || c as int == 0x2028
            || c as int == 0x2029 || c as int == 0x202f || c as int == 0x205f || c as int == 0x3000),
{
}

/// Whether every character of `s` is white space.
pub open spec fn all_white(s: Seq<char>) -> bool {
    forall|i: int| 0 <= i < s.len() ==> is_white(#[trigger] s[i])
}

/// Trimming takes white space off both ends and nothing else, and leaves none at
/// either.
pub proof fn trimmed_is_the_middle(s: Seq<char>)
    ensures
        exists|i: int, j: int|
            0 <= i <= j <= s.len() && trimmed(s) == #[trigger] s.subrange(i, j) && all_white(
                s.take(i),
            ) && all_white(s.skip(j)),
        trimmed(s).len() > 0 ==> !is_white(trimmed(s)[0]) && !is_white(trimmed(s).last()),
{
    trimmed_shape(s);
    trimmed_start_parts(s);
    let from = choose|i: int|
        0 <= i <= s.len() && trimmed_start(s) == #[trigger] s.skip(i) && all_white(s.take(i));
    let rest = s.skip(from);
    trimmed_end_parts(rest);
    let to = choose|j: int|
        0 <= j <= rest.len() && trimmed_end(rest) == #[trigger] rest.take(j) && all_white(
            rest.skip(j),
        );
    assert(rest.take(to) =~= s.subrange(from, from + to));
    assert(rest.skip(to) =~= s.skip(from + to));
}

proof fn trimmed_start_parts(s: Seq<char>)
    ensures
        exists|i: int|
            0 <= i <= s.len() && trimmed_start(s) == #[trigger] s.skip(i) && all_white(s.take(i)),
    decreases s.len(),
{
    if s.len() > 0 && is_white(s[0]) {
        let rest = s.drop_first();
        trimmed_start_parts(rest);
        let k = choose|i: int|
            0 <= i <= rest.len() && trimmed_start(rest) == #[trigger] rest.skip(i) && all_white(
                rest.take(i),
            );
        assert(rest.skip(k) =~= s.skip(k + 1));
        assert forall|i: int| 0 <= i < s.take(k + 1).len() implies is_white(
            #[trigger] s.take(k + 1)[i],
        ) by {
            if i > 0 {
                assert(s.take(k + 1)[i] == rest.take(k)[i - 1]);
            }
        }
    } else {
        assert(s.skip(0) =~= s);
        assert(all_white(s.take(0)));
    }
}

proof fn trimmed_end_parts(s: Seq<char>)
    ensures
        exists|j: int|
            0 <= j <= s.len() && trimmed_end(s) == #[trigger] s.take(j) && all_white(s.skip(j)),
    decreases s.len(),
{
    if s.len() > 0 && is_white(s.last()) {
        let rest = s.drop_last();
        trimmed_end_parts(rest);
        let k = choose|j: int|
            0 <= j <= rest.len() && trimmed_end(rest) == #[trigger] rest.take(j) && all_white(
                rest.skip(j),
            );
        assert(rest.take(k) =~= s.take(k));
        assert forall|i: int| 0 <= i < s.skip(k).len() implies is_white(
            #[trigger] s.skip(k)[i],
        ) by {
            if i < rest.skip(k).len() {
                assert(s.skip(k)[i] == rest.skip(k)[i]);
            } else {
                assert(s.skip(k)[i] == s.last());
            }
        }
    } else {
        assert(s.take(s.len() as int) =~= s);
        assert(all_white(s.skip(s.len() as int)));
    }
}

/// Nothing is left of a text exactly where it is white space throughout.
pub proof fn blank_is_white(s: Seq<char>)
    ensures
        trimmed(s).len() == 0 <==> all_white(s),
{
    trimmed_is_the_middle(s);
    let (i, j) = choose|i: int, j: int|
        0 <= i <= j <= s.len() && trimmed(s) == #[trigger] s.subrange(i, j) && all_white(s.take(i))
            && all_white(s.skip(j));
    if trimmed(s).len() == 0 {
        assert forall|k: int| 0 <= k < s.len() implies is_white(#[trigger] s[k]) by {
            if k < i {
                assert(s.take(i)[k] == s[k]);
            } else {
                assert(s.skip(j)[k - j] == s[k]);
            }
        }
    } else {
        assert(trimmed(s)[0] == s[i]);
    }
}

/// A joined list grows by the separator and the new item.
pub proof fn joined_grows(items: Seq<Seq<char>>, item: Seq<char>, sep: Seq<char>)
    ensures
        joined(Seq::empty(), sep) == Seq::<char>::empty(),
        joined(seq![item], sep) == item,
        items.len() > 0 ==> joined(items.push(item), sep) == joined(items, sep) + sep + item,
{
    assert(items.push(item).drop_last() =~= items);
}

/// The pieces of a text are what stands between the separators: none holds one,
/// and joined by it they are the text again.
pub proof fn pieces_make_the_text(s: Seq<char>, sep: char)
    ensures
        joined(pieces(s, sep), seq![sep]) == s,
        pieces(s, sep).len() > 0,
        forall|i: int|
            0 <= i < pieces(s, sep).len() ==> !(#[trigger] pieces(s, sep)[i]).contains(sep),
    decreases s.len(),
{
    pieces_shape(s, sep);
    if s.len() == 0 {
        assert(s =~= Seq::empty());
        joined_grows(Seq::empty(), Seq::empty(), seq![sep]);
        assert(joined(pieces(s, sep), seq![sep]) =~= s);
    } else {
        let before = pieces(s.drop_last(), sep);
        pieces_make_the_text(s.drop_last(), sep);
        assert(s =~= s.drop_last().push(s.last()));
        if s.last() == sep {
            joined_grows(before, Seq::empty(), seq![sep]);
            assert(joined(pieces(s, sep), seq![sep]) =~= s);
        } else {
            let grown = before.last().push(s.last());
            let front = before.drop_last();
            assert(before =~= front.push(before.last()));
            joined_grows(front, before.last(), seq![sep]);
            joined_grows(front, grown, seq![sep]);
            if front.len() == 0 {
                assert(before =~= seq![before.last()]);
                assert(pieces(s, sep) =~= seq![grown]);
            }
            assert(joined(pieces(s, sep), seq![sep]) =~= s);
        }
    }
}

/// A text in a column fills it, with spaces on the far side alone; a longer one
/// is kept whole.
pub proof fn columns_are_filled(s: Seq<char>, width: nat)
    ensures
        flush_left(s, width as int).len() == (if s.len() < width { width } else { s.len() }),
        flush_left(s, width as int).take(s.len() as int) == s,
        forall|i: int|
            s.len() <= i < width ==> #[trigger] flush_left(s, width as int)[i] == ' ',
        flush_right(s, width as int).len() == (if s.len() < width { width } else { s.len() }),
        flush_right(s, width as int).skip(flush_right(s, width as int).len() - s.len()) == s,
        forall|i: int|
            0 <= i < width - s.len() ==> #[trigger] flush_right(s, width as int)[i] == ' ',
{
    assert(flush_left(s, width as int).take(s.len() as int) =~= s);
    assert(flush_right(s, width as int).skip(flush_right(s, width as int).len() - s.len()) =~= s);
}

/// The widest item is at least as wide as each, and one of them is.
pub proof fn widest_is_the_largest(items: Seq<Seq<char>>)
    ensures
        forall|i: int| 0 <= i < items.len() ==> byte_len(#[trigger] items[i]) <= widest(items),
        items.len() > 0 ==> exists|i: int|
            0 <= i < items.len() && byte_len(#[trigger] items[i]) == widest(items),
        items.len() == 0 ==> widest(items) == 0,
    decreases items.len(),
{
    if items.len() > 0 {
        let front = items.drop_last();
        widest_is_the_largest(front);
        let last = items.len() - 1;
        assert(items[last] == items.last());
        assert forall|i: int| 0 <= i < items.len() implies byte_len(#[trigger] items[i]) <= widest(
            items,
        ) by {
            if i < last {
                assert(front[i] == items[i]);
            }
        }
        if widest(front) >= byte_len(items.last()) && front.len() > 0 {
            let k = choose|i: int|
                0 <= i < front.len() && byte_len(#[trigger] front[i]) == widest(front);
            assert(items[k] == front[k]);
        } else {
            assert(byte_len(items[last]) == widest(items));
        }
    }
}

/// A number in decimal notation reads back as the number, and begins with no
/// needless zero.
pub proof fn decimal_reads_back(n: nat)
    ensures
        is_digits(decimal(n)),
        digits_value(decimal(n)) == n,
        decimal(n)[0] == '0' ==> n == 0,
    decreases n,
{
    reveal_with_fuel(digits_value, 2);
    if n < 10 {
        assert(decimal(n).drop_last() =~= Seq::empty());
    } else {
        decimal_reads_back(n / 10);
        assert(decimal(n).drop_last() =~= decimal(n / 10));
        assert(decimal(n).last() == digit((n % 10) as int));
        assert(decimal(n)[0] == decimal(n / 10)[0]);
        assert forall|i: int| 0 <= i < decimal(n).len() implies '0' <= #[trigger] decimal(n)[i]
            <= '9' by {
            if i < decimal(n / 10).len() {
                assert(decimal(n)[i] == decimal(n / 10)[i]);
            }
        }
    }
}

/// A signed number in decimal notation reads back as the number.
pub proof fn signed_decimal_reads_back(n: i64)
    ensures
        integer_of(signed_decimal(n as int)) == Some(n),
{
    if n < 0 {
        let size = (-(n as int)) as nat;
        decimal_reads_back(size);
        assert((seq!['-'] + decimal(size)).drop_first() =~= decimal(size));
    } else {
        decimal_reads_back(n as nat);
    }
}

/// The number of line breaks in `s`.
pub open spec fn line_breaks(s: Seq<char>) -> nat {
    s.filter(|c: char| c == '\n').len()
}

/// A text has a line for each line break, and one more where something stands
/// after the last.
pub proof fn lines_are_counted(s: Seq<char>)
    ensures
        line_count(s) == line_breaks(s) + (if s.len() > 0 && s.last() != '\n' { 1int } else { 0 }),
{
    pieces_are_counted(s);
}

proof fn pieces_are_counted(s: Seq<char>)
    ensures
        pieces(s, '\n').len() == line_breaks(s) + 1,
        pieces(s, '\n').last().len() == 0 <==> s.len() == 0 || s.last() == '\n',
    decreases s.len(),
{
    reveal(Seq::filter);
    if s.len() > 0 {
        pieces_are_counted(s.drop_last());
    }
}

/// What stands in a text stands in any longer one that ends with it.
pub proof fn holds_behind(head: Seq<char>, s: Seq<char>, part: Seq<char>)
    requires
        holds(s, part),
    ensures
        holds(head + s, part),
{
    let i = choose|i: int|
        0 <= i <= s.len() - part.len() && #[trigger] s.subrange(i, i + part.len()) == part;
    let at = head.len() + i;
    assert((head + s).subrange(at, at + part.len()) =~= part);
}

/// What stands in a part of a text stands in the text.
pub proof fn holds_through(s: Seq<char>, middle: Seq<char>, part: Seq<char>)
    requires
        holds(s, middle),
        holds(middle, part),
    ensures
        holds(s, part),
{
    let i = choose|i: int|
        0 <= i <= s.len() - middle.len() && #[trigger] s.subrange(i, i + middle.len()) == middle;
    let j = choose|j: int|
        0 <= j <= middle.len() - part.len() && #[trigger] middle.subrange(j, j + part.len())
            == part;
    assert(s.subrange(i + j, i + j + part.len()) =~= middle.subrange(j, j + part.len()));
}

/// A text stands in itself, between any two others too.
pub proof fn holds_between(head: Seq<char>, part: Seq<char>, tail: Seq<char>)
    ensures
        holds(part, part),
        holds(head + part + tail, part),
{
    holds_end(Seq::empty(), part);
    assert(Seq::<char>::empty() + part =~= part);
    holds_end(head, part);
    holds_on(head + part, tail, part);
}

/// A joined list holds each of its items.
pub proof fn joined_holds_each(items: Seq<Seq<char>>, sep: Seq<char>, i: int)
    requires
        0 <= i < items.len(),
    ensures
        holds(joined(items, sep), items[i]),
    decreases items.len(),
{
    if items.len() == 1 {
        holds_between(Seq::empty(), items[0], Seq::empty());
    } else if i == items.len() - 1 {
        holds_end(joined(items.drop_last(), sep) + sep, items.last());
    } else {
        joined_holds_each(items.drop_last(), sep, i);
        let before = joined(items.drop_last(), sep);
        holds_on(before, sep, items[i]);
        holds_on(before + sep, items.last(), items[i]);
    }
}

/// What stands in a text without crossing a separator stands in one of its
/// pieces.
pub proof fn held_in_a_piece(s: Seq<char>, sep: char, part: Seq<char>)
    requires
        holds(s, part),
        !part.contains(sep),
    ensures
        exists|k: int| 0 <= k < pieces(s, sep).len() && holds(#[trigger] pieces(s, sep)[k], part),
    decreases s.len(),
{
    pieces_shape(s, sep);
    if part.len() == 0 {
        let first = pieces(s, sep)[0];
        assert(first.subrange(0, 0) =~= part);
        assert(holds(first, part));
    } else {
        let i = choose|i: int|
            0 <= i <= s.len() - part.len() && #[trigger] s.subrange(i, i + part.len()) == part;
        if i + part.len() == s.len() {
            tail_is_in_last_piece(s, sep, part.len() as int);
            let last = pieces(s, sep).last();
            let at = last.len() - part.len();
            assert(s.skip(s.len() - part.len()) =~= part);
            assert(last.subrange(at, at + part.len()) =~= part);
            assert(holds(pieces(s, sep)[pieces(s, sep).len() - 1], part));
        } else {
            let front = s.drop_last();
            assert(front.subrange(i, i + part.len()) =~= part);
            held_in_a_piece(front, sep, part);
            pieces_shape(front, sep);
            let before = pieces(front, sep);
            let k = choose|k: int| 0 <= k < before.len() && holds(#[trigger] before[k], part);
            if s.last() == sep || k < before.len() - 1 {
                assert(pieces(s, sep)[k] == before[k]);
            } else {
                holds_on(before[k], seq![s.last()], part);
                assert(before[k] + seq![s.last()] =~= pieces(s, sep)[k]);
            }
        }
    }
}

proof fn tail_is_in_last_piece(s: Seq<char>, sep: char, n: int)
    requires
        0 <= n <= s.len(),
        !s.skip(s.len() - n).contains(sep),
    ensures
        pieces(s, sep).len() > 0,
        pieces(s, sep).last().len() >= n,
        pieces(s, sep).last().skip(pieces(s, sep).last().len() - n) == s.skip(s.len() - n),
    decreases n,
{
    pieces_shape(s, sep);
    let tail = s.skip(s.len() - n);
    if n > 0 {
        let front = s.drop_last();
        assert(tail[n - 1] == s.last());
        assert(front.skip(front.len() - (n - 1)) =~= tail.drop_last());
        assert(!tail.drop_last().contains(sep)) by {
            if tail.drop_last().contains(sep) {
                let k = choose|k: int| 0 <= k < n - 1 && tail.drop_last()[k] == sep;
                assert(tail[k] == sep);
            }
        }
        tail_is_in_last_piece(front, sep, n - 1);
        let before = pieces(front, sep).last();
        let last = pieces(s, sep).last();
        assert(last == before.push(s.last()));
        assert(last.skip(last.len() - n) =~= before.skip(before.len() - (n - 1)).push(s.last()));
        assert(tail =~= tail.drop_last().push(s.last()));
    } else {
        assert(pieces(s, sep).last().skip(pieces(s, sep).last().len() as int) =~= tail);
    }
}

/// Strings are seen as they are, alone and in a list.
pub proof fn strings_are_seen_whole(items: Seq<String>, o: Option<String>)
    ensures
        texts(items).len() == items.len(),
        forall|i: int| 0 <= i < items.len() ==> #[trigger] texts(items)[i] == items[i]@,
        text_of(o) is Some <==> o is Some,
        o is Some ==> text_of(o)->0 == o->0@,
{
}

/// In kebab case a capital is a hyphen and its small letter, the first one without
/// the hyphen; everything else is kept.
pub proof fn kebab_grows(s: Seq<char>, c: char)
    ensures
        kebab(Seq::empty()) == Seq::<char>::empty(),
        !('A' <= c <= 'Z') ==> kebab(s.push(c)) == kebab(s).push(c),
        'A' <= c <= 'Z' && s.len() > 0 ==> kebab(s.push(c)) == kebab(s).push('-').push(
            ((c as u32) + 32) as char,
        ),
        'A' <= c <= 'Z' ==> kebab(seq![c]) == seq![((c as u32) + 32) as char],
{
    assert(s.push(c).drop_last() =~= s);
}

} // verus!
