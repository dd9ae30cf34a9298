use vstd::prelude::*;
use vstd::string::*;
use crate::text_fmt::push_char;

verus! {

/// The character of a decimal digit.
pub open spec fn digit_char(d: int) -> char {
    if d == 0 { '0' }
    else if d == 1 { '1' }
    else if d == 2 { '2' }
    else if d == 3 { '3' }
    else if d == 4 { '4' }
    else if d == 5 { '5' }
    else if d == 6 { '6' }
    else if d == 7 { '7' }
    else if d == 8 { '8' }
    else { '9' }
}

/// Decimal text of a natural number, most significant digit first, no leading zeros.
pub open spec fn nat_decimal(n: nat) -> Seq<char>
    decreases n,
{
    if n < 10 {
        seq![digit_char(n as int)]
    } else {
        nat_decimal(n / 10) + seq![digit_char((n % 10) as int)]
    }
}

/// Decimal text of an integer, with a leading '-' for negative values.
pub open spec fn int_decimal(n: int) -> Seq<char> {
    if n < 0 {
        seq!['-'] + nat_decimal((-n) as nat)
    } else {
        nat_decimal(n as nat)
    }
}

fn digit_to_char(d: u64) -> (c: char)
    requires
        d < 10,
    ensures
        c == digit_char(d as int),
{
    if d == 0 { '0' }
    else if d == 1 { '1' }
    else if d == 2 { '2' }
    else if d == 3 { '3' }
    else if d == 4 { '4' }
    else if d == 5 { '5' }
    else if d == 6 { '6' }
    else if d == 7 { '7' }
    else if d == 8 { '8' }
    else { '9' }
}

/// Appends the decimal text of `n` to `s`.
pub fn append_nat_decimal(s: &mut String, n: u64)
    ensures
        final(s)@ == old(s)@ + nat_decimal(n as nat),
    decreases n,
{
    if n >= 10 {
        append_nat_decimal(s, n / 10);
    }
    let c = digit_to_char(n % 10);
    push_char(s, c);
    proof {
        if n >= 10 {
            assert(old(s)@ + nat_decimal(n as nat) =~= old(s)@ + nat_decimal((n / 10) as nat) + seq![c]);
        } else {
            assert(old(s)@ + nat_decimal(n as nat) =~= old(s)@.push(c));
        }
    }
}

/// Appends the decimal text of `n` (with a '-' when negative) to `s`.
pub fn append_i32_decimal(s: &mut String, n: i32)
    ensures
        final(s)@ == old(s)@ + int_decimal(n as int),
{
    if n < 0 {
        push_char(s, '-');
        let m: i64 = -(n as i64);
        append_nat_decimal(s, m as u64);
        assert(old(s)@ + int_decimal(n as int) =~= old(s)@.push('-') + nat_decimal(m as nat));
    } else {
        append_nat_decimal(s, n as u64);
    }
}

/// Unicode white space, as `char::is_whitespace` classifies it.
pub open spec fn is_white_space(c: char) -> bool {
    ||| c == ' ' || c == '\t' || c == '\n' || c == '\u{0B}' || c == '\u{0C}' || c == '\r'
    ||| c == '\u{85}' || c == '\u{A0}' || c == '\u{1680}'
    ||| ('\u{2000}' <= c && c <= '\u{200A}')
    ||| c == '\u{2028}' || c == '\u{2029}' || c == '\u{202F}' || c == '\u{205F}' || c == '\u{3000}'
}

pub(crate) fn char_is_white_space(c: char) -> (b: bool)
    ensures
        b == is_white_space(c),
{
    c == ' ' || c == '\t' || c == '\n' || c == '\u{0B}' || c == '\u{0C}' || c == '\r'
        || c == '\u{85}' || c == '\u{A0}' || c == '\u{1680}'
        || ('\u{2000}' <= c && c <= '\u{200A}')
        || c == '\u{2028}' || c == '\u{2029}' || c == '\u{202F}' || c == '\u{205F}' || c == '\u{3000}'
}

/// The words of a text: its maximal runs of characters that are not white space, in order.
pub open spec fn words(s: Seq<char>) -> Seq<Seq<char>>
    decreases s.len(),
{
    if s.len() == 0 {
        Seq::empty()
    } else {
        let w = words(s.drop_last());
        let c = s.last();
        if is_white_space(c) {
            w
        } else if s.len() >= 2 && !is_white_space(s[s.len() - 2]) {
            w.update(w.len() - 1, w.last().push(c))
        } else {
            w.push(seq![c])
        }
    }
}

/// The pieces joined with `sep` between consecutive pieces.
pub open spec fn join(pieces: Seq<Seq<char>>, sep: Seq<char>) -> Seq<char>
    decreases pieces.len(),
{
    if pieces.len() == 0 {
        Seq::empty()
    } else if pieces.len() == 1 {
        pieces[0]
    } else {
        join(pieces.drop_last(), sep) + sep + pieces.last()
    }
}

proof fn lemma_words_nonempty_after_word(s: Seq<char>)
    requires
        s.len() >= 1,
        !is_white_space(s.last()),
    ensures
        words(s).len() >= 1,
        words(s).last().len() >= 1,
    decreases s.len(),
{
    if s.len() >= 2 && !is_white_space(s[s.len() - 2]) {
        let t = s.drop_last();
        assert(t.last() == s[s.len() - 2]);
        lemma_words_nonempty_after_word(t);
    }
}

pub(crate) proof fn lemma_join_push(w: Seq<Seq<char>>, x: Seq<char>, sep: Seq<char>)
    ensures
        join(w.push(x), sep) == if w.len() == 0 { x } else { join(w, sep) + sep + x },
{
    assert(w.push(x).drop_last() =~= w);
}

proof fn lemma_join_extend_last(w: Seq<Seq<char>>, c: char, sep: Seq<char>)
    requires
        w.len() >= 1,
    ensures
        join(w.update(w.len() - 1, w.last().push(c)), sep) == join(w, sep).push(c),
{
    let u = w.update(w.len() - 1, w.last().push(c));
    if w.len() == 1 {
        assert(u[0] == w[0].push(c));
    } else {
        assert(u.drop_last() =~= w.drop_last());
        assert(join(u, sep) =~= join(w, sep).push(c));
    }
}

/// Collapses a log message onto one line: every run of white space (line breaks
/// included) becomes a single space, and leading and trailing white space is dropped.
pub fn format_log_message(s: &str) -> (res: String)
    ensures
        res@ == join(words(s@), seq![' ']),
{
    let n = s.unicode_len();
    let mut res = String::new();
    let mut i: usize = 0;
    let mut prev_word = false;
    while i < n
        invariant
            n == s@.len(),
            i <= n,
            res@ == join(words(s@.take(i as int)), seq![' ']),
            prev_word == (i >= 1 && !is_white_space(s@[i - 1])),
            prev_word ==> words(s@.take(i as int)).len() >= 1,
            res@.len() == 0 <==> words(s@.take(i as int)).len() == 0,
        decreases n - i,
    {
        let c = s.get_char(i);
        let ghost pre = s@.take(i as int);
        let ghost cur = s@.take(i + 1);
        assert(cur.drop_last() =~= pre);
        assert(cur.last() == c);
        proof {
            if i >= 1 {
                assert(cur[cur.len() - 2] == s@[i - 1]);
            }
        }
        if char_is_white_space(c) {
            prev_word = false;
        } else {
            if prev_word {
                proof { lemma_join_extend_last(words(pre), c, seq![' ']); }
                push_char(&mut res, c);
            } else {
                proof { lemma_join_push(words(pre), seq![c], seq![' ']); }
                if res.unicode_len() > 0 {
                    push_char(&mut res, ' ');
                }
                push_char(&mut res, c);
                proof {
                    if words(pre).len() != 0 {
                        assert(join(words(pre), seq![' ']) + seq![' '] + seq![c] =~= res@);
                    } else {
                        assert(res@ =~= seq![c]);
                    }
                }
            }
            prev_word = true;
            proof {
                lemma_words_nonempty_after_word(cur);
                lemma_join_nonempty(words(cur), seq![' ']);
            }
        }
        i = i + 1;
    }
    assert(s@.take(n as int) =~= s@);
    res
}

proof fn lemma_join_nonempty(w: Seq<Seq<char>>, sep: Seq<char>)
    requires
        w.len() >= 1,
        w.last().len() >= 1,
    ensures
        join(w, sep).len() >= 1,
{
}

} // verus!

verus! {

/// A decimal digit character.
pub open spec fn is_digit(c: char) -> bool {
    '0' <= c && c <= '9'
}

/// The value of a run of decimal digits.
pub open spec fn digits_value(d: Seq<char>) -> int
    decreases d.len(),
{
    if d.len() == 0 {
        0
    } else {
        digits_value(d.drop_last()) * 10 + (d.last() as int - '0' as int)
    }
}

/// The digits of an integer text: the text after an optional leading sign.
pub open spec fn unsigned_part(s: Seq<char>) -> Seq<char> {
    if s.len() > 0 && (s[0] == '-' || s[0] == '+') { s.drop_first() } else { s }
}

/// What parsing text as an `i32` gives: an optional '+' or '-', then one or more
/// decimal digits and nothing else, with a value that fits in an `i32`.
pub open spec fn parse_i32(s: Seq<char>) -> Option<int> {
    let d = unsigned_part(s);
    if d.len() == 0 || !(forall|i: int| 0 <= i < d.len() ==> is_digit(#[trigger] d[i])) {
        None
    } else {
        let v = if s[0] == '-' { -digits_value(d) } else { digits_value(d) };
        if i32::MIN <= v <= i32::MAX { Some(v) } else { None }
    }
}

proof fn lemma_digit_char_value(d: int)
    requires
        0 <= d < 10,
    ensures
        is_digit(digit_char(d)),
        digit_char(d) as int - '0' as int == d,
{
}

proof fn lemma_nat_decimal_digits(n: nat)
    ensures
        nat_decimal(n).len() >= 1,
        forall|i: int| 0 <= i < nat_decimal(n).len() ==> is_digit(#[trigger] nat_decimal(n)[i]),
        digits_value(nat_decimal(n)) == n,
    decreases n,
{
    if n < 10 {
        lemma_digit_char_value(n as int);
        let d = nat_decimal(n);
        assert(d.drop_last() =~= Seq::<char>::empty());
        assert(digits_value(d) == digits_value(d.drop_last()) * 10 + (d.last() as int - '0' as int));
        assert(digits_value(d.drop_last()) == 0);
    } else {
        lemma_nat_decimal_digits(n / 10);
        lemma_digit_char_value((n % 10) as int);
        let d = nat_decimal(n);
        assert(d.drop_last() =~= nat_decimal(n / 10));
        assert((n / 10) * 10 + n % 10 == n) by (nonlinear_arith);
        assert(digits_value(d) == digits_value(d.drop_last()) * 10 + (d.last() as int - '0' as int));
        assert(digits_value(d.drop_last()) == n / 10);
        assert(d.last() == digit_char((n % 10) as int));
        assert forall|i: int| 0 <= i < d.len() implies is_digit(#[trigger] d[i]) by {
            if i < d.len() - 1 {
                assert(d[i] == nat_decimal(n / 10)[i]);
            }
        }
    }
}

/// Parsing the decimal text of an `i32` gives the number back.
pub proof fn lemma_parse_int_decimal(n: int)
    requires
        i32::MIN <= n <= i32::MAX,
    ensures
        parse_i32(int_decimal(n)) == Some(n),
{
    let s = int_decimal(n);
    if n < 0 {
        lemma_nat_decimal_digits((-n) as nat);
        assert(unsigned_part(s) =~= nat_decimal((-n) as nat));
    } else {
        lemma_nat_decimal_digits(n as nat);
        assert(is_digit(s[0]));
        assert(unsigned_part(s) =~= s);
    }
}

proof fn lemma_digits_value_monotone(d: Seq<char>, k: int)
    requires
        0 <= k <= d.len(),
        forall|i: int| 0 <= i < d.len() ==> is_digit(#[trigger] d[i]),
    ensures
        0 <= digits_value(d.take(k)) <= digits_value(d),
    decreases d.len(),
{
    if d.len() > 0 {
        if k == d.len() {
            assert(d.take(k) =~= d);
            lemma_digits_value_monotone(d.drop_last(), d.len() - 1);
            assert(d.drop_last().take(d.len() - 1) =~= d.drop_last());
        } else {
            lemma_digits_value_monotone(d.drop_last(), k);
            assert(d.drop_last().take(k) =~= d.take(k));
            lemma_digits_value_monotone(d.drop_last(), d.len() - 1);
            assert(d.drop_last().take(d.len() - 1) =~= d.drop_last());
            assert(is_digit(d[d.len() - 1]));
        }
    }
}

/// Parses text as an `i32` the way `str::parse::<i32>` does: an optional '+' or
/// '-', then decimal digits only; `None` for anything else or a value out of range.
pub fn parse_i32_text(s: &str) -> (res: Option<i32>)
    ensures
        res matches Some(v) ==> parse_i32(s@) == Some(v as int),
        res is None ==> parse_i32(s@) is None,
{
    let n = s.unicode_len();
    if n == 0 {
        return None;
    }
    let first = s.get_char(0);
    let neg = first == '-';
    let start: usize = if first == '-' || first == '+' { 1 } else { 0 };
    let ghost d = unsigned_part(s@);
    assert(d =~= s@.subrange(start as int, n as int));
    if start == n {
        return None;
    }
    let mut acc: i64 = 0;
    let mut i: usize = start;
    while i < n
        invariant
            n == s@.len(),
            start <= i <= n,
            start < n,
            d == s@.subrange(start as int, n as int),
            d == unsigned_part(s@),
            neg == (s@[0] == '-'),
            forall|j: int| 0 <= j < i - start ==> is_digit(#[trigger] d[j]),
            acc == digits_value(d.take(i - start)),
            0 <= acc <= 2147483648,
        decreases n - i,
    {
        let c = s.get_char(i);
        assert(d[i - start] == c);
        if !('0' <= c && c <= '9') {
            assert(!is_digit(d[i - start]));
            return None;
        }
        let digit: i64 = (c as u32 - '0' as u32) as i64;
        let ghost pre = d.take(i - start);
        let ghost cur = d.take(i - start + 1);
        assert(cur.drop_last() =~= pre);
        assert(cur.last() == c);
        assert(digits_value(cur) == acc * 10 + digit);
        acc = acc * 10 + digit;
        i = i + 1;
        if acc > 2147483648 {
            proof {
                if forall|j: int| 0 <= j < d.len() ==> is_digit(#[trigger] d[j]) {
                    lemma_digits_value_monotone(d, i - start);
                }
            }
            return None;
        }
    }
    assert(d.take(n - start) =~= d);
    let v: i64 = if neg { -acc } else { acc };
    if v > 2147483647 {
        return None;
    }
    Some(v as i32)
}

/// The number of bytes of a character in UTF-8.
pub open spec fn utf8_width(c: char) -> nat {
    let v = c as u32;
    if v <= 0x7F { 1 } else if v <= 0x7FF { 2 } else if v <= 0xFFFF { 3 } else { 4 }
}

/// The number of bytes of a text in UTF-8.
pub open spec fn utf8_len(s: Seq<char>) -> nat
    decreases s.len(),
{
    if s.len() == 0 { 0 } else { utf8_len(s.drop_last()) + utf8_width(s.last()) }
}

/// Byte `b` of a text's UTF-8 encoding falls between two characters.
pub open spec fn byte_boundary(s: Seq<char>, b: int) -> bool {
    exists|k: int| 0 <= k <= s.len() && #[trigger] utf8_len(s.take(k)) == b
}

/// The number of characters that make up the first `b` bytes of a text.
pub open spec fn chars_in_bytes(s: Seq<char>, b: int) -> int {
    choose|k: int| 0 <= k <= s.len() && #[trigger] utf8_len(s.take(k)) == b
}

/// The text cut short: its first `keep` bytes, "...", and its last `keep` bytes.
pub open spec fn shortened(s: Seq<char>, keep: int) -> Seq<char> {
    s.take(chars_in_bytes(s, keep)) + "..."@ + s.skip(chars_in_bytes(s, utf8_len(s) - keep))
}

/// The bytes of longer prefixes are more.
proof fn lemma_utf8_len_grows(s: Seq<char>, k: int, k2: int)
    requires
        0 <= k < k2 <= s.len(),
    ensures
        utf8_len(s.take(k)) < utf8_len(s.take(k2)),
    decreases k2 - k,
{
    assert(s.take(k2).drop_last() =~= s.take(k2 - 1));
    if k < k2 - 1 {
        lemma_utf8_len_grows(s, k, k2 - 1);
    }
}

/// The prefix that holds `b` bytes is the one the text is cut at.
proof fn lemma_chars_in_bytes(s: Seq<char>, b: int, k: int)
    requires
        0 <= k <= s.len(),
        utf8_len(s.take(k)) == b,
    ensures
        chars_in_bytes(s, b) == k,
{
    let c = chars_in_bytes(s, b);
    assert(0 <= c <= s.len() && utf8_len(s.take(c)) == b);
    if c < k {
        lemma_utf8_len_grows(s, c, k);
    } else if k < c {
        lemma_utf8_len_grows(s, k, c);
    }
}

/// The UTF-8 width of a character.
fn char_width(c: char) -> (w: usize)
    ensures
        w == utf8_width(c),
{
    let v = c as u32;
    if v <= 0x7F { 1 } else if v <= 0x7FF { 2 } else if v <= 0xFFFF { 3 } else { 4 }
}

/// The number of characters that make up the first `b` bytes of `s`, counted from the
/// prefix of `from` characters and `acc` bytes.
fn chars_up_to(s: &str, n: usize, from: usize, acc: usize, b: usize) -> (k: usize)
    requires
        n == s@.len(),
        from <= n,
        acc == utf8_len(s@.take(from as int)),
        acc <= b,
        byte_boundary(s@, b as int),
    ensures
        from <= k <= n,
        utf8_len(s@.take(k as int)) == b,
{
    let mut i = from;
    let mut bytes = acc;
    while bytes < b
        invariant
            n == s@.len(),
            from <= i <= n,
            bytes == utf8_len(s@.take(i as int)),
            bytes <= b,
            byte_boundary(s@, b as int),
        decreases n - i,
    {
        proof {
            let k = choose|k: int| 0 <= k <= s@.len() && #[trigger] utf8_len(s@.take(k)) == b;
            if k <= i {
                if k < i { lemma_utf8_len_grows(s@, k, i as int); }
            }
            assert(i < n);
            assert(s@.take(i as int + 1).drop_last() =~= s@.take(i as int));
            if k > i + 1 { lemma_utf8_len_grows(s@, i as int + 1, k); }
        }
        let w = char_width(s.get_char(i));
        bytes = bytes + w;
        i = i + 1;
    }
    i
}

/// The number of bytes of a text in UTF-8.
pub fn text_utf8_len(s: &str) -> (res: usize)
    requires
        utf8_len(s@) <= usize::MAX,
    ensures
        res == utf8_len(s@),
{
    let n = s.unicode_len();
    let mut i: usize = 0;
    let mut bytes: usize = 0;
    while i < n
        invariant
            n == s@.len(),
            i <= n,
            bytes == utf8_len(s@.take(i as int)),
            utf8_len(s@) <= usize::MAX,
        decreases n - i,
    {
        assert(s@.take(i as int + 1).drop_last() =~= s@.take(i as int));
        proof {
            assert(s@.take(n as int) =~= s@);
            if i + 1 < n { lemma_utf8_len_grows(s@, i as int + 1, n as int); }
        }
        let w = char_width(s.get_char(i));
        bytes = bytes + w;
        i = i + 1;
    }
    assert(s@.take(n as int) =~= s@);
    bytes
}

/// The text cut short to its first and last `keep` bytes around "...". Slicing a text
/// inside a character panics, which `requires` leaves out.
pub fn shorten(s: &str, keep: usize) -> (res: String)
    requires
        utf8_len(s@) <= usize::MAX,
        2 * keep <= utf8_len(s@),
        byte_boundary(s@, keep as int),
        byte_boundary(s@, utf8_len(s@) - keep),
    ensures
        res@ == shortened(s@, keep as int),
{
    let n = s.unicode_len();
    let total = text_utf8_len(s);
    assert(s@.take(0) =~= Seq::<char>::empty());
    let k1 = chars_up_to(s, n, 0, 0, keep);
    let k2 = chars_up_to(s, n, k1, keep, total - keep);
    proof {
        lemma_chars_in_bytes(s@, keep as int, k1 as int);
        lemma_chars_in_bytes(s@, total - keep, k2 as int);
    }
    let mut res = s.substring_char(0, k1).to_string();
    append_str_text(&mut res, "...");
    append_str_text(&mut res, s.substring_char(k2, n));
    assert(res@ =~= shortened(s@, keep as int));
    res
}

/// Appends a string slice to a string.
pub(crate) fn append_str_text(s: &mut String, t: &str)
    ensures
        final(s)@ == old(s)@ + t@,
{
    s.append(t);
}

/// Whether two texts are the same.
pub(crate) fn same_text(a: &str, b: &str) -> (res: bool)
    ensures
        res == (a@ == b@),
{
    let n = a.unicode_len();
    if n != b.unicode_len() {
        return false;
    }
    let mut i: usize = 0;
    while i < n
        invariant
            n == a@.len(),
            n == b@.len(),
            i <= n,
            forall|k: int| 0 <= k < i ==> a@[k] == b@[k],
        decreases n - i,
    {
        if a.get_char(i) != b.get_char(i) {
            return false;
        }
        i = i + 1;
    }
    assert(a@ =~= b@);
    true
}

/// Whether a text has at least `k` bytes in UTF-8.
pub fn bytes_at_least(s: &str, k: usize) -> (res: bool)
    ensures
        res == (utf8_len(s@) >= k),
{
    if k == 0 {
        return true;
    }
    let n = s.unicode_len();
    let mut i: usize = 0;
    let mut bytes: usize = 0;
    while i < n
        invariant
            n == s@.len(),
            i <= n,
            bytes == utf8_len(s@.take(i as int)),
            bytes < k,
        decreases n - i,
    {
        assert(s@.take(i as int + 1).drop_last() =~= s@.take(i as int));
        let w = char_width(s.get_char(i));
        if w >= k - bytes {
            proof {
                if i + 1 < n {
                    lemma_utf8_len_grows(s@, i as int + 1, n as int);
                }
                assert(s@.take(n as int) =~= s@);
            }
            return true;
        }
        bytes = bytes + w;
        i = i + 1;
    }
    assert(s@.take(n as int) =~= s@);
    false
}

/// A word: a non-empty run of characters that are not white space.
pub open spec fn is_word(w: Seq<char>) -> bool {
    w.len() > 0 && forall|i: int| 0 <= i < w.len() ==> !is_white_space(#[trigger] w[i])
}

proof fn lemma_words_are_words(s: Seq<char>)
    ensures
        forall|k: int| 0 <= k < words(s).len() ==> is_word(#[trigger] words(s)[k]),
    decreases s.len(),
{
    if s.len() > 0 {
        lemma_words_are_words(s.drop_last());
        let w = words(s.drop_last());
        let c = s.last();
        if !is_white_space(c) && s.len() >= 2 && !is_white_space(s[s.len() - 2]) {
            lemma_words_nonempty_after_word(s.drop_last());
            assert forall|k: int| 0 <= k < words(s).len() implies is_word(#[trigger] words(s)[k]) by {
                if k == w.len() - 1 {
                    let x = w.last().push(c);
                    assert forall|i: int| 0 <= i < x.len() implies !is_white_space(#[trigger] x[i]) by {
                        if i < w.last().len() {
                            assert(x[i] == w.last()[i]);
                        }
                    }
                }
            }
        } else if !is_white_space(c) {
            assert forall|k: int| 0 <= k < words(s).len() implies is_word(#[trigger] words(s)[k]) by {
                if k == w.len() {
                    assert(seq![c][0] == c);
                }
            }
        }
    }
}

proof fn lemma_words_after_space(s: Seq<char>, w: Seq<char>)
    requires
        s.len() == 0 || is_white_space(s.last()),
        is_word(w),
    ensures
        words(s + w) == words(s).push(w),
    decreases w.len(),
{
    if w.len() == 1 {
        assert((s + w).drop_last() =~= s);
        assert(w =~= seq![w[0]]);
        if s.len() > 0 {
            assert((s + w)[(s + w).len() - 2] == s.last());
        }
    } else {
        let v = w.drop_last();
        assert(v[v.len() - 1] == w[w.len() - 2]);
        lemma_words_after_space(s, v);
        assert((s + w).drop_last() =~= s + v);
        assert((s + w)[(s + w).len() - 2] == w[w.len() - 2]);
        assert(v.push(w.last()) =~= w);
        assert(words(s).push(v).update(words(s).len() as int, v.push(w.last())) =~= words(s).push(w));
    }
}

proof fn lemma_words_of_joined(ws: Seq<Seq<char>>)
    requires
        forall|k: int| 0 <= k < ws.len() ==> is_word(#[trigger] ws[k]),
    ensures
        words(join(ws, seq![' '])) == ws,
    decreases ws.len(),
{
    if ws.len() == 0 {
        assert(words(join(ws, seq![' '])) =~= ws);
    } else if ws.len() == 1 {
        assert(is_word(ws[0]));
        lemma_words_after_space(Seq::empty(), ws[0]);
        assert(Seq::<char>::empty() + ws[0] =~= ws[0]);
        assert(Seq::<Seq<char>>::empty().push(ws[0]) =~= ws);
    } else {
        let p = ws.drop_last();
        assert forall|k: int| 0 <= k < p.len() implies is_word(#[trigger] p[k]) by {
            assert(p[k] == ws[k]);
        }
        lemma_words_of_joined(p);
        let a = join(p, seq![' ']).push(' ');
        assert(words(a) == words(join(p, seq![' ']))) by {
            assert(a.drop_last() =~= join(p, seq![' ']));
        }
        assert(is_word(ws[ws.len() - 1]));
        lemma_words_after_space(a, ws.last());
        assert(join(ws, seq![' ']) =~= a + ws.last());
        assert(p.push(ws.last()) =~= ws);
    }
}

/// Collapsing a message a second time changes nothing: the collapsed message has the
/// same words, one space apart.
pub proof fn lemma_format_log_message_idempotent(s: Seq<char>)
    ensures
        join(words(join(words(s), seq![' '])), seq![' ']) == join(words(s), seq![' ']),
{
    lemma_words_are_words(s);
    lemma_words_of_joined(words(s));
}

} // verus!
