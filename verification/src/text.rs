//! Character-level text operations with their mathematical models.
//!
//! Text is modelled as a `Seq<char>`, the view of `str` and `String`.

use vstd::prelude::*;

verus! {

/// The characters of `s`, in order.
pub fn chars_of(s: &str) -> (r: Vec<char>)
    ensures
        r@ == s@,
{
    let n = s.unicode_len();
    let mut r: Vec<char> = Vec::new();
    let mut i: usize = 0;
    while i < n
        invariant
            n == s@.len(),
            i <= n,
            r@ == s@.subrange(0, i as int),
        decreases n - i,
    {
        let c = s.get_char(i);
        r.push(c);
        i = i + 1;
    }
    assert(r@ =~= s@);
    r
}

// ---------------------------------------------------------------------------
// Substring search
// ---------------------------------------------------------------------------

/// `pat` occurs in `text` starting at position `i`.
pub open spec fn occurs_at(text: Seq<char>, pat: Seq<char>, i: int) -> bool {
    &&& 0 <= i
    &&& i + pat.len() <= text.len()
    &&& text.subrange(i, i + pat.len()) == pat
}

/// `pat` occurs somewhere in `text` (the empty text occurs everywhere).
pub open spec fn has_substring(text: Seq<char>, pat: Seq<char>) -> bool {
    exists|i: int| occurs_at(text, pat, i)
}

/// `i` is the position of the leftmost occurrence of `pat` in `text`.
pub open spec fn is_first_occurrence(text: Seq<char>, pat: Seq<char>, i: int) -> bool {
    &&& occurs_at(text, pat, i)
    &&& forall|j: int| 0 <= j < i ==> !occurs_at(text, pat, j)
}

fn matches_at(text: &Vec<char>, pat: &Vec<char>, i: usize) -> (r: bool)
    requires
        i + pat@.len() <= text@.len(),
    ensures
        r == occurs_at(text@, pat@, i as int),
{
    let m = pat.len();
    let n = text.len();
    let mut k: usize = 0;
    while k < m
        invariant
            m == pat@.len(),
            n == text@.len(),
            i + m <= text@.len(),
            k <= m,
            forall|t: int| 0 <= t < k ==> text@[i + t] == pat@[t],
        decreases m - k,
    {
        if text[i + k] != pat[k] {
            assert(text@.subrange(i as int, i + m)[k as int] != pat@[k as int]);
            return false;
        }
        k = k + 1;
    }
    assert(text@.subrange(i as int, i + m) =~= pat@);
    true
}

/// Position of the leftmost occurrence of `pat` in `text`, by characters.
pub fn find_chars(text: &Vec<char>, pat: &Vec<char>) -> (r: Option<usize>)
    ensures
        match r {
            Some(i) => is_first_occurrence(text@, pat@, i as int),
            None => !has_substring(text@, pat@),
        },
{
    let n = text.len();
    let m = pat.len();
    if m > n {
        assert forall|i: int| !occurs_at(text@, pat@, i) by {}
        return None;
    }
    let last = n - m;
    let mut i: usize = 0;
    while i < last
        invariant
            n == text@.len(),
            m == pat@.len(),
            last == n - m,
            i <= last,
            forall|j: int| 0 <= j < i ==> !occurs_at(text@, pat@, j),
        decreases last - i,
    {
        if matches_at(text, pat, i) {
            return Some(i);
        }
        i = i + 1;
    }
    if matches_at(text, pat, last) {
        return Some(last);
    }
    assert forall|j: int| !occurs_at(text@, pat@, j) by {
        if 0 <= j < i {
        }
    }
    None
}

/// Whether `pat` occurs in `text`.
pub fn contains_text(text: &str, pat: &str) -> (r: bool)
    ensures
        r == has_substring(text@, pat@),
{
    let t = chars_of(text);
    let p = chars_of(pat);
    match find_chars(&t, &p) {
        Some(_) => true,
        None => false,
    }
}

// ---------------------------------------------------------------------------
// Lower case
// ---------------------------------------------------------------------------

/// The Unicode lower-case mapping of a text, as std's `str::to_lowercase`
/// computes it.
pub uninterp spec fn lowercase(s: Seq<char>) -> Seq<char>;

/// Calls std's `str::to_lowercase`. The contract claims only that the result
/// is the lower-case mapping `lowercase` of the argument, a function of the
/// argument alone; what that mapping is character by character is not stated.
#[verifier::external_body]
pub(crate) fn to_lowercase(s: &str) -> (r: String)
    ensures
        r@ == lowercase(s@),
{
    s.to_lowercase()
}

// ---------------------------------------------------------------------------
// Decimal numbers
// ---------------------------------------------------------------------------

/// The character of the decimal digit `d` (`d < 10`).
pub open spec fn digit_char(d: nat) -> char {
    (d + 48) as char
}

/// The decimal digits of `n`, most significant first, without leading zeros.
pub open spec fn decimal_digits(n: nat) -> Seq<char>
    decreases n,
{
    if n < 10 {
        seq![digit_char(n)]
    } else {
        decimal_digits(n / 10).push(digit_char(n % 10))
    }
}

/// The decimal text of an integer: a minus sign before the digits of a
/// negative number.
pub open spec fn decimal_text(v: int) -> Seq<char> {
    if v < 0 {
        seq!['-'] + decimal_digits((-v) as nat)
    } else {
        decimal_digits(v as nat)
    }
}

fn digit_str(d: u64) -> (r: &'static str)
    requires
        d < 10,
    ensures
        r@ == seq![digit_char(d as nat)],
{
    proof {
        reveal_strlit("0");
        reveal_strlit("1");
        reveal_strlit("2");
        reveal_strlit("3");
        reveal_strlit("4");
        reveal_strlit("5");
        reveal_strlit("6");
        reveal_strlit("7");
        reveal_strlit("8");
        reveal_strlit("9");
    }
    if d == 0 {
        "0"
    } else if d == 1 {
        "1"
    } else if d == 2 {
        "2"
    } else if d == 3 {
        "3"
    } else if d == 4 {
        "4"
    } else if d == 5 {
        "5"
    } else if d == 6 {
        "6"
    } else if d == 7 {
        "7"
    } else if d == 8 {
        "8"
    } else {
        "9"
    }
}

fn append_digits(s: &mut String, n: u64)
    ensures
        final(s)@ == old(s)@ + decimal_digits(n as nat),
    decreases n,
{
    if n >= 10 {
        append_digits(s, n / 10);
    }
    s.append(digit_str(n % 10));
    assert(n >= 10 ==> (n as nat) / 10 == (n / 10) as nat);
}

/// The decimal text of `v`.
pub fn i32_to_text(v: i32) -> (r: String)
    ensures
        r@ == decimal_text(v as int),
{
    let mut s = String::new();
    if v < 0 {
        proof {
            reveal_strlit("-");
        }
        s.append("-");
        let w: i64 = -(v as i64);
        append_digits(&mut s, w as u64);
    } else {
        append_digits(&mut s, v as u64);
    }
    s
}

} // verus!

verus! {

// ---------------------------------------------------------------------------
// Lexicographic order
// ---------------------------------------------------------------------------

/// Lexicographic order of texts by character code: a proper prefix comes
/// first, otherwise the first differing character decides. (For UTF-8 text
/// this is the same order as that of the encoded bytes.)
pub open spec fn text_less(a: Seq<char>, b: Seq<char>) -> bool
    decreases a.len(),
{
    if a.len() == 0 {
        b.len() > 0
    } else if b.len() == 0 {
        false
    } else if a[0] != b[0] {
        (a[0] as u32) < (b[0] as u32)
    } else {
        text_less(a.drop_first(), b.drop_first())
    }
}

/// No text is less than itself.
pub proof fn lemma_text_less_irreflexive(a: Seq<char>)
    ensures
        !text_less(a, a),
    decreases a.len(),
{
    if a.len() > 0 {
        lemma_text_less_irreflexive(a.drop_first());
    }
}

/// The order is transitive.
pub proof fn lemma_text_less_transitive(a: Seq<char>, b: Seq<char>, c: Seq<char>)
    requires
        text_less(a, b),
        text_less(b, c),
    ensures
        text_less(a, c),
    decreases a.len(),
{
    if a.len() > 0 && b.len() > 0 && c.len() > 0 && a[0] == b[0] && b[0] == c[0] {
        lemma_text_less_transitive(a.drop_first(), b.drop_first(), c.drop_first());
    }
}

/// Of two different texts, exactly one is less than the other.
pub proof fn lemma_text_less_total(a: Seq<char>, b: Seq<char>)
    ensures
        a != b ==> (text_less(a, b) || text_less(b, a)),
        !(text_less(a, b) && text_less(b, a)),
    decreases a.len(),
{
    if a.len() > 0 && b.len() > 0 {
        lemma_text_less_total(a.drop_first(), b.drop_first());
        if a[0] == b[0] && a.drop_first() == b.drop_first() {
            assert(a =~= seq![a[0]] + a.drop_first());
            assert(b =~= seq![b[0]] + b.drop_first());
        }
        if a[0] != b[0] {
            vstd::utf8::char_u32_cast(a[0], a[0] as u32);
            vstd::utf8::char_u32_cast(b[0], b[0] as u32);
            assert((a[0] as u32) != (b[0] as u32));
        }
    } else if a.len() == 0 && b.len() == 0 {
        assert(a =~= b);
    }
}

/// How two values compare.
#[derive(PartialEq, Eq, Structural)]
pub enum Comparison {
    Less,
    Same,
    Greater,
}

/// Compares two texts in the order `text_less`.
pub fn compare_chars(a: &Vec<char>, b: &Vec<char>) -> (r: Comparison)
    ensures
        r == Comparison::Less <==> text_less(a@, b@),
        r == Comparison::Same <==> a@ == b@,
        r == Comparison::Greater <==> text_less(b@, a@),
{
    proof {
        lemma_text_less_total(a@, b@);
        lemma_text_less_irreflexive(a@);
    }
    let n = a.len();
    let m = b.len();
    let mut i: usize = 0;
    assert(a@.skip(0) =~= a@);
    assert(b@.skip(0) =~= b@);
    while i < n && i < m
        invariant
            n == a@.len(),
            m == b@.len(),
            i <= n,
            i <= m,
            a@.subrange(0, i as int) == b@.subrange(0, i as int),
            text_less(a@, b@) == text_less(a@.skip(i as int), b@.skip(i as int)),
            text_less(b@, a@) == text_less(b@.skip(i as int), a@.skip(i as int)),
        decreases n - i,
    {
        assert(a@.skip(i as int)[0] == a@[i as int]);
        assert(b@.skip(i as int)[0] == b@[i as int]);
        if a[i] != b[i] {
            assert(a@.skip(i as int)[0] != b@.skip(i as int)[0]);
            proof {
                vstd::utf8::char_u32_cast(a@[i as int], a@[i as int] as u32);
                vstd::utf8::char_u32_cast(b@[i as int], b@[i as int] as u32);
                assert((a@[i as int] as u32) != (b@[i as int] as u32));
            }
            if (a[i] as u32) < (b[i] as u32) {
                return Comparison::Less;
            } else {
                return Comparison::Greater;
            }
        }
        assert(a@.skip(i as int).drop_first() =~= a@.skip(i + 1));
        assert(b@.skip(i as int).drop_first() =~= b@.skip(i + 1));
        assert(a@.subrange(0, i + 1) =~= a@.subrange(0, i as int).push(a@[i as int]));
        assert(b@.subrange(0, i + 1) =~= b@.subrange(0, i as int).push(b@[i as int]));
        i = i + 1;
    }
    if i == n && i == m {
        assert(a@ =~= a@.subrange(0, i as int));
        assert(b@ =~= b@.subrange(0, i as int));
        Comparison::Same
    } else if i == n {
        assert(a@.skip(i as int).len() == 0);
        assert(b@.skip(i as int).len() > 0);
        Comparison::Less
    } else {
        assert(b@.skip(i as int).len() == 0);
        assert(a@.skip(i as int).len() > 0);
        Comparison::Greater
    }
}

} // verus!

verus! {

// ---------------------------------------------------------------------------
// Lengths, pieces, lines, replacement
// ---------------------------------------------------------------------------

/// The number of bytes of the UTF-8 encoding of a text, as a `usize` (what
/// `str::len` counts).
pub open spec fn utf8_len(s: Seq<char>) -> usize {
    vstd::utf8::encode_utf8(s).len() as usize
}

/// The number of bytes of the UTF-8 encoding of `s`.
pub fn byte_len(s: &str) -> (r: usize)
    ensures
        r == utf8_len(s@),
{
    s.len()
}

/// The characters of `s` from position `from` up to (not including) `to`.
pub fn piece(s: &str, from: usize, to: usize) -> (r: String)
    requires
        from <= to <= s@.len(),
    ensures
        r@ == s@.subrange(from as int, to as int),
{
    String::from_str(s.substring_char(from, to))
}

/// The lines of a text: the pieces between line feeds. A text without line
/// feed is one line; each line feed starts a new (possibly empty) line.
pub open spec fn lines_of(s: Seq<char>) -> Seq<Seq<char>>
    decreases s.len(),
{
    if s.len() == 0 {
        seq![Seq::<char>::empty()]
    } else {
        let before = lines_of(s.drop_last());
        if s.last() == '\n' {
            before.push(Seq::<char>::empty())
        } else {
            before.update(before.len() - 1, before.last().push(s.last()))
        }
    }
}

proof fn lemma_lines_of_not_empty(s: Seq<char>)
    ensures
        lines_of(s).len() >= 1,
    decreases s.len(),
{
    if s.len() > 0 {
        lemma_lines_of_not_empty(s.drop_last());
    }
}

/// The lines of `s`, as `lines_of` describes them.
pub fn split_lines(s: &str) -> (r: Vec<String>)
    ensures
        r@.map_values(|l: String| l@) == lines_of(s@),
{
    let cs = chars_of(s);
    let n = cs.len();
    let mut lines: Vec<String> = Vec::new();
    let mut start: usize = 0;
    let mut i: usize = 0;
    assert(s@.take(0) =~= Seq::<char>::empty());
    while i < n
        invariant
            n == s@.len(),
            cs@ == s@,
            start <= i <= n,
            lines@.map_values(|l: String| l@).push(s@.subrange(start as int, i as int)) == lines_of(
                s@.take(i as int),
            ),
        decreases n - i,
    {
        let ghost prev = s@.take(i as int);
        proof {
            lemma_lines_of_not_empty(prev);
            assert(s@.take(i + 1).drop_last() =~= prev);
            assert(s@.take(i + 1).last() == s@[i as int]);
        }
        if cs[i] == '\n' {
            let line = piece(s, start, i);
            lines.push(line);
            start = i + 1;
            assert(lines@.map_values(|l: String| l@) =~= lines_of(prev));
            assert(s@.subrange(start as int, start as int) =~= Seq::<char>::empty());
        } else {
            assert(s@.subrange(start as int, i + 1) =~= s@.subrange(start as int, i as int).push(
                s@[i as int],
            ));
            assert(lines@.map_values(|l: String| l@).push(s@.subrange(start as int, i + 1))
                =~= lines_of(prev).update(
                lines_of(prev).len() - 1,
                lines_of(prev).last().push(s@[i as int]),
            ));
        }
        i = i + 1;
    }
    let last = piece(s, start, n);
    lines.push(last);
    assert(s@.take(n as int) =~= s@);
    assert(lines@.map_values(|l: String| l@) =~= lines_of(s@));
    lines
}

/// A text with every `*` replaced by `name`.
pub open spec fn replace_stars(s: Seq<char>, name: Seq<char>) -> Seq<char>
    decreases s.len(),
{
    if s.len() == 0 {
        s
    } else {
        replace_stars(s.drop_last(), name) + if s.last() == '*' {
            name
        } else {
            seq![s.last()]
        }
    }
}

/// `mask` with every `*` replaced by `name`.
pub fn replace_star(mask: &str, name: &str) -> (r: String)
    ensures
        r@ == replace_stars(mask@, name@),
{
    let cs = chars_of(mask);
    let n = cs.len();
    let mut out = String::new();
    let mut i: usize = 0;
    assert(mask@.take(0) =~= Seq::<char>::empty());
    while i < n
        invariant
            n == mask@.len(),
            cs@ == mask@,
            i <= n,
            out@ == replace_stars(mask@.take(i as int), name@),
        decreases n - i,
    {
        proof {
            assert(mask@.take(i + 1).drop_last() =~= mask@.take(i as int));
            assert(mask@.take(i + 1).last() == mask@[i as int]);
        }
        if cs[i] == '*' {
            out.append(name);
        } else {
            out.append(mask.substring_char(i, i + 1));
            assert(mask@.subrange(i as int, i + 1) =~= seq![mask@[i as int]]);
        }
        i = i + 1;
    }
    assert(mask@.take(n as int) =~= mask@);
    out
}

} // verus!

verus! {

/// Lines joined back together with line feeds between them.
pub open spec fn join_lines(lines: Seq<Seq<char>>) -> Seq<char>
    decreases lines.len(),
{
    if lines.len() == 0 {
        Seq::<char>::empty()
    } else if lines.len() == 1 {
        lines[0]
    } else {
        join_lines(lines.drop_last()) + seq!['\n'] + lines.last()
    }
}

proof fn lemma_join_update_last(lines: Seq<Seq<char>>, c: char)
    requires
        lines.len() >= 1,
    ensures
        join_lines(lines.update(lines.len() - 1, lines.last().push(c))) == join_lines(lines).push(c),
{
    let updated = lines.update(lines.len() - 1, lines.last().push(c));
    if lines.len() == 1 {
    } else {
        assert(updated.drop_last() =~= lines.drop_last());
        assert(join_lines(updated) =~= join_lines(lines).push(c));
    }
}

/// Splitting a text into lines and joining them again gives the text back,
/// and no line holds a line feed.
pub proof fn law_lines_join_back(s: Seq<char>)
    ensures
        join_lines(lines_of(s)) == s,
        forall|j: int, k: int|
            0 <= j < lines_of(s).len() && 0 <= k < lines_of(s)[j].len() ==> #[trigger] lines_of(
                s,
            )[j][k] != '\n',
    decreases s.len(),
{
    if s.len() > 0 {
        let prev = s.drop_last();
        law_lines_join_back(prev);
        lemma_lines_of_not_empty(prev);
        let before = lines_of(prev);
        if s.last() == '\n' {
            assert(before.push(Seq::<char>::empty()).drop_last() =~= before);
            assert(join_lines(lines_of(s)) =~= s);
        } else {
            lemma_join_update_last(before, s.last());
            assert(s =~= prev.push(s.last()));
            let after = lines_of(s);
            assert forall|j: int, k: int|
                0 <= j < after.len() && 0 <= k < after[j].len() implies #[trigger] after[j][k]
                != '\n' by {
                if j == before.len() - 1 {
                    if k < before.last().len() {
                        assert(after[j][k] == before[j][k]);
                    }
                } else {
                    assert(after[j] == before[j]);
                }
            }
        }
    }
}

/// Replacing stars in a text that holds none leaves it as it is.
pub proof fn law_replace_without_star(s: Seq<char>, name: Seq<char>)
    requires
        !s.contains('*'),
    ensures
        replace_stars(s, name) == s,
    decreases s.len(),
{
    if s.len() > 0 {
        assert(!s.drop_last().contains('*')) by {
            if s.drop_last().contains('*') {
                let i = choose|i: int| 0 <= i < s.drop_last().len() && s.drop_last()[i] == '*';
                assert(s[i] == '*');
            }
        }
        law_replace_without_star(s.drop_last(), name);
        assert(s.last() == s[s.len() - 1]);
        assert(s =~= s.drop_last() + seq![s.last()]);
    }
}

} // verus!

verus! {

// ---------------------------------------------------------------------------
// Trimming and reading whole numbers
// ---------------------------------------------------------------------------

/// `c` has the Unicode White_Space property, as std's `char::is_whitespace`
/// says.
pub open spec fn is_white_space(c: char) -> bool {
    let u = c as u32;
    ||| 0x09 <= u <= 0x0D
    ||| u == 0x20
    ||| u == 0x85
    ||| u == 0xA0
    ||| u == 0x1680
    ||| 0x2000 <= u <= 0x200A
    ||| u == 0x2028
    ||| u == 0x2029
    ||| u == 0x202F
    ||| u == 0x205F
    ||| u == 0x3000
}

/// A text without its leading white space.
pub open spec fn trim_start_spec(s: Seq<char>) -> Seq<char>
    decreases s.len(),
{
    if s.len() > 0 && is_white_space(s[0]) {
        trim_start_spec(s.drop_first())
    } else {
        s
    }
}

/// A text without its trailing white space.
pub open spec fn trim_end_spec(s: Seq<char>) -> Seq<char>
    decreases s.len(),
{
    if s.len() > 0 && is_white_space(s.last()) {
        trim_end_spec(s.drop_last())
    } else {
        s
    }
}

/// A text without its leading and trailing white space (what `str::trim`
/// returns).
pub open spec fn trimmed(s: Seq<char>) -> Seq<char> {
    trim_end_spec(trim_start_spec(s))
}

fn white_space(c: char) -> (r: bool)
    ensures
        r == is_white_space(c),
{
    let u = c as u32;
    (0x09 <= u && u <= 0x0D) || u == 0x20 || u == 0x85 || u == 0xA0 || u == 0x1680 || (0x2000
        <= u && u <= 0x200A) || u == 0x2028 || u == 0x2029 || u == 0x202F || u == 0x205F || u
        == 0x3000
}

/// `s` without its leading and trailing white space.
pub fn trim_text(s: &str) -> (r: String)
    ensures
        r@ == trimmed(s@),
{
    let cs = chars_of(s);
    let n = cs.len();
    let mut i: usize = 0;
    assert(s@.subrange(0, n as int) =~= s@);
    while i < n && white_space(cs[i])
        invariant
            cs@ == s@,
            n == s@.len(),
            i <= n,
            trim_start_spec(s@) == trim_start_spec(s@.subrange(i as int, n as int)),
        decreases n - i,
    {
        assert(s@.subrange(i as int, n as int).drop_first() =~= s@.subrange(i + 1, n as int));
        i = i + 1;
    }
    let mut j: usize = n;
    assert(trim_start_spec(s@.subrange(i as int, n as int)) == s@.subrange(i as int, n as int));
    while j > i && white_space(cs[j - 1])
        invariant
            cs@ == s@,
            n == s@.len(),
            i <= j <= n,
            trimmed(s@) == trim_end_spec(s@.subrange(i as int, j as int)),
        decreases j - i,
    {
        assert(s@.subrange(i as int, j as int).drop_last() =~= s@.subrange(i as int, j - 1));
        j = j - 1;
    }
    piece(s, i, j)
}

/// `c` is an ASCII decimal digit.
pub open spec fn is_digit(c: char) -> bool {
    '0' <= c && c <= '9'
}

/// The number written by a sequence of decimal digits (zero for none).
pub open spec fn digits_value(s: Seq<char>) -> int
    decreases s.len(),
{
    if s.len() == 0 {
        0
    } else {
        digits_value(s.drop_last()) * 10 + (s.last() as int - 48)
    }
}

/// Every character of `s` is a decimal digit.
pub open spec fn all_digits(s: Seq<char>) -> bool {
    forall|i: int| 0 <= i < s.len() ==> is_digit(#[trigger] s[i])
}

/// A number text without its sign, if it has one.
pub open spec fn unsigned_part(s: Seq<char>) -> Seq<char> {
    if s.len() > 0 && (s[0] == '-' || s[0] == '+') {
        s.drop_first()
    } else {
        s
    }
}

/// The `i32` a text writes, read as std's `i32::from_str` reads it: an
/// optional `+` or `-`, then one or more decimal digits, and the value must
/// fit in an `i32`; anything else reads as nothing.
pub open spec fn i32_text_value(s: Seq<char>) -> Option<i32> {
    let body = unsigned_part(s);
    if body.len() == 0 || !all_digits(body) {
        None
    } else {
        let v = if s[0] == '-' {
            -digits_value(body)
        } else {
            digits_value(body)
        };
        if i32::MIN <= v <= i32::MAX {
            Some(v as i32)
        } else {
            None
        }
    }
}

proof fn lemma_digits_value_grows(s: Seq<char>, k: int)
    requires
        0 <= k <= s.len(),
        forall|i: int| 0 <= i < s.len() ==> is_digit(#[trigger] s[i]),
    ensures
        0 <= digits_value(s.take(k)) <= digits_value(s),
    decreases s.len() - k,
{
    if k < s.len() {
        lemma_digits_value_grows(s, k + 1);
        assert(s.take(k + 1).drop_last() =~= s.take(k));
        assert(is_digit(s[k]));
    } else {
        assert(s.take(k) =~= s);
        lemma_digits_value_nonnegative(s);
    }
}

proof fn lemma_digits_value_nonnegative(s: Seq<char>)
    requires
        forall|i: int| 0 <= i < s.len() ==> is_digit(#[trigger] s[i]),
    ensures
        digits_value(s) >= 0,
    decreases s.len(),
{
    if s.len() > 0 {
        assert(is_digit(s[s.len() - 1]));
        lemma_digits_value_nonnegative(s.drop_last());
    }
}

/// Reads the `i32` that `s` writes, as `i32_text_value` says.
pub fn parse_i32(s: &str) -> (r: Option<i32>)
    ensures
        r == i32_text_value(s@),
{
    let cs = chars_of(s);
    let n = cs.len();
    let negative = n > 0 && cs[0] == '-';
    let start: usize = if n > 0 && (cs[0] == '-' || cs[0] == '+') {
        1
    } else {
        0
    };
    let ghost body = unsigned_part(s@);
    assert(body =~= s@.subrange(start as int, n as int));
    if start == n {
        return None;
    }
    let limit: i64 = 2147483648;
    let mut acc: i64 = 0;
    let mut i: usize = start;
    assert(body.take(0) =~= Seq::<char>::empty());
    while i < n
        invariant
            cs@ == s@,
            n == s@.len(),
            start <= i <= n,
            body =~= s@.subrange(start as int, n as int),
            body == unsigned_part(s@),
            negative == (s@.len() > 0 && s@[0] == '-'),
            forall|t: int| 0 <= t < i - start ==> is_digit(#[trigger] body[t]),
            acc == digits_value(body.take(i - start)),
            0 <= acc <= limit,
            limit == 2147483648,
        decreases n - i,
    {
        let c = cs[i];
        if !('0' <= c && c <= '9') {
            assert(body[i - start] == c);
            assert(!is_digit(body[i - start]));
            assert(!all_digits(body));
            assert(i32_text_value(s@) is None);
            return None;
        }
        assert(body[i - start] == c);
        let d: i64 = (c as u32 - 48) as i64;
        assert(body.take(i - start + 1).drop_last() =~= body.take(i - start));
        acc = acc * 10 + d;
        i = i + 1;
        if acc > limit {
            proof {
                if all_digits(body) {
                    lemma_digits_value_grows(body, i - start);
                }
                assert(i32_text_value(s@) is None);
            }
            return None;
        }
    }
    assert(body.take(n - start) =~= body);
    if negative {
        Some((0 - acc) as i32)
    } else if acc <= 2147483647 {
        Some(acc as i32)
    } else {
        None
    }
}

} // verus!
