use vstd::prelude::*;
use vstd::string::{StringExecFns, StringSliceAdditionalSpecFns};

verus! {

/// The lower-case form of a text, as the standard library gives it.
pub uninterp spec fn lowercased(text: Seq<char>) -> Seq<char>;

/// The text without the white space at its start and at its end, as the
/// standard library takes it off.
pub uninterp spec fn trimmed(text: Seq<char>) -> Seq<char>;

/// Calls `str::to_lowercase`. The contract gives its result the name
/// `lowercased`; nothing else is claimed of it.
#[verifier::external_body]
pub(crate) fn to_lowercase(text: &str) -> (r: String)
    ensures
        r@ == lowercased(text@),
{
    text.to_lowercase()
}

/// Calls `str::trim`. The contract gives its result the name `trimmed`;
/// nothing else is claimed of it.
#[verifier::external_body]
pub(crate) fn trim(text: &str) -> (r: &str)
    ensures
        r@ == trimmed(text@),
{
    text.trim()
}

/// The number of bytes that the text takes in UTF-8.
pub open spec fn byte_len(text: Seq<char>) -> nat {
    vstd::utf8::encode_utf8(text).len()
}

/// The number of bytes that the text takes in UTF-8.
pub fn str_byte_len(text: &str) -> (r: usize)
    ensures
        r == byte_len(text@),
{
    text.as_bytes().len()
}

/// The characters of each text of a sequence.
pub open spec fn string_views(texts: Seq<String>) -> Seq<Seq<char>> {
    Seq::new(texts.len(), |i: int| texts[i]@)
}

/// Whether two texts hold the same characters.
pub fn str_eq(a: &str, b: &str) -> (r: bool)
    ensures
        r == (a@ == b@),
{
    let left = String::from_str(a);
    let right = String::from_str(b);
    left == right
}

/// The character of a decimal digit.
pub open spec fn digit_char(digit: nat) -> char {
    if digit == 0 {
        '0'
    } else if digit == 1 {
        '1'
    } else if digit == 2 {
        '2'
    } else if digit == 3 {
        '3'
    } else if digit == 4 {
        '4'
    } else if digit == 5 {
        '5'
    } else if digit == 6 {
        '6'
    } else if digit == 7 {
        '7'
    } else if digit == 8 {
        '8'
    } else {
        '9'
    }
}

/// The decimal digits of a number, without leading zeros.
pub open spec fn decimal(n: nat) -> Seq<char>
    decreases n,
{
    if n < 10 {
        seq![digit_char(n)]
    } else {
        decimal(n / 10).push(digit_char(n % 10))
    }
}

/// The text of one decimal digit.
fn digit_str(digit: u64) -> (r: &'static str)
    requires
        digit < 10,
    ensures
        r@ == seq![digit_char(digit as nat)],
{
    proof {
        reveal_strlit("0");
        reveal_strlit("1");
        reveal_strlit("2");
        reveal_strlit("3");
        reveal_strlit("4");
        reveal_strlit("5");
        reveal_strlit("6");
        reveal_strlit("7");
        reveal_strlit("8");
        reveal_strlit("9");
    }
    let r = if digit == 0 {
        "0"
    } else if digit == 1 {
        "1"
    } else if digit == 2 {
        "2"
    } else if digit == 3 {
        "3"
    } else if digit == 4 {
        "4"
    } else if digit == 5 {
        "5"
    } else if digit == 6 {
        "6"
    } else if digit == 7 {
        "7"
    } else if digit == 8 {
        "8"
    } else {
        "9"
    };
    assert(r@ =~= seq![digit_char(digit as nat)]);
    r
}

/// The number written in decimal digits.
pub fn decimal_string(n: u64) -> (r: String)
    ensures
        r@ == decimal(n as nat),
    decreases n,
{
    if n < 10 {
        String::from_str(digit_str(n))
    } else {
        let mut text = decimal_string(n / 10);
        text.append(digit_str(n % 10));
        assert(text@ =~= decimal(n as nat));
        text
    }
}

/// `count` times the character `c`.
pub open spec fn repeated(c: char, count: nat) -> Seq<char> {
    Seq::new(count, |i: int| c)
}

/// The text, followed by as many spaces as it has fewer characters than
/// `width`.
pub open spec fn padded(text: Seq<char>, width: nat) -> Seq<char> {
    if text.len() >= width {
        text
    } else {
        text + repeated(' ', (width - text.len()) as nat)
    }
}

/// `count` times the one-character text `unit`.
pub fn repeat_str(unit: &str, count: usize) -> (r: String)
    requires
        unit@.len() == 1,
    ensures
        r@ == repeated(unit@[0], count as nat),
{
    let mut out = String::new();
    let mut i: usize = 0;
    while i < count
        invariant
            i <= count,
            unit@.len() == 1,
            out@ == repeated(unit@[0], i as nat),
        decreases count - i,
    {
        out.append(unit);
        assert(out@ =~= repeated(unit@[0], (i + 1) as nat));
        i += 1;
    }
    out
}

/// The text padded with spaces on the right to `width` characters.
pub fn pad_right(text: &str, width: usize) -> (r: String)
    ensures
        r@ == padded(text@, width as nat),
{
    let len = text.unicode_len();
    let mut out = String::from_str(text);
    if len < width {
        proof {
            reveal_strlit(" ");
        }
        let spaces = repeat_str(" ", width - len);
        out.append(spaces.as_str());
        assert(out@ =~= padded(text@, width as nat));
    }
    out
}

/// The place of the first `c` in the text at or after `from`; the length of
/// the text if there is none.
pub open spec fn position_of(text: Seq<char>, c: char, from: int) -> int
    decreases text.len() - from,
{
    if from < 0 || from >= text.len() {
        text.len() as int
    } else if text[from] == c {
        from
    } else {
        position_of(text, c, from + 1)
    }
}

/// Where `position_of` points: at a `c` or at the end, with no `c` between
/// `from` and there.
pub proof fn lemma_position_of(text: Seq<char>, c: char, from: int)
    requires
        0 <= from <= text.len(),
    ensures
        from <= position_of(text, c, from) <= text.len(),
        position_of(text, c, from) < text.len() ==> text[position_of(text, c, from)] == c,
        forall|k: int| from <= k < position_of(text, c, from) ==> text[k] != c,
    decreases text.len() - from,
{
    if from < text.len() && text[from] != c {
        lemma_position_of(text, c, from + 1);
    }
}

/// The place of the first `c` in the text at or after `from`; the length of
/// the text, counted in characters, if there is none.
pub fn find_char(text: &str, c: char, from: usize) -> (r: usize)
    requires
        from <= text@.len(),
    ensures
        r == position_of(text@, c, from as int),
        from <= r <= text@.len(),
{
    let len = text.unicode_len();
    let mut i: usize = from;
    while i < len
        invariant
            from <= i <= len,
            len == text@.len(),
            position_of(text@, c, i as int) == position_of(text@, c, from as int),
        decreases len - i,
    {
        if text.get_char(i) == c {
            return i;
        }
        i += 1;
    }
    i
}

/// The characters of the text from place `from` up to place `to`.
pub fn slice(text: &str, from: usize, to: usize) -> (r: String)
    requires
        from <= to <= text@.len(),
    ensures
        r@ == text@.subrange(from as int, to as int),
{
    String::from_str(text.substring_char(from, to))
}

/// The parts of the text between the places where `c` stands. A text
/// without `c` is one part; two `c` in a row have an empty part between them.
pub open spec fn split(text: Seq<char>, c: char) -> Seq<Seq<char>>
    decreases text.len(),
{
    let at = position_of(text, c, 0);
    if at >= text.len() || at < 0 {
        seq![text]
    } else {
        seq![text.subrange(0, at)] + split(text.subrange(at + 1, text.len() as int), c)
    }
}

/// Looking for `c` from place `from` in a text is looking for it from the
/// start in what the text holds from `from` on.
proof fn lemma_position_of_shift(text: Seq<char>, c: char, from: int, k: int)
    requires
        0 <= from <= k <= text.len(),
    ensures
        position_of(text, c, k) == from + position_of(
            text.subrange(from, text.len() as int),
            c,
            k - from,
        ),
    decreases text.len() - k,
{
    let tail = text.subrange(from, text.len() as int);
    if k < text.len() {
        assert(tail[k - from] == text[k]);
        if text[k] != c {
            lemma_position_of_shift(text, c, from, k + 1);
        }
    }
}

/// The parts of what a text holds from place `from` on: the part up to the
/// next `c`, and the parts of what follows that `c`, if there is one.
proof fn lemma_split_step(text: Seq<char>, c: char, from: int)
    requires
        0 <= from <= text.len(),
    ensures
        ({
            let at = position_of(text, c, from);
            let tail = text.subrange(from, text.len() as int);
            if at >= text.len() {
                split(tail, c) == seq![tail]
            } else {
                split(tail, c) == seq![text.subrange(from, at)] + split(
                    text.subrange(at + 1, text.len() as int),
                    c,
                )
            }
        }),
{
    let tail = text.subrange(from, text.len() as int);
    let at = position_of(text, c, from);
    lemma_position_of(text, c, from);
    lemma_position_of_shift(text, c, from, from);
    let tail_at = position_of(tail, c, 0);
    assert(at == from + tail_at);
    if at < text.len() {
        assert(tail.subrange(0, tail_at) =~= text.subrange(from, at));
        assert(tail.subrange(tail_at + 1, tail.len() as int) =~= text.subrange(
            at + 1,
            text.len() as int,
        ));
    }
}

/// The parts of the text between the places where `c` stands.
pub fn split_on(text: &str, c: char) -> (r: Vec<String>)
    ensures
        string_views(r@) == split(text@, c),
{
    let len = text.unicode_len();
    let mut parts: Vec<String> = Vec::new();
    let mut from: usize = 0;
    proof {
        assert(text@.subrange(0, text@.len() as int) =~= text@);
        assert(string_views(parts@) + split(text@, c) =~= split(text@, c));
    }
    loop
        invariant
            len == text@.len(),
            from <= len,
            string_views(parts@) + split(text@.subrange(from as int, len as int), c) == split(
                text@,
                c,
            ),
        decreases len - from,
    {
        let at = find_char(text, c, from);
        let part = slice(text, from, at);
        let ghost before = string_views(parts@);
        proof {
            lemma_split_step(text@, c, from as int);
        }
        parts.push(part);
        assert(string_views(parts@) =~= before.push(part@));
        if at >= len {
            assert(text@.subrange(from as int, at as int) =~= text@.subrange(
                from as int,
                len as int,
            ));
            assert(before.push(part@) =~= before + seq![part@]);
            return parts;
        }
        assert(before.push(part@) + split(text@.subrange(at + 1, len as int), c) =~= before + (
        seq![part@] + split(text@.subrange(at + 1, len as int), c)));
        from = at + 1;
    }
}

} // verus!
