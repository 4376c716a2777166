//! Text, character by character: white space, comma-separated lists and decimal numbers.

use vstd::prelude::*;

verus! {

/// The characters that Unicode calls white space.
pub open spec fn is_white_space_char(c: char) -> bool {
    ||| '\u{9}' <= c <= '\u{d}'
    ||| c == ' '
    ||| c == '\u{85}'
    ||| c == '\u{a0}'
    ||| c == '\u{1680}'
    ||| '\u{2000}' <= c <= '\u{200a}'
    ||| c == '\u{2028}'
    ||| c == '\u{2029}'
    ||| c == '\u{202f}'
    ||| c == '\u{205f}'
    ||| c == '\u{3000}'
}

/// `s` without the white space that it starts with.
pub open spec fn trim_start(s: Seq<char>) -> Seq<char>
    decreases s.len(),
{
    if s.len() > 0 && is_white_space_char(s[0]) {
        trim_start(s.subrange(1, s.len() as int))
    } else {
        s
    }
}

/// `s` without the white space that it ends with.
pub open spec fn trim_end(s: Seq<char>) -> Seq<char>
    decreases s.len(),
{
    if s.len() > 0 && is_white_space_char(s.last()) {
        trim_end(s.subrange(0, s.len() - 1))
    } else {
        s
    }
}

/// `s` without the white space at both its ends.
pub open spec fn trimmed(s: Seq<char>) -> Seq<char> {
    trim_end(trim_start(s))
}

/// The position of the first comma of `s`, or the length of `s` where there is none.
pub open spec fn comma_at(s: Seq<char>) -> int
    decreases s.len(),
{
    if s.len() == 0 || s[0] == ',' {
        0
    } else {
        1 + comma_at(s.subrange(1, s.len() as int))
    }
}

/// The pieces of `s` between its commas. There is always one more than there are commas.
pub open spec fn split_commas(s: Seq<char>) -> Seq<Seq<char>>
    decreases s.len(),
{
    let k = comma_at(s);
    if 0 <= k < s.len() {
        seq![s.subrange(0, k)] + split_commas(s.subrange(k + 1, s.len() as int))
    } else {
        seq![s]
    }
}

/// `comma_at` finds the first comma.
pub proof fn lemma_comma_at(s: Seq<char>)
    ensures
        0 <= comma_at(s) <= s.len(),
        forall|i: int| 0 <= i < comma_at(s) ==> s[i] != ',',
        comma_at(s) < s.len() ==> s[comma_at(s)] == ',',
    decreases s.len(),
{
    if s.len() > 0 && s[0] != ',' {
        let rest = s.subrange(1, s.len() as int);
        lemma_comma_at(rest);
        assert forall|i: int| 0 <= i < comma_at(s) implies s[i] != ',' by {
            if i > 0 {
                assert(rest[i - 1] == s[i]);
            }
        }
    }
}

/// A position with no comma before it, and with a comma at it or the end of the text, is
/// the one that `comma_at` gives.
pub proof fn lemma_comma_at_unique(s: Seq<char>, k: int)
    requires
        0 <= k <= s.len(),
        forall|i: int| 0 <= i < k ==> s[i] != ',',
        k < s.len() ==> s[k] == ',',
    ensures
        comma_at(s) == k,
{
    lemma_comma_at(s);
    if comma_at(s) < k {
        assert(s[comma_at(s)] != ',');
    }
}

/// `trim_start` takes away the first `k` characters.
pub proof fn lemma_trim_start(s: Seq<char>, k: int)
    requires
        0 <= k <= s.len(),
        forall|i: int| 0 <= i < k ==> is_white_space_char(s[i]),
        k < s.len() ==> !is_white_space_char(s[k]),
    ensures
        trim_start(s) == s.subrange(k, s.len() as int),
    decreases s.len(),
{
    if k == 0 {
        assert(s.subrange(0, s.len() as int) =~= s);
    } else {
        let rest = s.subrange(1, s.len() as int);
        assert(is_white_space_char(s[0]));
        assert forall|i: int| 0 <= i < k - 1 implies is_white_space_char(rest[i]) by {
            assert(rest[i] == s[i + 1]);
        }
        lemma_trim_start(rest, k - 1);
        assert(rest.subrange(k - 1, rest.len() as int) =~= s.subrange(k, s.len() as int));
    }
}

/// `trim_end` leaves the first `k` characters.
pub proof fn lemma_trim_end(s: Seq<char>, k: int)
    requires
        0 <= k <= s.len(),
        forall|i: int| k <= i < s.len() ==> is_white_space_char(s[i]),
        k > 0 ==> !is_white_space_char(s[k - 1]),
    ensures
        trim_end(s) == s.subrange(0, k),
    decreases s.len(),
{
    if k == s.len() {
        assert(s.subrange(0, k) =~= s);
    } else {
        let rest = s.subrange(0, s.len() - 1);
        assert(is_white_space_char(s[s.len() - 1]));
        lemma_trim_end(rest, k);
        assert(rest.subrange(0, k) =~= s.subrange(0, k));
    }
}

/// Trimming makes no text longer.
pub proof fn lemma_trimmed_len(s: Seq<char>)
    ensures
        trimmed(s).len() <= s.len(),
{
    lemma_trim_start_len(s);
    lemma_trim_end_len(trim_start(s));
}

proof fn lemma_trim_start_len(s: Seq<char>)
    ensures
        trim_start(s).len() <= s.len(),
    decreases s.len(),
{
    if s.len() > 0 && is_white_space_char(s[0]) {
        lemma_trim_start_len(s.subrange(1, s.len() as int));
    }
}

proof fn lemma_trim_end_len(s: Seq<char>)
    ensures
        trim_end(s).len() <= s.len(),
    decreases s.len(),
{
    if s.len() > 0 && is_white_space_char(s.last()) {
        lemma_trim_end_len(s.subrange(0, s.len() - 1));
    }
}

/// Whether `c` is white space.
pub fn is_white_space(c: char) -> (white: bool)
    ensures
        white == is_white_space_char(c),
{
    ('\u{9}' <= c && c <= '\u{d}') || c == ' ' || c == '\u{85}' || c == '\u{a0}'
        || c == '\u{1680}' || ('\u{2000}' <= c && c <= '\u{200a}') || c == '\u{2028}'
        || c == '\u{2029}' || c == '\u{202f}' || c == '\u{205f}' || c == '\u{3000}'
}

/// The characters of `s`.
pub fn characters(s: &str) -> (chars: Vec<char>)
    ensures
        chars@ == s@,
{
    let mut chars: Vec<char> = Vec::new();
    for c in it: s.chars()
        invariant
            it.seq() == s@,
            chars@ == s@.subrange(0, it.index()),
    {
        chars.push(c);
    }
    proof {
        assert(s@.subrange(0, s@.len() as int) =~= s@);
    }
    chars
}

/// `s` without the white space at both its ends.
pub fn trim(s: &str) -> (inner: &str)
    ensures
        inner@ == trimmed(s@),
{
    let chars = characters(s);
    let mut start: usize = 0;
    while start < chars.len() && is_white_space(chars[start])
        invariant
            chars@ == s@,
            start <= chars.len(),
            forall|i: int| 0 <= i < start ==> is_white_space_char(s@[i]),
        decreases chars.len() - start,
    {
        start = start + 1;
    }
    let mut end: usize = chars.len();
    while end > start && is_white_space(chars[end - 1])
        invariant
            chars@ == s@,
            start <= end <= chars.len(),
            forall|i: int| end <= i < chars.len() ==> is_white_space_char(s@[i]),
        decreases end,
    {
        end = end - 1;
    }
    proof {
        let n = s@.len() as int;
        lemma_trim_start(s@, start as int);
        let rest = trim_start(s@);
        let k = end - start;
        assert forall|i: int| k <= i < rest.len() implies is_white_space_char(rest[i]) by {
            assert(rest[i] == s@[i + start]);
        }
        if k > 0 {
            assert(rest[k - 1] == s@[end - 1]);
        }
        lemma_trim_end(rest, k);
        assert(rest.subrange(0, k) =~= s@.subrange(start as int, end as int));
    }
    s.substring_char(start, end)
}

/// The digits of decimal numbers.
pub open spec fn digits() -> Seq<char> {
    seq!['0', '1', '2', '3', '4', '5', '6', '7', '8', '9']
}

/// The number `n` in decimal digits, without leading zeros.
pub open spec fn decimal(n: nat) -> Seq<char>
    decreases n,
{
    if n < 10 {
        seq![digits()[n as int]]
    } else {
        decimal(n / 10).push(digits()[n as int % 10])
    }
}

/// The number `n` in decimal digits.
pub fn decimal_text(n: u32) -> (text: String)
    ensures
        text@ == decimal(n as nat),
    decreases n,
{
    let all = "0123456789";
    let last: usize = (n % 10) as usize;
    proof {
        reveal_strlit("0123456789");
        assert(all@ =~= digits());
    }
    let digit = all.substring_char(last, last + 1);
    proof {
        assert(digit@ =~= seq![digits()[n as int % 10]]);
    }
    if n < 10 {
        digit.to_owned()
    } else {
        let text = decimal_text(n / 10).concat(digit);
        proof {
            assert(text@ =~= decimal(n as nat));
        }
        text
    }
}

/// The pieces with a comma between each two.
pub open spec fn joined_by_commas(pieces: Seq<Seq<char>>) -> Seq<char>
    decreases pieces.len(),
{
    if pieces.len() == 0 {
        Seq::empty()
    } else if pieces.len() == 1 {
        pieces[0]
    } else {
        pieces[0] + seq![','] + joined_by_commas(pieces.subrange(1, pieces.len() as int))
    }
}

/// Splitting at the commas undoes joining by commas: the pieces hold no comma, and with commas
/// between them they are the text.
pub proof fn law_pieces_make_up_the_text(s: Seq<char>)
    ensures
        split_commas(s).len() > 0,
        joined_by_commas(split_commas(s)) == s,
        forall|i: int, j: int|
            0 <= i < split_commas(s).len() && 0 <= j < split_commas(s)[i].len()
                ==> #[trigger] split_commas(s)[i][j] != ',',
    decreases s.len(),
{
    lemma_comma_at(s);
    let k = comma_at(s);
    let pieces = split_commas(s);
    if k < s.len() {
        let rest = s.subrange(k + 1, s.len() as int);
        law_pieces_make_up_the_text(rest);
        assert(pieces.subrange(1, pieces.len() as int) =~= split_commas(rest));
        assert(s =~= s.subrange(0, k) + seq![','] + rest);
        assert forall|i: int, j: int|
            0 <= i < pieces.len() && 0 <= j < pieces[i].len() implies #[trigger] pieces[i][j]
            != ',' by {
            if i > 0 {
                assert(pieces[i] == split_commas(rest)[i - 1]);
                assert(split_commas(rest)[i - 1][j] != ',');
            }
        }
    }
}

/// Trimming leaves a stretch of the text. All before it and all after it is white space, and
/// what it begins and ends with is not.
pub proof fn law_trimmed_is_what_white_space_surrounds(s: Seq<char>) -> (ends: (int, int))
    ensures
        0 <= ends.0 <= ends.1 <= s.len(),
        trimmed(s) == s.subrange(ends.0, ends.1),
        forall|i: int| 0 <= i < ends.0 ==> is_white_space_char(#[trigger] s[i]),
        forall|i: int| ends.1 <= i < s.len() ==> is_white_space_char(#[trigger] s[i]),
        ends.0 < ends.1 ==> !is_white_space_char(s[ends.0]) && !is_white_space_char(
            s[ends.1 - 1],
        ),
{
    let start = lemma_trim_start_drops(s);
    let rest = trim_start(s);
    let len = lemma_trim_end_drops(rest);
    assert(rest.subrange(0, len) =~= s.subrange(start, start + len));
    assert forall|i: int| start + len <= i < s.len() implies is_white_space_char(
        #[trigger] s[i],
    ) by {
        assert(rest[i - start] == s[i]);
    }
    if len > 0 {
        assert(rest[0] == s[start]);
        assert(rest[len - 1] == s[start + len - 1]);
    }
    (start, start + len)
}

proof fn lemma_trim_start_drops(s: Seq<char>) -> (k: int)
    ensures
        0 <= k <= s.len(),
        trim_start(s) == s.subrange(k, s.len() as int),
        forall|i: int| 0 <= i < k ==> is_white_space_char(#[trigger] s[i]),
        k < s.len() ==> !is_white_space_char(s[k]),
    decreases s.len(),
{
    if s.len() > 0 && is_white_space_char(s[0]) {
        let rest = s.subrange(1, s.len() as int);
        let k = lemma_trim_start_drops(rest);
        assert(rest.subrange(k, rest.len() as int) =~= s.subrange(k + 1, s.len() as int));
        assert forall|i: int| 0 <= i < k + 1 implies is_white_space_char(#[trigger] s[i]) by {
            if i > 0 {
                assert(rest[i - 1] == s[i]);
            }
        }
        if k < rest.len() {
            assert(rest[k] == s[k + 1]);
        }
        k + 1
    } else {
        assert(s.subrange(0, s.len() as int) =~= s);
        0
    }
}

proof fn lemma_trim_end_drops(s: Seq<char>) -> (k: int)
    ensures
        0 <= k <= s.len(),
        trim_end(s) == s.subrange(0, k),
        forall|i: int| k <= i < s.len() ==> is_white_space_char(#[trigger] s[i]),
        k > 0 ==> !is_white_space_char(s[k - 1]),
    decreases s.len(),
{
    if s.len() > 0 && is_white_space_char(s.last()) {
        let rest = s.subrange(0, s.len() - 1);
        let k = lemma_trim_end_drops(rest);
        assert(rest.subrange(0, k) =~= s.subrange(0, k));
        assert forall|i: int| k <= i < s.len() implies is_white_space_char(#[trigger] s[i]) by {
            if i < rest.len() {
                assert(rest[i] == s[i]);
            }
        }
        k
    } else {
        assert(s.subrange(0, s.len() as int) =~= s);
        s.len() as int
    }
}

/// The white space characters are the controls from tab to carriage return, the space, and
/// the wider spaces and separators of Unicode.
pub proof fn law_white_space(c: char)
    ensures
        is_white_space_char(c) <==> {
            let code = c as u32;
            ||| 0x9 <= code <= 0xd
            ||| code == 0x20
            ||| code == 0x85
            ||| code == 0xa0
            ||| code == 0x1680
            ||| 0x2000 <= code <= 0x200a
            ||| code == 0x2028
            ||| code == 0x2029
            ||| code == 0x202f
            ||| code == 0x205f
            ||| code == 0x3000
        },
{
}

/// The number that decimal digits make.
pub open spec fn number_of(text: Seq<char>) -> int
    decreases text.len(),
{
    if text.len() == 0 {
        0
    } else {
        number_of(text.drop_last()) * 10 + (text.last() as int - '0' as int)
    }
}

/// A number can be read back from its decimal text, which is made of digits and has no
/// leading zeros.
pub proof fn law_decimal_reads_back(n: nat)
    ensures
        number_of(decimal(n)) == n,
        decimal(n).len() > 0,
        forall|i: int| 0 <= i < decimal(n).len() ==> '0' <= #[trigger] decimal(n)[i] <= '9',
        decimal(n).len() > 1 ==> decimal(n)[0] != '0',
    decreases n,
{
    let d = n as int % 10;
    assert(digits()[d] as int == '0' as int + d);
    if n < 10 {
        assert(decimal(n).drop_last() =~= Seq::empty());
        assert(number_of(decimal(n).drop_last()) == 0);
    } else {
        law_decimal_reads_back(n / 10);
        assert(decimal(n).drop_last() =~= decimal(n / 10));
        if decimal(n / 10).len() == 1 {
            assert(n / 10 > 0);
            assert(number_of(decimal(n / 10).drop_last()) == 0);
        }
    }
}

} // verus!
