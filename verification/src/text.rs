//! Text of messages: decimal numbers, lines, and search without regard to case.

use vstd::prelude::*;
use vstd::string::*;
use vstd::utf8::is_ascii_chars;

verus! {

/// The decimal digit of a number below ten.
pub open spec fn digit(d: nat) -> char {
    (48 + d) as char
}

/// A number in decimal notation.
pub open spec fn decimal(n: nat) -> Seq<char>
    decreases n,
{
    if n < 10 {
        seq![digit(n)]
    } else {
        decimal(n / 10).push(digit(n % 10))
    }
}

/// A signed number in decimal notation.
pub open spec fn signed_decimal(i: int) -> Seq<char> {
    if i < 0 {
        seq!['-'] + decimal((-i) as nat)
    } else {
        decimal(i as nat)
    }
}

/// Lines joined by line feeds.
pub open spec fn joined(lines: Seq<Seq<char>>) -> Seq<char>
    decreases lines.len(),
{
    if lines.len() == 0 {
        Seq::empty()
    } else if lines.len() == 1 {
        lines[0]
    } else {
        joined(lines.drop_last()) + seq!['\n'] + lines.last()
    }
}

/// The texts of some strings.
pub open spec fn texts(strings: Seq<String>) -> Seq<Seq<char>> {
    strings.map_values(|s: String| s@)
}

/// `part` stands somewhere in `whole`.
pub open spec fn occurs(part: Seq<char>, whole: Seq<char>) -> bool {
    exists|at: int|
        0 <= at <= whole.len() - part.len() && #[trigger] whole.subrange(at, at + part.len()) == part
}

/// An ASCII letter in lower case; any other character as it is.
pub open spec fn ascii_lower(c: char) -> char {
    if 'A' <= c && c <= 'Z' {
        (c as u32 + 32) as char
    } else {
        c
    }
}

/// What [`str::to_lowercase`] makes of a text.
pub uninterp spec fn lowercase(text: Seq<char>) -> Seq<char>;

/// Calls [`str::to_lowercase`], the Unicode lower case of a text. The contract
/// names the result, and says of it that a text of ASCII characters alone has
/// its letters from `A` to `Z` turned into those from `a` to `z`.
#[verifier::external_body]
pub(crate) fn to_lowercase(text: &str) -> (r: String)
    ensures
        r@ == lowercase(text@),
        is_ascii_chars(text@) ==> r@ == text@.map_values(|c: char| ascii_lower(c)),
{
    text.to_lowercase()
}

fn digit_text(d: u64) -> (r: &'static str)
    requires
        d < 10,
    ensures
        r@ == seq![digit(d as nat)],
{
    proof {
        reveal_strlit("0");
        reveal_strlit("1");
        reveal_strlit("2");
        reveal_strlit("3");
        reveal_strlit("4");
        reveal_strlit("5");
        reveal_strlit("6");
        reveal_strlit("7");
        reveal_strlit("8");
        reveal_strlit("9");
    }
    let r = match d {
        0 => "0",
        1 => "1",
        2 => "2",
        3 => "3",
        4 => "4",
        5 => "5",
        6 => "6",
        7 => "7",
        8 => "8",
        _ => "9",
    };
    assert(r@ =~= seq![digit(d as nat)]);
    r
}

fn append_decimal(out: &mut String, n: u64)
    ensures
        final(out)@ == old(out)@ + decimal(n as nat),
    decreases n,
{
    if n >= 10 {
        append_decimal(out, n / 10);
    }
    out.append(digit_text(n % 10));
    assert(out@ =~= old(out)@ + decimal(n as nat));
}

/// Writes a number in decimal notation.
pub fn decimal_text(n: u64) -> (r: String)
    ensures
        r@ == decimal(n as nat),
{
    let mut out: String = String::new();
    append_decimal(&mut out, n);
    assert(out@ =~= decimal(n as nat));
    out
}

/// Writes a signed number in decimal notation.
pub fn signed_text(i: i32) -> (r: String)
    ensures
        r@ == signed_decimal(i as int),
{
    if i < 0 {
        let mut out: String = "-".to_owned();
        proof {
            reveal_strlit("-");
        }
        let magnitude: i64 = -(i as i64);
        append_decimal(&mut out, magnitude as u64);
        assert(out@ =~= signed_decimal(i as int));
        out
    } else {
        decimal_text(i as u64)
    }
}

/// Joins lines by line feeds.
pub fn join_lines(lines: &Vec<String>) -> (r: String)
    ensures
        r@ == joined(texts(lines@)),
{
    let mut out: String = String::new();
    let mut i: usize = 0;
    while i < lines.len()
        invariant
            i <= lines@.len(),
            out@ == joined(texts(lines@).take(i as int)),
        decreases lines@.len() - i,
    {
        proof {
            reveal_strlit("\n");
            let next = texts(lines@).take(i + 1);
            assert(next.drop_last() =~= texts(lines@).take(i as int));
            assert(next.last() == lines@[i as int]@);
            assert("\n"@ =~= seq!['\n']);
        }
        if i > 0 {
            out.append("\n");
        }
        out.append(lines[i].as_str());
        assert(out@ =~= joined(texts(lines@).take(i + 1)));
        i = i + 1;
    }
    assert(texts(lines@).take(i as int) =~= texts(lines@));
    out
}

fn characters(text: &str) -> (r: Vec<char>)
    ensures
        r@ == text@,
{
    let len: usize = text.unicode_len();
    let mut out: Vec<char> = Vec::new();
    let mut i: usize = 0;
    while i < len
        invariant
            i <= len,
            len == text@.len(),
            out@ == text@.take(i as int),
        decreases len - i,
    {
        out.push(text.get_char(i));
        i = i + 1;
        assert(out@ =~= text@.take(i as int));
    }
    assert(out@ =~= text@);
    out
}

fn matches_at(whole: &Vec<char>, part: &Vec<char>, at: usize) -> (r: bool)
    requires
        at + part@.len() <= whole@.len(),
    ensures
        r == (whole@.subrange(at as int, at + part@.len()) == part@),
{
    let len: usize = whole.len();
    let mut i: usize = 0;
    while i < part.len()
        invariant
            at + part@.len() <= whole@.len(),
            len == whole@.len(),
            i <= part@.len(),
            forall|k: int| 0 <= k < i ==> whole@[at + k] == part@[k],
        decreases part@.len() - i,
    {
        if whole[at + i] != part[i] {
            assert(whole@.subrange(at as int, at + part@.len())[i as int] != part@[i as int]);
            return false;
        }
        i = i + 1;
    }
    assert(whole@.subrange(at as int, at + part@.len()) =~= part@);
    true
}

/// Whether `part` stands somewhere in `whole`.
pub fn contains_text(whole: &str, part: &str) -> (r: bool)
    ensures
        r == occurs(part@, whole@),
{
    let text: Vec<char> = characters(whole);
    let wanted: Vec<char> = characters(part);
    if wanted.len() > text.len() {
        return false;
    }
    let last: usize = text.len() - wanted.len();
    let mut at: usize = 0;
    let mut found: bool = matches_at(&text, &wanted, 0);
    while !found && at < last
        invariant
            last == text@.len() - wanted@.len(),
            at <= last,
            found == (text@.subrange(at as int, at + wanted@.len()) == wanted@),
            forall|k: int|
                0 <= k < at ==> #[trigger] text@.subrange(k, k + wanted@.len()) != wanted@,
        decreases last - at,
    {
        at = at + 1;
        found = matches_at(&text, &wanted, at);
    }
    assert(found == occurs(wanted@, text@));
    found
}

/// Texts in lower case.
pub open spec fn lowered(names: Seq<Seq<char>>) -> Seq<Seq<char>> {
    names.map_values(|name: Seq<char>| lowercase(name))
}

/// Turns texts into lower case.
pub fn lower_names(names: &Vec<String>) -> (r: Vec<String>)
    ensures
        texts(r@) == lowered(texts(names@)),
        r@.len() == names@.len(),
        forall|i: int|
            0 <= i < names@.len() && is_ascii_chars((#[trigger] names@[i])@) ==> r@[i]@
                == names@[i]@.map_values(|c: char| ascii_lower(c)),
{
    let mut out: Vec<String> = Vec::new();
    let mut i: usize = 0;
    while i < names.len()
        invariant
            i <= names@.len(),
            out@.len() == i,
            texts(out@) == lowered(texts(names@)).take(i as int),
            forall|k: int|
                0 <= k < i && is_ascii_chars((#[trigger] names@[k])@) ==> out@[k]@
                    == names@[k]@.map_values(|c: char| ascii_lower(c)),
        decreases names@.len() - i,
    {
        out.push(to_lowercase(names[i].as_str()));
        i = i + 1;
        assert(texts(out@) =~= lowered(texts(names@)).take(i as int));
    }
    assert(lowered(texts(names@)).take(i as int) =~= lowered(texts(names@)));
    out
}

/// The number that decimal digits stand for.
pub open spec fn number_of(digits: Seq<char>) -> nat
    decreases digits.len(),
{
    if digits.len() == 0 {
        0
    } else {
        10 * number_of(digits.drop_last()) + (digits.last() as nat - '0' as nat) as nat
    }
}

/// A number in decimal notation reads back as that number, is made of digits, and
/// has no leading zero.
pub proof fn law_decimal_reads_back(n: nat)
    ensures
        number_of(decimal(n)) == n,
        decimal(n).len() > 0,
        forall|i: int|
            0 <= i < decimal(n).len() ==> '0' <= #[trigger] decimal(n)[i] && decimal(n)[i] <= '9',
        n > 0 ==> decimal(n)[0] != '0',
    decreases n,
{
    if n < 10 {
        assert(decimal(n).drop_last() =~= Seq::<char>::empty());
        assert(number_of(Seq::<char>::empty()) == 0);
    } else {
        law_decimal_reads_back(n / 10);
        let front = decimal(n / 10);
        assert(decimal(n).drop_last() =~= front);
        assert forall|i: int| 0 <= i < decimal(n).len() implies '0' <= #[trigger] decimal(n)[i]
            && decimal(n)[i] <= '9' by {
            if i < front.len() {
                assert(decimal(n)[i] == front[i]);
            }
        }
        assert(decimal(n)[0] == front[0]);
    }
}

/// A signed number reads back as that number, after a minus sign exactly if it is
/// negative.
pub proof fn law_signed_decimal_reads_back(i: int)
    ensures
        i >= 0 ==> number_of(signed_decimal(i)) == i,
        i < 0 ==> signed_decimal(i)[0] == '-' && number_of(signed_decimal(i).skip(1)) == -i,
        i >= 0 ==> signed_decimal(i)[0] != '-',
{
    if i < 0 {
        law_decimal_reads_back((-i) as nat);
        assert(signed_decimal(i).skip(1) =~= decimal((-i) as nat));
    } else {
        law_decimal_reads_back(i as nat);
        assert('0' <= decimal(i as nat)[0]);
    }
}

/// The text of a log grows by a line feed and the new line, and nothing in it
/// changes; a single line stands alone.
pub proof fn law_lines_are_joined(lines: Seq<Seq<char>>, line: Seq<char>)
    ensures
        joined(seq![line]) == line,
        lines.len() > 0 ==> joined(lines.push(line)) == joined(lines) + seq!['\n'] + line,
        joined(Seq::empty()).len() == 0,
{
    assert(lines.push(line).drop_last() =~= lines);
}

/// A text occurs in another exactly if that one is made of something, the text,
/// and something.
pub proof fn law_occurs(part: Seq<char>, before: Seq<char>, after: Seq<char>, whole: Seq<char>)
    ensures
        occurs(part, before + part + after),
        occurs(part, whole) ==> exists|a: Seq<char>, b: Seq<char>| whole == #[trigger] (a + part + b),
{
    let made = before + part + after;
    let at: int = before.len() as int;
    assert(made.subrange(at, at + part.len()) =~= part);
    if occurs(part, whole) {
        let k = choose|k: int|
            0 <= k <= whole.len() - part.len() && #[trigger] whole.subrange(k, k + part.len())
                == part;
        let a = whole.take(k);
        let b = whole.skip(k + part.len());
        assert forall|i: int| 0 <= i < whole.len() implies whole[i] == #[trigger] (a + part + b)[i] by {
            if k <= i < k + part.len() {
                assert(whole.subrange(k, k + part.len())[i - k] == whole[i]);
            }
        }
        assert(whole =~= a + part + b);
    }
}

/// Texts are lowered and listed one by one, in order.
pub proof fn law_texts_in_order(names: Seq<Seq<char>>, strings: Seq<String>, i: int)
    ensures
        lowered(names).len() == names.len(),
        0 <= i < names.len() ==> lowered(names)[i] == lowercase(names[i]),
        texts(strings).len() == strings.len(),
        0 <= i < strings.len() ==> texts(strings)[i] == strings[i]@,
{
}

/// Lower case turns each of the letters from `A` to `Z` into the one that lies
/// thirty-two places after it and leaves any other character.
pub proof fn law_ascii_lower(c: char)
    ensures
        'A' <= c && c <= 'Z' ==> ascii_lower(c) as u32 == c as u32 + 32,
        !('A' <= c && c <= 'Z') ==> ascii_lower(c) == c,
        ascii_lower(ascii_lower(c)) == ascii_lower(c),
{
}

} // verus!
