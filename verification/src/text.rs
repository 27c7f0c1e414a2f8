//! Text building blocks: joining, padding, searching and number rendering,
//! each stated over the characters of a string.

use vstd::prelude::*;
use vstd::string::*;

verus! {

/// The characters of each string of a list.
pub open spec fn texts(list: Seq<String>) -> Seq<Seq<char>> {
    list.map_values(|s: String| s@)
}

/// `piece` written `count` times.
pub open spec fn repeated(piece: Seq<char>, count: nat) -> Seq<char>
    decreases count,
{
    if count == 0 {
        Seq::empty()
    } else {
        repeated(piece, (count - 1) as nat) + piece
    }
}

/// The pieces one after the other, with `separator` between two of them.
pub open spec fn joined(pieces: Seq<Seq<char>>, separator: Seq<char>) -> Seq<char>
    decreases pieces.len(),
{
    if pieces.len() == 0 {
        Seq::empty()
    } else if pieces.len() == 1 {
        pieces[0]
    } else {
        joined(pieces.drop_last(), separator) + separator + pieces.last()
    }
}

/// Appends `piece` to `out`, `count` times.
pub fn push_repeated(out: &mut String, piece: &str, count: usize)
    ensures
        final(out)@ == old(out)@ + repeated(piece@, count as nat),
{
    let mut done: usize = 0;
    assert(out@ =~= old(out)@ + repeated(piece@, 0));
    while done < count
        invariant
            done <= count,
            out@ == old(out)@ + repeated(piece@, done as nat),
        decreases count - done,
    {
        out.append(piece);
        done = done + 1;
        assert(out@ =~= old(out)@ + repeated(piece@, done as nat));
    }
}

/// The strings of `pieces` joined by `separator`.
pub fn join(pieces: &Vec<String>, separator: &str) -> (out: String)
    ensures
        out@ == joined(texts(pieces@), separator@),
{
    let mut out = String::new();
    let mut i: usize = 0;
    let ghost all = texts(pieces@);
    assert(all.take(0) =~= Seq::empty());
    while i < pieces.len()
        invariant
            i <= pieces.len(),
            all == texts(pieces@),
            out@ == joined(all.take(i as int), separator@),
        decreases pieces.len() - i,
    {
        assert(all.take(i + 1).drop_last() =~= all.take(i as int));
        assert(all.take(i + 1).last() == pieces[i as int]@);
        if i > 0 {
            out.append(separator);
        }
        out.append(pieces[i].as_str());
        i = i + 1;
        assert(out@ =~= joined(all.take(i as int), separator@));
    }
    assert(all.take(pieces.len() as int) =~= all);
    out
}

/// The character of one decimal digit.
pub open spec fn digit(d: nat) -> char
    recommends
        d < 10,
{
    (48 + d) as char
}

/// The decimal digits of `n`, most significant first, without leading zeros.
pub open spec fn digits(n: nat) -> Seq<char>
    decreases n,
{
    if n < 10 {
        seq![digit(n)]
    } else {
        digits(n / 10).push(digit(n % 10))
    }
}

/// The decimal notation of `i`: its digits, behind a minus sign if it is negative.
pub open spec fn decimal(i: int) -> Seq<char> {
    if i < 0 {
        "-"@ + digits((-i) as nat)
    } else {
        digits(i as nat)
    }
}

/// The decimal notation of `value`, by `itoa::Buffer::format`, which prints an
/// integer in base ten: digits without leading zeros, and a minus sign in front
/// of a negative number.
#[verifier::external_body]
pub(crate) fn integer_text(value: i64) -> (out: String)
    ensures
        out@ == decimal(value as int),
{
    itoa::Buffer::new().format(value).to_string()
}

fn push_digit(out: &mut String, d: usize)
    requires
        d < 10,
    ensures
        final(out)@ == old(out)@.push(digit(d as nat)),
{
    proof {
        reveal_strlit("0");
        reveal_strlit("1");
        reveal_strlit("2");
        reveal_strlit("3");
        reveal_strlit("4");
        reveal_strlit("5");
        reveal_strlit("6");
        reveal_strlit("7");
        reveal_strlit("8");
        reveal_strlit("9");
    }
    let piece = match d {
        0 => "0",
        1 => "1",
        2 => "2",
        3 => "3",
        4 => "4",
        5 => "5",
        6 => "6",
        7 => "7",
        8 => "8",
        _ => "9",
    };
    assert(piece@ =~= seq![digit(d as nat)]);
    out.append(piece);
    assert(out@ =~= old(out)@.push(digit(d as nat)));
}

/// The decimal digits of a count or an address.
pub fn count_text(n: usize) -> (out: String)
    ensures
        out@ == digits(n as nat),
    decreases n,
{
    let mut out = if n < 10 {
        String::new()
    } else {
        count_text(n / 10)
    };
    push_digit(&mut out, n % 10);
    assert(out@ =~= digits(n as nat));
    out
}

/// The number of bytes of `s` in UTF-8.
pub open spec fn byte_count(s: Seq<char>) -> nat {
    vstd::utf8::encode_utf8(s).len()
}

/// The number of bytes that `s` takes in UTF-8.
pub fn byte_len(s: &str) -> (n: usize)
    ensures
        n == byte_count(s@),
{
    s.as_bytes().len()
}

/// A text takes at least one byte for each of its characters.
pub proof fn lemma_bytes_cover_chars(s: Seq<char>)
    ensures
        s.len() <= byte_count(s),
    decreases s.len(),
{
    if s.len() > 0 {
        lemma_bytes_cover_chars(s.drop_first());
    }
}

/// The characters of `s`, in order.
pub fn chars_of(s: &str) -> (out: Vec<char>)
    ensures
        out@ == s@,
{
    let mut out: Vec<char> = Vec::new();
    for c in it: s.chars()
        invariant
            it.seq() == s@,
            out@ == s@.take(it.index()),
    {
        out.push(c);
        assert(out@ =~= s@.take(it.index() + 1));
    }
    assert(s@.take(s@.len() as int) =~= s@);
    out
}

/// `full` begins with `start`.
pub open spec fn begins_with(full: Seq<char>, start: Seq<char>) -> bool {
    start.len() <= full.len() && full.take(start.len() as int) == start
}

/// `full` ends with `end`.
pub open spec fn ends_with(full: Seq<char>, end: Seq<char>) -> bool {
    end.len() <= full.len() && full.skip(full.len() - end.len()) == end
}

/// What is appended stands at the end.
pub proof fn lemma_ends_with(head: Seq<char>, tail: Seq<char>)
    ensures
        ends_with(head + tail, tail),
{
    assert((head + tail).skip(head.len() as int) =~= tail);
}

/// Whether `full` begins with `start`.
pub fn starts_with(full: &str, start: &str) -> (yes: bool)
    ensures
        yes == begins_with(full@, start@),
{
    let whole = chars_of(full);
    let head = chars_of(start);
    if head.len() > whole.len() {
        return false;
    }
    let mut i: usize = 0;
    while i < head.len()
        invariant
            i <= head.len() <= whole.len(),
            whole@ == full@,
            head@ == start@,
            head@.take(i as int) =~= whole@.take(i as int),
        decreases head.len() - i,
    {
        if whole[i] != head[i] {
            assert(full@.take(start@.len() as int)[i as int] != start@[i as int]);
            return false;
        }
        i = i + 1;
    }
    assert(head@.take(i as int) =~= start@);
    true
}

/// `needle` stands in `s` from position `i` on.
pub open spec fn occurs_at(s: Seq<char>, needle: Seq<char>, i: int) -> bool {
    0 <= i && i + needle.len() <= s.len() && s.subrange(i, i + needle.len()) == needle
}

/// Position `i` is where `needle` stands in `s` for the first time.
pub open spec fn first_at(s: Seq<char>, needle: Seq<char>, i: int) -> bool {
    occurs_at(s, needle, i) && forall|j: int| 0 <= j < i ==> !occurs_at(s, needle, j)
}

/// What stands before and behind the first `needle` in `s`; nothing if `s` holds none.
pub open spec fn split_at_first(s: Seq<char>, needle: Seq<char>) -> Option<
    (Seq<char>, Seq<char>),
> {
    if exists|i: int| first_at(s, needle, i) {
        let i = choose|i: int| first_at(s, needle, i);
        Some((s.take(i), s.skip(i + needle.len())))
    } else {
        None
    }
}

fn matches_at(s: &Vec<char>, needle: &Vec<char>, i: usize) -> (yes: bool)
    requires
        i + needle.len() <= s.len(),
    ensures
        yes == occurs_at(s@, needle@, i as int),
{
    let mut k: usize = 0;
    while k < needle.len()
        invariant
            k <= needle.len(),
            i + needle.len() <= s.len(),
            s@.subrange(i as int, i + k) =~= needle@.take(k as int),
        decreases needle.len() - k,
    {
        if s[i + k] != needle[k] {
            assert(s@.subrange(i as int, i + needle.len())[k as int] != needle@[k as int]);
            return false;
        }
        k = k + 1;
    }
    assert(needle@.take(k as int) =~= needle@);
    true
}

fn find(s: &Vec<char>, needle: &Vec<char>) -> (at: Option<usize>)
    ensures
        match at {
            Some(i) => first_at(s@, needle@, i as int),
            None => forall|j: int| !occurs_at(s@, needle@, j),
        },
{
    if needle.len() > s.len() {
        return None;
    }
    let last: usize = s.len() - needle.len();
    let mut i: usize = 0;
    while i < last
        invariant
            i <= last,
            last + needle.len() == s.len(),
            forall|j: int| 0 <= j < i ==> !occurs_at(s@, needle@, j),
        decreases last - i,
    {
        if matches_at(s, needle, i) {
            return Some(i);
        }
        i = i + 1;
    }
    if matches_at(s, needle, last) {
        Some(last)
    } else {
        None
    }
}

/// Splits `s` at the first `needle` in it.
pub fn split_once<'a>(s: &'a str, needle: &str) -> (parts: Option<(&'a str, &'a str)>)
    ensures
        match parts {
            Some((before, behind)) => split_at_first(s@, needle@) == Some((before@, behind@)),
            None => split_at_first(s@, needle@) is None,
        },
{
    let whole = chars_of(s);
    let wanted = chars_of(needle);
    match find(&whole, &wanted) {
        Some(i) => {
            assert forall|j: int| first_at(s@, needle@, j) implies j == i by {
                if j < i {
                    assert(!occurs_at(s@, needle@, j));
                } else if i < j {
                    assert(!occurs_at(s@, needle@, i as int));
                }
            }
            let end: usize = whole.len();
            assert(occurs_at(whole@, wanted@, i as int));
            let before = s.substring_char(0, i);
            let behind = s.substring_char(i + wanted.len(), end);
            assert(before@ =~= s@.take(i as int));
            assert(behind@ =~= s@.skip(i + needle@.len()));
            Some((before, behind))
        },
        None => None,
    }
}

/// The characters that Unicode's `White_Space` property marks.
pub open spec fn white_space(c: char) -> bool {
    ||| '\u{9}' <= c <= '\u{d}'
    ||| c == ' '
    ||| c == '\u{85}'
    ||| c == '\u{a0}'
    ||| c == '\u{1680}'
    ||| '\u{2000}' <= c <= '\u{200a}'
    ||| c == '\u{2028}'
    ||| c == '\u{2029}'
    ||| c == '\u{202f}'
    ||| c == '\u{205f}'
    ||| c == '\u{3000}'
}

fn is_white_space(c: char) -> (yes: bool)
    ensures
        yes == white_space(c),
{
    ('\u{9}' <= c && c <= '\u{d}') || c == ' ' || c == '\u{85}' || c == '\u{a0}' || c == '\u{1680}' || (
    '\u{2000}' <= c && c <= '\u{200a}') || c == '\u{2028}' || c == '\u{2029}' || c == '\u{202f}' || c
        == '\u{205f}' || c == '\u{3000}'
}

/// `s` without the white space at its start.
pub open spec fn trimmed_start(s: Seq<char>) -> Seq<char>
    decreases s.len(),
{
    if s.len() > 0 && white_space(s.first()) {
        trimmed_start(s.drop_first())
    } else {
        s
    }
}

/// `s` without the white space at its end.
pub open spec fn trimmed_end(s: Seq<char>) -> Seq<char>
    decreases s.len(),
{
    if s.len() > 0 && white_space(s.last()) {
        trimmed_end(s.drop_last())
    } else {
        s
    }
}

/// `s` without the white space at either end.
pub open spec fn trimmed(s: Seq<char>) -> Seq<char> {
    trimmed_end(trimmed_start(s))
}

/// `s` without the white space at either end.
pub fn trim(s: &str) -> (out: &str)
    ensures
        out@ == trimmed(s@),
{
    let whole = chars_of(s);
    let mut from: usize = 0;
    assert(s@.skip(0) =~= s@);
    while from < whole.len() && is_white_space(whole[from])
        invariant
            from <= whole.len(),
            whole@ == s@,
            trimmed_start(s@) == trimmed_start(s@.skip(from as int)),
        decreases whole.len() - from,
    {
        assert(s@.skip(from as int).drop_first() =~= s@.skip(from + 1));
        from = from + 1;
    }
    let ghost tail = s@.skip(from as int);
    assert(trimmed_start(s@) == tail);
    let mut to: usize = whole.len();
    assert(s@.subrange(from as int, to as int) =~= tail);
    while from < to && is_white_space(whole[to - 1])
        invariant
            from <= to <= whole.len(),
            whole@ == s@,
            trimmed_end(tail) == trimmed_end(s@.subrange(from as int, to as int)),
        decreases to,
    {
        assert(s@.subrange(from as int, to as int).drop_last() =~= s@.subrange(
            from as int,
            to - 1,
        ));
        to = to - 1;
    }
    s.substring_char(from, to)
}

/// One piece is joined as it is, none as nothing, and of two lists of pieces the
/// second stands behind the first with one separator between them.
pub proof fn law_joined_one_behind_the_other(
    front: Seq<Seq<char>>,
    back: Seq<Seq<char>>,
    separator: Seq<char>,
    piece: Seq<char>,
)
    ensures
        joined(Seq::empty(), separator) == Seq::<char>::empty(),
        joined(seq![piece], separator) == piece,
        front.len() > 0 && back.len() > 0 ==> joined(front + back, separator) == joined(
            front,
            separator,
        ) + separator + joined(back, separator),
    decreases back.len(),
{
    if front.len() > 0 && back.len() > 0 {
        if back.len() == 1 {
            assert((front + back).drop_last() =~= front);
        } else {
            law_joined_one_behind_the_other(front, back.drop_last(), separator, piece);
            assert((front + back).drop_last() =~= front + back.drop_last());
            assert((front + back).last() == back.last());
            assert(joined(front + back, separator) =~= joined(front, separator) + separator
                + joined(back, separator));
        }
    }
}

/// A piece repeated once is the piece, and repeated so many times and so many
/// times more is repeated as often as both together.
pub proof fn law_repeated_adds_up(piece: Seq<char>, a: nat, b: nat)
    ensures
        repeated(piece, 0) == Seq::<char>::empty(),
        repeated(piece, 1) == piece,
        repeated(piece, a + b) == repeated(piece, a) + repeated(piece, b),
    decreases b,
{
    assert(repeated(piece, 0) =~= Seq::empty());
    assert(repeated(piece, 1) =~= repeated(piece, 0) + piece);
    assert(repeated(piece, 1) =~= piece);
    if b == 0 {
        assert(repeated(piece, a) + repeated(piece, 0) =~= repeated(piece, a));
    } else {
        law_repeated_adds_up(piece, a, (b - 1) as nat);
        assert(repeated(piece, a + b) =~= repeated(piece, a) + repeated(piece, b));
    }
}

/// The number that decimal digits denote.
pub open spec fn number_read(s: Seq<char>) -> int
    decreases s.len(),
{
    if s.len() == 0 {
        0
    } else {
        number_read(s.drop_last()) * 10 + (s.last() as int - '0' as int)
    }
}

/// The characters are decimal digits, at least one, and the first of several is
/// no zero.
pub open spec fn plain_digits(s: Seq<char>) -> bool {
    &&& s.len() > 0
    &&& forall|i: int| 0 <= i < s.len() ==> '0' <= #[trigger] s[i] <= '9'
    &&& s.len() > 1 ==> s[0] != '0'
}

/// The digits of a number denote it.
pub proof fn law_digits_read_back(n: nat)
    ensures
        plain_digits(digits(n)),
        number_read(digits(n)) == n,
        n > 0 ==> digits(n)[0] != '0',
    decreases n,
{
    assert(digit(n % 10) as int == 48 + n % 10);
    if n < 10 {
        assert(seq![digit(n)].drop_last() =~= Seq::<char>::empty());
        assert(number_read(Seq::<char>::empty()) == 0);
        assert(digits(n).last() == digit(n));
    } else {
        law_digits_read_back(n / 10);
        let front = digits(n / 10);
        assert(digits(n).drop_last() =~= front);
        assert forall|i: int| 0 <= i < digits(n).len() implies '0' <= #[trigger] digits(n)[i]
            <= '9' by {
            if i < front.len() {
                assert(digits(n)[i] == front[i]);
            }
        }
    }
}

/// The decimal notation of a number denotes it: bare digits, or digits behind one
/// minus sign.
pub proof fn law_decimal_reads_back(i: int)
    ensures
        i >= 0 ==> plain_digits(decimal(i)) && number_read(decimal(i)) == i,
        i < 0 ==> decimal(i).len() > 1 && decimal(i)[0] == '-' && plain_digits(decimal(i).skip(1))
            && number_read(decimal(i).skip(1)) == -i,
{
    if i < 0 {
        law_digits_read_back((-i) as nat);
        reveal_strlit("-");
        assert(decimal(i).skip(1) =~= digits((-i) as nat));
    } else {
        law_digits_read_back(i as nat);
    }
}

/// One text begins with another if it is as long at least and agrees with it
/// character by character.
pub proof fn law_begins_with_its_characters(full: Seq<char>, start: Seq<char>)
    ensures
        begins_with(full, start) <==> start.len() <= full.len() && forall|i: int|
            0 <= i < start.len() ==> #[trigger] start[i] == full[i],
{
    if begins_with(full, start) {
        assert forall|i: int| 0 <= i < start.len() implies #[trigger] start[i] == full[i] by {
            assert(full.take(start.len() as int)[i] == full[i]);
        }
    }
    if start.len() <= full.len() && forall|i: int|
        0 <= i < start.len() ==> #[trigger] start[i] == full[i] {
        assert(full.take(start.len() as int) =~= start);
    }
}

proof fn lemma_first_exists(s: Seq<char>, needle: Seq<char>, i: int)
    requires
        occurs_at(s, needle, i),
    ensures
        exists|k: int| first_at(s, needle, k) && k <= i,
    decreases i,
{
    if exists|j: int| 0 <= j < i && occurs_at(s, needle, j) {
        let j = choose|j: int| 0 <= j < i && occurs_at(s, needle, j);
        lemma_first_exists(s, needle, j);
    } else {
        assert(first_at(s, needle, i));
    }
}

/// What a split gives makes up the text again, with the needle in between, and no
/// other way to do so has the needle further in front. Where there is no split,
/// there is no way at all.
pub proof fn law_split_is_the_first(s: Seq<char>, needle: Seq<char>, a: Seq<char>, b: Seq<char>)
    ensures
        match split_at_first(s, needle) {
            Some((before, behind)) => s == before + needle + behind && (s == a + needle + b
                ==> before.len() <= a.len()),
            None => s != a + needle + b,
        },
{
    let at = a.len() as int;
    if s == a + needle + b {
        assert(s.subrange(at, at + needle.len()) =~= needle);
        assert(occurs_at(s, needle, at));
        lemma_first_exists(s, needle, at);
    }
    if exists|i: int| first_at(s, needle, i) {
        let i = choose|i: int| first_at(s, needle, i);
        assert(occurs_at(s, needle, i));
        assert(s =~= s.take(i) + s.subrange(i, i + needle.len()) + s.skip(i + needle.len()));
        if s == a + needle + b && at < i {
            assert(!occurs_at(s, needle, at));
        }
    }
}

/// White space is what Unicode says it is, by code points.
pub proof fn law_white_space_by_code_point(c: char)
    ensures
        white_space(c) <==> {
            let p = c as int;
            ||| 9 <= p <= 13
            ||| p == 32
            ||| p == 133
            ||| p == 160
            ||| p == 5760
            ||| 8192 <= p <= 8202
            ||| p == 8232
            ||| p == 8233
            ||| p == 8239
            ||| p == 8287
            ||| p == 12288
        },
{
}

proof fn lemma_trimmed_start(s: Seq<char>) -> (from: int)
    ensures
        0 <= from <= s.len(),
        trimmed_start(s) == s.skip(from),
        forall|k: int| 0 <= k < from ==> white_space(#[trigger] s[k]),
        from < s.len() ==> !white_space(s[from]),
    decreases s.len(),
{
    if s.len() > 0 && white_space(s.first()) {
        let rest = s.drop_first();
        let from = lemma_trimmed_start(rest);
        assert(rest.skip(from) =~= s.skip(from + 1));
        assert forall|k: int| 0 <= k < from + 1 implies white_space(#[trigger] s[k]) by {
            if k > 0 {
                assert(rest[k - 1] == s[k]);
            }
        }
        if from + 1 < s.len() {
            assert(rest[from] == s[from + 1]);
        }
        from + 1
    } else {
        assert(s.skip(0) =~= s);
        0
    }
}

proof fn lemma_trimmed_end(s: Seq<char>) -> (to: int)
    ensures
        0 <= to <= s.len(),
        trimmed_end(s) == s.take(to),
        forall|k: int| to <= k < s.len() ==> white_space(#[trigger] s[k]),
        to > 0 ==> !white_space(s[to - 1]),
    decreases s.len(),
{
    if s.len() > 0 && white_space(s.last()) {
        let rest = s.drop_last();
        let to = lemma_trimmed_end(rest);
        assert(rest.take(to) =~= s.take(to));
        assert forall|k: int| to <= k < s.len() implies white_space(#[trigger] s[k]) by {
            if k < s.len() - 1 {
                assert(rest[k] == s[k]);
            }
        }
        to
    } else {
        assert(s.take(s.len() as int) =~= s);
        s.len() as int
    }
}

/// Trimming takes white space and nothing else off either end, and all of it.
pub proof fn law_trimming_takes_white_space_off(s: Seq<char>)
    ensures
        exists|from: int, to: int|
            0 <= from <= to <= s.len() && trimmed(s) == #[trigger] s.subrange(from, to) && (
            forall|k: int| 0 <= k < from || to <= k < s.len() ==> white_space(#[trigger] s[k])),
        trimmed(s).len() > 0 ==> !white_space(trimmed(s).first()) && !white_space(
            trimmed(s).last(),
        ),
{
    let from = lemma_trimmed_start(s);
    let tail = s.skip(from);
    let to = lemma_trimmed_end(tail);
    assert(tail.take(to) =~= s.subrange(from, from + to));
    assert forall|k: int| 0 <= k < from || from + to <= k < s.len() implies white_space(
        #[trigger] s[k],
    ) by {
        if k >= from + to {
            assert(tail[k - from] == s[k]);
        }
    }
    if to > 0 {
        assert(tail[to - 1] == trimmed(s).last());
        assert(tail[0] == s[from]);
    }
}

/// The length of a text in bytes is that of its UTF-8 form.
pub proof fn law_bytes_are_utf8(s: Seq<char>)
    ensures
        byte_count(s) == vstd::utf8::encode_utf8(s).len(),
        byte_count(s) >= s.len(),
        byte_count(Seq::empty()) == 0,
{
    lemma_bytes_cover_chars(s);
}

/// A list's texts are those of its strings, one for one.
pub proof fn law_texts_one_for_one(list: Seq<String>)
    ensures
        texts(list).len() == list.len(),
        forall|i: int| 0 <= i < list.len() ==> #[trigger] texts(list)[i] == list[i]@,
{
}

} // verus!
