//! Character-level operations on string slices.
//!
//! Every function here is stated over the view of a string, a `Seq<char>`, and is
//! proved against a spec function that says what the text is rather than how it is
//! scanned.

use vstd::prelude::*;

verus! {

/// `pattern` stands in `s` at offset `at`.
pub open spec fn occurs_at(pattern: Seq<char>, s: Seq<char>, at: int) -> bool {
    &&& 0 <= at
    &&& at + pattern.len() <= s.len()
    &&& s.subrange(at, at + pattern.len()) == pattern
}

/// `pattern` stands somewhere in `s`.
pub open spec fn occurs_in(pattern: Seq<char>, s: Seq<char>) -> bool {
    exists|at: int| occurs_at(pattern, s, at)
}

/// The pieces that `s` falls into when it is cut at every `separator`.
///
/// There is always at least one piece: a text without any separator is its own
/// single piece, and a separator at either end leaves an empty piece there.
pub open spec fn pieces(s: Seq<char>, separator: char) -> Seq<Seq<char>>
    decreases s.len(),
{
    if s.len() == 0 {
        seq![Seq::<char>::empty()]
    } else {
        let before = pieces(s.drop_last(), separator);
        if s.last() == separator {
            before.push(Seq::<char>::empty())
        } else {
            before.drop_last().push(before.last().push(s.last()))
        }
    }
}

/// The parts written one after another with `separator` between neighbours.
pub open spec fn joined(parts: Seq<Seq<char>>, separator: Seq<char>) -> Seq<char>
    decreases parts.len(),
{
    if parts.len() == 0 {
        Seq::<char>::empty()
    } else if parts.len() == 1 {
        parts[0]
    } else {
        joined(parts.drop_last(), separator) + separator + parts.last()
    }
}

/// The character that writes a single decimal digit.
pub open spec fn digit(d: nat) -> char {
    seq!['0', '1', '2', '3', '4', '5', '6', '7', '8', '9'][d as int]
}

/// The decimal numeral of `n`, without leading zeros.
pub open spec fn numeral(n: nat) -> Seq<char>
    decreases n,
{
    if n < 10 {
        seq![digit(n)]
    } else {
        numeral(n / 10).push(digit(n % 10))
    }
}

/// The decimal numeral of a possibly negative number, with a leading `-` below zero.
pub open spec fn signed_numeral(n: int) -> Seq<char> {
    if n < 0 {
        seq!['-'] + numeral((-n) as nat)
    } else {
        numeral(n as nat)
    }
}

/// `s` with every line break replaced by a single blank.
pub open spec fn flattened(s: Seq<char>) -> Seq<char> {
    joined(pieces(s, '\n'), seq![' '])
}

/// Cutting a text gives at least one piece.
pub proof fn lemma_pieces_nonempty(s: Seq<char>, separator: char)
    ensures
        pieces(s, separator).len() >= 1,
    decreases s.len(),
{
    if s.len() > 0 {
        lemma_pieces_nonempty(s.drop_last(), separator);
    }
}

/// No piece of a cut text holds the separator.
pub proof fn lemma_pieces_exclude_separator(s: Seq<char>, separator: char)
    ensures
        forall|i: int|
            0 <= i < pieces(s, separator).len() ==> !(#[trigger] pieces(s, separator)[i]).contains(
                separator,
            ),
    decreases s.len(),
{
    if s.len() > 0 {
        let before = pieces(s.drop_last(), separator);
        lemma_pieces_nonempty(s.drop_last(), separator);
        lemma_pieces_exclude_separator(s.drop_last(), separator);
        if s.last() != separator {
            let grown = before.last().push(s.last());
            assert(!before.last().contains(separator));
            assert forall|k: int| 0 <= k < grown.len() implies grown[k] != separator by {
                if k < before.last().len() {
                    assert(before.last().contains(before.last()[k]));
                }
            }
        }
    }
}

/// Writing the pieces of a text back with the separator between them gives the text.
pub proof fn lemma_joined_pieces(s: Seq<char>, separator: char)
    ensures
        joined(pieces(s, separator), seq![separator]) == s,
    decreases s.len(),
{
    if s.len() == 0 {
        assert(joined(seq![Seq::<char>::empty()], seq![separator]) =~= s);
    } else {
        let rest = s.drop_last();
        let before = pieces(rest, separator);
        lemma_pieces_nonempty(rest, separator);
        lemma_joined_pieces(rest, separator);
        let sep = seq![separator];
        if s.last() == separator {
            let after = before.push(Seq::<char>::empty());
            assert(after.drop_last() =~= before);
            assert(joined(after, sep) =~= rest + sep);
            assert(rest + sep =~= s);
        } else {
            let grown = before.last().push(s.last());
            let after = before.drop_last().push(grown);
            assert(after.drop_last() =~= before.drop_last());
            if before.len() == 1 {
                assert(joined(after, sep) =~= rest.push(s.last()));
            } else {
                assert(joined(after, sep) =~= (joined(before.drop_last(), sep) + sep
                    + before.last()).push(s.last()));
            }
            assert(rest.push(s.last()) =~= s);
        }
    }
}

/// A character that stands neither in any part nor in the separator does not stand
/// in the joined text.
pub proof fn lemma_joined_excludes(parts: Seq<Seq<char>>, separator: Seq<char>, c: char)
    requires
        !separator.contains(c),
        forall|i: int| 0 <= i < parts.len() ==> !(#[trigger] parts[i]).contains(c),
    ensures
        !joined(parts, separator).contains(c),
    decreases parts.len(),
{
    if parts.len() >= 2 {
        let front = parts.drop_last();
        assert forall|i: int| 0 <= i < front.len() implies !(#[trigger] front[i]).contains(c) by {
            assert(front[i] == parts[i]);
        }
        lemma_joined_excludes(front, separator, c);
        let head = joined(front, separator);
        let whole = head + separator + parts.last();
        assert forall|k: int| 0 <= k < whole.len() implies whole[k] != c by {
            if k < head.len() {
                assert(head.contains(head[k]));
            } else if k < head.len() + separator.len() {
                assert(separator.contains(separator[k - head.len()]));
            } else {
                assert(parts.last().contains(parts.last()[k - head.len() - separator.len()]));
            }
        }
    } else if parts.len() == 1 {
        assert(!parts[0].contains(c));
    }
}

/// A flattened text holds no line break.
pub proof fn lemma_flattened_is_one_line(s: Seq<char>)
    ensures
        !flattened(s).contains('\n'),
{
    lemma_pieces_exclude_separator(s, '\n');
    let blank = seq![' '];
    assert forall|k: int| 0 <= k < blank.len() implies blank[k] != '\n' by {}
    lemma_joined_excludes(pieces(s, '\n'), blank, '\n');
}

/// A text without a line break is left as it is by flattening.
pub proof fn lemma_flattened_keeps_one_line(s: Seq<char>)
    requires
        !s.contains('\n'),
    ensures
        flattened(s) == s,
{
    lemma_single_piece(s, '\n');
}

/// A text that does not hold the separator is its own single piece.
pub proof fn lemma_single_piece(s: Seq<char>, separator: char)
    requires
        !s.contains(separator),
    ensures
        pieces(s, separator) == seq![s],
    decreases s.len(),
{
    if s.len() == 0 {
        assert(s =~= Seq::<char>::empty());
    } else {
        let rest = s.drop_last();
        assert forall|k: int| 0 <= k < rest.len() implies rest[k] != separator by {
            assert(s.contains(s[k]));
        }
        lemma_single_piece(rest, separator);
        assert(s.contains(s.last()));
        assert(rest.push(s.last()) =~= s);
        assert(seq![rest].drop_last().push(rest.push(s.last())) =~= seq![s]);
    }
}

/// The characters of a string slice, in order.
pub fn to_chars(s: &str) -> (chars: Vec<char>)
    ensures
        chars@ == s@,
{
    let mut chars: Vec<char> = Vec::new();
    for c in it: s.chars()
        invariant
            chars@ == it.seq().take(it.index() as int),
            it.seq() == s@,
    {
        chars.push(c);
    }
    chars
}

/// Whether two string slices hold the same text.
pub fn equal(a: &str, b: &str) -> (same: bool)
    ensures
        same == (a@ == b@),
{
    let left = to_chars(a);
    let right = to_chars(b);
    if left.len() != right.len() {
        return false;
    }
    let mut i: usize = 0;
    while i < left.len()
        invariant
            left@ == a@,
            right@ == b@,
            left.len() == right.len(),
            i <= left.len(),
            left@.take(i as int) == right@.take(i as int),
        decreases left.len() - i,
    {
        if left[i] != right[i] {
            assert(a@[i as int] != b@[i as int]);
            return false;
        }
        i += 1;
        assert(left@.take(i as int) =~= left@.take(i - 1).push(left@[i - 1]));
        assert(right@.take(i as int) =~= right@.take(i - 1).push(right@[i - 1]));
    }
    assert(left@ =~= left@.take(i as int));
    assert(right@ =~= right@.take(i as int));
    true
}

/// Whether `pattern` stands in `text` at offset `at`, on characters already taken
/// out of their strings.
fn chars_occur_at(pattern: &Vec<char>, text: &Vec<char>, at: usize) -> (found: bool)
    requires
        at + pattern.len() <= text.len(),
    ensures
        found == occurs_at(pattern@, text@, at as int),
{
    let mut k: usize = 0;
    while k < pattern.len()
        invariant
            at + pattern.len() <= text.len(),
            k <= pattern.len(),
            text@.subrange(at as int, at + k) == pattern@.take(k as int),
        decreases pattern.len() - k,
    {
        if text[at + k] != pattern[k] {
            assert(text@.subrange(at as int, at + pattern.len())[k as int] != pattern@[k as int]);
            return false;
        }
        k += 1;
        assert(text@.subrange(at as int, at + k) =~= text@.subrange(at as int, at + k - 1).push(
            text@[at + k - 1],
        ));
        assert(pattern@.take(k as int) =~= pattern@.take(k - 1).push(pattern@[k - 1]));
    }
    assert(pattern@.take(k as int) =~= pattern@);
    true
}

/// Whether `s` begins with `prefix`.
pub fn starts_with(s: &str, prefix: &str) -> (found: bool)
    ensures
        found == prefix@.is_prefix_of(s@),
{
    let text = to_chars(s);
    let pattern = to_chars(prefix);
    if pattern.len() > text.len() {
        return false;
    }
    chars_occur_at(&pattern, &text, 0)
}

/// Whether `pattern` stands somewhere in `s`.
pub fn contains(s: &str, pattern: &str) -> (found: bool)
    ensures
        found == occurs_in(pattern@, s@),
{
    let text = to_chars(s);
    let wanted = to_chars(pattern);
    if wanted.len() > text.len() {
        return false;
    }
    let last: usize = text.len() - wanted.len();
    let mut at: usize = 0;
    loop
        invariant
            text@ == s@,
            wanted@ == pattern@,
            last + wanted.len() == text.len(),
            at <= last,
            forall|k: int| 0 <= k < at ==> !occurs_at(pattern@, s@, k),
        decreases last - at,
    {
        if chars_occur_at(&wanted, &text, at) {
            return true;
        }
        if at == last {
            return false;
        }
        at += 1;
    }
}

/// Cuts `s` at every `separator` and returns the pieces in order.
pub fn split(s: &str, separator: char) -> (parts: Vec<String>)
    ensures
        parts.deep_view() == pieces(s@, separator),
        parts.len() >= 1,
        joined(parts.deep_view(), seq![separator]) == s@,
{
    proof {
        lemma_pieces_nonempty(s@, separator);
        lemma_joined_pieces(s@, separator);
    }
    let chars = to_chars(s);
    let n: usize = chars.len();
    let mut parts: Vec<String> = Vec::new();
    let mut start: usize = 0;
    let mut i: usize = 0;
    proof {
        assert(s@.take(0) =~= Seq::<char>::empty());
        assert(parts.deep_view().push(s@.subrange(0, 0)) =~= seq![Seq::<char>::empty()]);
    }
    while i < n
        invariant
            chars@ == s@,
            n == chars.len(),
            start <= i <= n,
            pieces(s@.take(i as int), separator) == parts.deep_view().push(
                s@.subrange(start as int, i as int),
            ),
        decreases n - i,
    {
        let ghost done = parts.deep_view();
        let ghost open = s@.subrange(start as int, i as int);
        proof {
            assert(s@.take(i + 1).drop_last() =~= s@.take(i as int));
            assert(s@.take(i + 1).last() == s@[i as int]);
        }
        if chars[i] == separator {
            parts.push(String::from_str(s.substring_char(start, i)));
            start = i + 1;
            proof {
                assert(parts.deep_view() =~= done.push(open));
                assert(s@.subrange(start as int, i + 1) =~= Seq::<char>::empty());
            }
        } else {
            proof {
                assert(done.push(open).drop_last() =~= done);
                assert(s@.subrange(start as int, i + 1) =~= open.push(s@[i as int]));
            }
        }
        i += 1;
    }
    proof {
        assert(s@.take(n as int) =~= s@);
    }
    let ghost done = parts.deep_view();
    parts.push(String::from_str(s.substring_char(start, n)));
    proof {
        assert(parts.deep_view() =~= done.push(s@.subrange(start as int, n as int)));
    }
    parts
}

/// Writes the parts one after another with `separator` between neighbours.
pub fn join(parts: &Vec<String>, separator: &str) -> (line: String)
    ensures
        line@ == joined(parts.deep_view(), separator@),
{
    let mut line = String::new();
    let mut i: usize = 0;
    proof {
        assert(parts.deep_view().take(0) =~= Seq::<Seq<char>>::empty());
    }
    while i < parts.len()
        invariant
            i <= parts.len(),
            line@ == joined(parts.deep_view().take(i as int), separator@),
        decreases parts.len() - i,
    {
        let ghost so_far = parts.deep_view().take(i as int);
        let ghost next = parts.deep_view().take(i + 1);
        proof {
            assert(next.drop_last() =~= so_far);
            assert(next.last() == parts[i as int]@);
        }
        if i > 0 {
            line.append(separator);
        }
        line.append(parts[i].as_str());
        proof {
            if i == 0 {
                assert(line@ =~= next[0]);
            }
        }
        i += 1;
    }
    proof {
        assert(parts.deep_view().take(parts.len() as int) =~= parts.deep_view());
    }
    line
}

/// A copy of every text, in order.
pub fn copy_all(texts: &Vec<String>) -> (copies: Vec<String>)
    ensures
        copies.deep_view() == texts.deep_view(),
{
    let mut copies: Vec<String> = Vec::new();
    let mut i: usize = 0;
    while i < texts.len()
        invariant
            i <= texts.len(),
            copies.deep_view() == texts.deep_view().take(i as int),
        decreases texts.len() - i,
    {
        let ghost before = copies.deep_view();
        copies.push(texts[i].clone());
        assert(copies.deep_view() =~= before.push(texts[i as int]@));
        assert(texts.deep_view().take(i + 1) =~= before.push(texts[i as int]@));
        i += 1;
    }
    assert(texts.deep_view().take(i as int) =~= texts.deep_view());
    copies
}

/// The one-character text of a decimal digit.
fn digit_text(d: u64) -> (text: &'static str)
    requires
        d < 10,
    ensures
        text@ == seq![digit(d as nat)],
{
    proof {
        reveal_strlit("0");
        reveal_strlit("1");
        reveal_strlit("2");
        reveal_strlit("3");
        reveal_strlit("4");
        reveal_strlit("5");
        reveal_strlit("6");
        reveal_strlit("7");
        reveal_strlit("8");
        reveal_strlit("9");
    }
    let text = if d == 0 {
        "0"
    } else if d == 1 {
        "1"
    } else if d == 2 {
        "2"
    } else if d == 3 {
        "3"
    } else if d == 4 {
        "4"
    } else if d == 5 {
        "5"
    } else if d == 6 {
        "6"
    } else if d == 7 {
        "7"
    } else if d == 8 {
        "8"
    } else {
        "9"
    };
    assert(text@ =~= seq![digit(d as nat)]);
    text
}

/// Writes `n` in decimal.
pub fn decimal(n: u64) -> (text: String)
    ensures
        text@ == numeral(n as nat),
    decreases n,
{
    if n < 10 {
        String::from_str(digit_text(n))
    } else {
        let mut text = decimal(n / 10);
        text.append(digit_text(n % 10));
        assert(text@ =~= numeral((n / 10) as nat).push(digit((n % 10) as nat)));
        text
    }
}

/// Writes a possibly negative `n` in decimal.
pub fn signed_decimal(n: i64) -> (text: String)
    ensures
        text@ == signed_numeral(n as int),
{
    if n < 0 {
        let magnitude: u64 = if n == i64::MIN {
            9223372036854775808u64
        } else {
            (-n) as u64
        };
        let mut text = String::from_str("-");
        proof {
            reveal_strlit("-");
        }
        let digits = decimal(magnitude);
        text.append(digits.as_str());
        assert(text@ =~= seq!['-'] + numeral((-n) as nat));
        text
    } else {
        decimal(n as u64)
    }
}

/// Replaces every line break in `s` by a single blank.
pub fn flatten(s: &str) -> (line: String)
    ensures
        line@ == flattened(s@),
        !line@.contains('\n'),
        !s@.contains('\n') ==> line@ == s@,
{
    let parts = split(s, '\n');
    proof {
        reveal_strlit(" ");
        assert(" "@ =~= seq![' ']);
        lemma_flattened_is_one_line(s@);
        if !s@.contains('\n') {
            lemma_flattened_keeps_one_line(s@);
        }
    }
    join(&parts, " ")
}

} // verus!
