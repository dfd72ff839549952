//! Strings as sequences of characters: substring search, joining, decimal
//! numerals and lower case.

use vstd::prelude::*;

verus! {

/// The lower-case form of a text that is not all ASCII, as Unicode defines it.
///
/// It is what [`str::to_lowercase`] returns for such a text.
pub uninterp spec fn unicode_lowercase(s: Seq<char>) -> Seq<char>;

/// All characters are ASCII.
pub open spec fn is_ascii(s: Seq<char>) -> bool {
    forall|k: int| 0 <= k < s.len() ==> #[trigger] s[k] <= '\u{7f}'
}

/// The lower case of an ASCII letter. Every other character stays.
pub open spec fn ascii_lower(c: char) -> char {
    if 'A' <= c <= 'Z' {
        (c as int + 32) as char
    } else {
        c
    }
}

/// The upper case of an ASCII letter. Every other character stays.
pub open spec fn ascii_upper(c: char) -> char {
    if 'a' <= c <= 'z' {
        (c as int - 32) as char
    } else {
        c
    }
}

/// The text with its ASCII letters in lower case.
pub open spec fn ascii_lowercase(s: Seq<char>) -> Seq<char> {
    s.map_values(|c: char| ascii_lower(c))
}

/// The text with its ASCII letters in upper case.
pub open spec fn ascii_uppercase(s: Seq<char>) -> Seq<char> {
    s.map_values(|c: char| ascii_upper(c))
}

/// The lower-case form of a text: letter by letter where the text is ASCII, as Unicode
/// defines it otherwise.
pub open spec fn lowercase(s: Seq<char>) -> Seq<char> {
    if is_ascii(s) {
        ascii_lowercase(s)
    } else {
        unicode_lowercase(s)
    }
}

/// [`str::to_lowercase`] maps a text to its Unicode lower-case form. On ASCII text that
/// replaces each letter `A` to `Z` by its lower case and keeps the rest. On other text the
/// result depends on the text alone; nothing else is claimed of it.
pub assume_specification[ str::to_lowercase ](s: &str) -> (res: String)
    ensures
        res@ == if is_ascii(s@) {
            ascii_lowercase(s@)
        } else {
            unicode_lowercase(s@)
        },
;

/// `word` stands in `text` at position `at`.
pub open spec fn occurs_at(text: Seq<char>, word: Seq<char>, at: int) -> bool {
    &&& 0 <= at
    &&& at + word.len() <= text.len()
    &&& text.subrange(at, at + word.len()) == word
}

/// `word` is a substring of `text`. The empty word is a substring of every text.
pub open spec fn occurs(text: Seq<char>, word: Seq<char>) -> bool {
    exists|at: int| occurs_at(text, word, at)
}

/// The contents of a list of strings.
pub open spec fn views(list: Seq<String>) -> Seq<Seq<char>> {
    list.map_values(|s: String| s@)
}

/// The parts in order, with the separator between each two of them.
pub open spec fn joined(parts: Seq<Seq<char>>, separator: Seq<char>) -> Seq<char>
    decreases parts.len(),
{
    if parts.len() == 0 {
        Seq::empty()
    } else if parts.len() == 1 {
        parts[0]
    } else {
        joined(parts.drop_last(), separator) + separator + parts.last()
    }
}

/// The character for a digit below ten.
pub open spec fn digit(d: nat) -> char {
    (48 + d) as char
}

/// The decimal numeral of a number, without leading zeros.
pub open spec fn decimal(n: nat) -> Seq<char>
    decreases n,
{
    if n < 10 {
        seq![digit(n)]
    } else {
        decimal(n / 10).push(digit(n % 10))
    }
}

/// The text is a decimal numeral: one or more digits.
pub open spec fn is_numeral(s: Seq<char>) -> bool {
    &&& s.len() > 0
    &&& forall|k: int| 0 <= k < s.len() ==> '0' <= #[trigger] s[k] <= '9'
}

/// The number that a decimal numeral denotes.
pub open spec fn numeral_value(s: Seq<char>) -> int
    decreases s.len(),
{
    if s.len() == 0 {
        0
    } else {
        10 * numeral_value(s.drop_last()) + (s.last() as int - '0' as int)
    }
}

/// The characters of a string.
pub fn chars_of(s: &str) -> (res: Vec<char>)
    ensures
        res@ == s@,
{
    let mut res: Vec<char> = Vec::new();
    for c in it: s.chars()
        invariant
            it.seq() == s@,
            res@ == s@.take(it.index() as int),
    {
        res.push(c);
    }
    res
}

fn stands_at(text: &[char], word: &[char], at: usize) -> (res: bool)
    requires
        at + word@.len() <= text@.len(),
    ensures
        res == occurs_at(text@, word@, at as int),
{
    let mut k: usize = 0;
    while k < word.len()
        invariant
            at + word@.len() <= text.len() == text@.len(),
            k <= word@.len(),
            forall|j: int| 0 <= j < k ==> text@[at + j] == #[trigger] word@[j],
        decreases word@.len() - k,
    {
        if text[at + k] != word[k] {
            assert(text@.subrange(at as int, at + word@.len())[k as int] != word@[k as int]);
            return false;
        }
        k += 1;
    }
    assert(text@.subrange(at as int, at + word@.len()) =~= word@);
    true
}

/// Whether `word` is a substring of `text`, both given as characters.
pub fn contains_chars(text: &[char], word: &[char]) -> (res: bool)
    ensures
        res == occurs(text@, word@),
{
    if word.len() > text.len() {
        return false;
    }
    let last: usize = text.len() - word.len();
    let mut at: usize = 0;
    loop
        invariant
            word@.len() <= text@.len(),
            last == text@.len() - word@.len(),
            at <= last,
            forall|j: int| 0 <= j < at ==> !#[trigger] occurs_at(text@, word@, j),
        decreases last - at,
    {
        if stands_at(text, word, at) {
            return true;
        }
        if at == last {
            return false;
        }
        at += 1;
    }
}

/// Whether the character occurs among the given ones.
pub fn contains_char(text: &[char], c: char) -> (res: bool)
    ensures
        res == text@.contains(c),
{
    let mut k: usize = 0;
    while k < text.len()
        invariant
            k <= text@.len(),
            forall|j: int| 0 <= j < k ==> text@[j] != c,
        decreases text@.len() - k,
    {
        if text[k] == c {
            return true;
        }
        k += 1;
    }
    false
}

/// Concatenates the parts with the separator between each two of them.
pub fn join(parts: &[String], separator: &str) -> (res: String)
    ensures
        res@ == joined(views(parts@), separator@),
{
    let mut res = String::new();
    let mut k: usize = 0;
    while k < parts.len()
        invariant
            k <= parts@.len(),
            res@ == joined(views(parts@).take(k as int), separator@),
        decreases parts@.len() - k,
    {
        if k > 0 {
            res.append(separator);
        }
        res.append(parts[k].as_str());
        proof {
            let done = views(parts@).take(k as int);
            let next = views(parts@).take(k + 1);
            assert(next.drop_last() =~= done);
            assert(next.last() == parts@[k as int]@);
        }
        k += 1;
    }
    assert(views(parts@).take(k as int) =~= views(parts@));
    res
}

/// The decimal numeral of a number.
pub fn decimal_string(n: u128) -> (res: String)
    ensures
        res@ == decimal(n as nat),
    decreases n,
{
    let digits = "0123456789";
    proof {
        reveal_strlit("0123456789");
    }
    let d: usize = (n % 10) as usize;
    let mut res = if n < 10 {
        String::new()
    } else {
        decimal_string(n / 10)
    };
    let ghost before = res@;
    res.append(digits.substring_char(d, d + 1));
    assert(digits@.subrange(d as int, d + 1) =~= seq![digit(d as nat)]);
    assert(res@ =~= before.push(digit(d as nat)));
    res
}

/// Reads a decimal numeral that denotes a 16-bit number. Any other text gives `None`.
pub fn parse_u16(s: &str) -> (res: Option<u16>)
    ensures
        match res {
            Some(n) => is_numeral(s@) && numeral_value(s@) == n,
            None => !is_numeral(s@) || numeral_value(s@) > u16::MAX,
        },
{
    let chars = chars_of(s);
    if chars.len() == 0 {
        return None;
    }
    // The value of the digits so far, or 65536 once it is larger than any 16-bit number.
    let mut value: u32 = 0;
    let mut k: usize = 0;
    while k < chars.len()
        invariant
            chars@ == s@,
            k <= chars@.len(),
            forall|j: int| 0 <= j < k ==> '0' <= #[trigger] chars@[j] <= '9',
            value <= 65536,
            value < 65536 ==> numeral_value(chars@.take(k as int)) == value,
            value == 65536 ==> numeral_value(chars@.take(k as int)) >= value,
        decreases chars@.len() - k,
    {
        let c = chars[k];
        if c < '0' || c > '9' {
            return None;
        }
        let next: u32 = 10 * value + (c as u32 - '0' as u32);
        value = if next > 65535 {
            65536
        } else {
            next
        };
        proof {
            let read = chars@.take(k + 1);
            assert(read.drop_last() =~= chars@.take(k as int));
            assert(read.last() == c);
        }
        k += 1;
    }
    assert(chars@.take(k as int) =~= chars@);
    if value > 65535 {
        None
    } else {
        Some(value as u16)
    }
}

/// The numeral of a number denotes that number.
pub proof fn law_numeral_of_a_number(n: nat)
    ensures
        is_numeral(decimal(n)),
        numeral_value(decimal(n)) == n,
    decreases n,
{
    assert(decimal(n).last() == digit(n % 10));
    if n < 10 {
        assert(decimal(n).drop_last() =~= Seq::<char>::empty());
        assert(numeral_value(decimal(n).drop_last()) == 0);
    } else {
        law_numeral_of_a_number(n / 10);
        assert(decimal(n).drop_last() =~= decimal(n / 10));
    }
}

/// The numeral of a number has no leading zero. With what it denotes, this leaves one
/// numeral for each number.
pub proof fn law_numeral_has_no_leading_zero(n: nat)
    ensures
        decimal(n).len() > 1 ==> decimal(n)[0] != '0',
        n > 0 ==> decimal(n)[0] != '0',
    decreases n,
{
    if n >= 10 {
        law_numeral_has_no_leading_zero(n / 10);
        law_numeral_of_a_number(n / 10);
        assert(decimal(n)[0] == decimal(n / 10)[0]);
    }
}

/// One more digit makes ten times the number and the digit. Nothing but digits makes a
/// numeral, and there is at least one.
pub proof fn law_one_more_digit(s: Seq<char>, c: char)
    ensures
        !is_numeral(Seq::empty()),
        is_numeral(s.push(c)) <==> (s.len() == 0 || is_numeral(s)) && '0' <= c <= '9',
        numeral_value(seq![c]) == c as int - '0' as int,
        numeral_value(s.push(c)) == 10 * numeral_value(s) + (c as int - '0' as int),
{
    assert(s.push(c).drop_last() =~= s);
    assert(seq![c].drop_last() =~= Seq::<char>::empty());
    assert(numeral_value(Seq::<char>::empty()) == 0);
    if is_numeral(s.push(c)) {
        assert(s.push(c)[s.len() as int] == c);
        assert forall|k: int| 0 <= k < s.len() implies '0' <= #[trigger] s[k] <= '9' by {
            assert(s.push(c)[k] == s[k]);
        }
    }
}

/// The contents of a list of strings are the contents of each, in order.
pub proof fn law_views(list: Seq<String>, k: int)
    ensures
        views(list).len() == list.len(),
        0 <= k < list.len() ==> views(list)[k] == list[k]@,
{
}

/// A word occurs in a text whatever stands before it and behind it.
pub proof fn law_word_in_context_occurs(before: Seq<char>, word: Seq<char>, after: Seq<char>)
    ensures
        occurs(before + word + after, word),
{
    let text = before + word + after;
    let at = before.len() as int;
    assert(text.subrange(at, at + word.len()) =~= word);
    assert(occurs_at(text, word, at));
}

/// A text in which a word occurs is the word with something before it and something
/// behind it, both of which may be empty.
pub proof fn law_occurring_word_parts_the_text(text: Seq<char>, word: Seq<char>) -> (res: (
    Seq<char>,
    Seq<char>,
))
    requires
        occurs(text, word),
    ensures
        text == res.0 + word + res.1,
{
    let at = choose|at: int| occurs_at(text, word, at);
    let end = at + word.len();
    assert(text =~= text.take(at) + text.subrange(at, end) + text.skip(end));
    (text.take(at), text.skip(end))
}

/// Joining two lists that are not empty gives the two joined texts with the separator
/// between them. One part joins to itself, and none to the empty text.
pub proof fn law_joining(
    first: Seq<Seq<char>>,
    second: Seq<Seq<char>>,
    part: Seq<char>,
    separator: Seq<char>,
)
    ensures
        joined(Seq::empty(), separator) == Seq::<char>::empty(),
        joined(seq![part], separator) == part,
        first.len() > 0 && second.len() > 0 ==> joined(first + second, separator) == joined(
            first,
            separator,
        ) + separator + joined(second, separator),
    decreases second.len(),
{
    if first.len() > 0 && second.len() > 0 {
        let all = first + second;
        assert(all.drop_last() =~= first + second.drop_last());
        assert(all.last() == second.last());
        if second.len() == 1 {
            assert(all.drop_last() =~= first);
        } else {
            law_joining(first, second.drop_last(), part, separator);
            assert(joined(all, separator) =~= joined(first, separator) + separator + joined(
                second,
                separator,
            ));
        }
    }
}

/// In lower case an ASCII text keeps its length, its capital letters become the small
/// ones, and every other character stays.
pub proof fn law_lower_case_of_ascii(s: Seq<char>, k: int)
    requires
        forall|j: int| 0 <= j < s.len() ==> #[trigger] s[j] <= '\u{7f}',
    ensures
        lowercase(s).len() == s.len(),
        0 <= k < s.len() && 'A' <= s[k] <= 'Z' ==> lowercase(s)[k] as int - 'a' as int
            == s[k] as int - 'A' as int,
        0 <= k < s.len() && !('A' <= s[k] <= 'Z') ==> lowercase(s)[k] == s[k],
{
}

/// The lower case of a text that is not all ASCII is the one of Unicode.
pub proof fn law_lower_case_of_other_text(s: Seq<char>, k: int)
    requires
        0 <= k < s.len(),
        s[k] > '\u{7f}',
    ensures
        lowercase(s) == unicode_lowercase(s),
{
}

/// What occurs in a text occurs in every text that goes on after it.
pub proof fn lemma_occurs_in_longer(text: Seq<char>, longer: Seq<char>, word: Seq<char>)
    requires
        text.is_prefix_of(longer),
        occurs(text, word),
    ensures
        occurs(longer, word),
{
    let at = choose|at: int| occurs_at(text, word, at);
    assert(longer.subrange(at, at + word.len()) =~= text.subrange(at, at + word.len()));
    assert(occurs_at(longer, word, at));
}

/// Upper case and lower case have the same lower-case form.
pub proof fn lemma_upper_then_lower(s: Seq<char>)
    ensures
        ascii_lowercase(ascii_uppercase(s)) == ascii_lowercase(s),
{
    assert(ascii_lowercase(ascii_uppercase(s)) =~= ascii_lowercase(s));
}

/// The parts with their ASCII letters in lower case join to the joined text in lower
/// case, where the separator is ASCII without upper-case letters. ASCII parts join to
/// ASCII text.
pub proof fn lemma_joined_lowercase(parts: Seq<Seq<char>>, separator: Seq<char>)
    requires
        is_ascii(separator),
        ascii_lowercase(separator) == separator,
    ensures
        ascii_lowercase(joined(parts, separator)) == joined(
            parts.map_values(|p: Seq<char>| ascii_lowercase(p)),
            separator,
        ),
        (forall|k: int| 0 <= k < parts.len() ==> is_ascii(#[trigger] parts[k])) ==> is_ascii(
            joined(parts, separator),
        ),
    decreases parts.len(),
{
    let lowered = parts.map_values(|p: Seq<char>| ascii_lowercase(p));
    if parts.len() > 1 {
        let front = parts.drop_last();
        lemma_joined_lowercase(front, separator);
        assert(lowered.drop_last() =~= front.map_values(|p: Seq<char>| ascii_lowercase(p)));
        let head = joined(front, separator) + separator;
        assert(ascii_lowercase(head + parts.last()) =~= ascii_lowercase(joined(front, separator))
            + ascii_lowercase(separator) + ascii_lowercase(parts.last()));
        if forall|k: int| 0 <= k < parts.len() ==> is_ascii(#[trigger] parts[k]) {
            assert forall|k: int| 0 <= k < front.len() implies is_ascii(#[trigger] front[k]) by {
                assert(is_ascii(parts[k]));
            }
            assert(is_ascii(parts[parts.len() - 1]));
        }
    } else if parts.len() == 0 {
        assert(ascii_lowercase(joined(parts, separator)) =~= joined(lowered, separator));
    }
}

} // verus!
