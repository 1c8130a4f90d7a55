//! Random passwords drawn from chosen classes of characters.

use rand::seq::SliceRandom;
use rand::Rng;
use vstd::prelude::*;
use vstd::seq_lib::{to_multiset_contains, to_multiset_len};

verus! {

/// Why no password could be made.
#[derive(Debug, Clone, Copy, PartialEq, Eq, Structural)]
pub enum GenPassError {
    /// No class of characters was chosen.
    NoCharacterClass,
    /// The length leaves no room for one character of each chosen class.
    TooShort,
}

impl GenPassError {
    /// What went wrong, in words.
    pub fn message(&self) -> (text: &'static str)
        ensures
            text@ == match self {
                GenPassError::NoCharacterClass => "no class of characters was chosen"@,
                GenPassError::TooShort => "the length is less than the number of chosen classes"@,
            },
    {
        match self {
            GenPassError::NoCharacterClass => "no class of characters was chosen",
            GenPassError::TooShort => "the length is less than the number of chosen classes",
        }
    }
}

/// Upper-case letters, without `I` and `O`, which are easily misread.
pub open spec fn is_upper(c: char) -> bool {
    'A' <= c <= 'Z' && c != 'I' && c != 'O'
}

/// Lower-case letters, without `l`, which is easily misread.
pub open spec fn is_lower(c: char) -> bool {
    'a' <= c <= 'z' && c != 'l'
}

/// Digits, without `0`, which is easily misread.
pub open spec fn is_number(c: char) -> bool {
    '1' <= c <= '9'
}

/// The punctuation that passwords use.
pub open spec fn is_symbol(c: char) -> bool {
    c == '!' || c == '@' || c == '#' || c == '$' || c == '%' || c == '^' || c == '&' || c == '*'
        || c == '_'
}

/// Whether `c` belongs to one of the chosen classes.
pub open spec fn is_allowed(c: char, upper: bool, lower: bool, number: bool, symbol: bool) -> bool {
    ||| upper && is_upper(c)
    ||| lower && is_lower(c)
    ||| number && is_number(c)
    ||| symbol && is_symbol(c)
}

/// Whether every character of `chars` belongs to one of the chosen
/// classes.
pub open spec fn all_allowed(
    chars: Seq<char>,
    upper: bool,
    lower: bool,
    number: bool,
    symbol: bool,
) -> bool {
    forall|i: int|
        0 <= i < chars.len() ==> is_allowed(#[trigger] chars[i], upper, lower, number, symbol)
}

/// How many classes are chosen.
pub open spec fn class_count(upper: bool, lower: bool, number: bool, symbol: bool) -> nat {
    (if upper { 1nat } else { 0nat }) + (if lower { 1nat } else { 0nat })
        + (if number { 1nat } else { 0nat }) + (if symbol { 1nat } else { 0nat })
}

/// Whether `text` is a password of `length` characters over the chosen
/// classes: every character belongs to one of them, and each of them has
/// at least one character in it.
pub open spec fn is_password(
    text: Seq<char>,
    length: nat,
    upper: bool,
    lower: bool,
    number: bool,
    symbol: bool,
) -> bool {
    &&& text.len() == length
    &&& all_allowed(text, upper, lower, number, symbol)
    &&& upper ==> exists|c: char| #[trigger] text.contains(c) && is_upper(c)
    &&& lower ==> exists|c: char| #[trigger] text.contains(c) && is_lower(c)
    &&& number ==> exists|c: char| #[trigger] text.contains(c) && is_number(c)
    &&& symbol ==> exists|c: char| #[trigger] text.contains(c) && is_symbol(c)
}

/// `rand::Rng::gen_range` on the thread's generator, over `0..bound`: some
/// index below `bound`.
#[verifier::external_body]
fn random_index(bound: usize) -> (index: usize)
    requires
        bound > 0,
    ensures
        index < bound,
{
    rand::thread_rng().gen_range(0..bound)
}

/// `rand::seq::SliceRandom::shuffle` on the thread's generator: the same
/// characters, each as often as before, in some order.
#[verifier::external_body]
fn shuffle(chars: &mut Vec<char>)
    ensures
        final(chars)@.to_multiset() == old(chars)@.to_multiset(),
{
    chars.shuffle(&mut rand::thread_rng());
}

/// `String::push`: the string with `c` added at its end.
#[verifier::external_body]
fn push_char(text: &mut String, c: char)
    ensures
        final(text)@ == old(text)@.push(c),
{
    text.push(c);
}

/// The characters from `first` to `last`, in order, without the two to
/// skip.
fn range_chars(first: u8, last: u8, skip_a: u8, skip_b: u8) -> (chars: Vec<char>)
    requires
        first <= last < 128,
    ensures
        forall|c: char|
            chars@.contains(c) <==> ((first as char) <= c <= (last as char) && c != (skip_a as char)
                && c != (skip_b as char)),
{
    let mut chars: Vec<char> = Vec::new();
    let mut code: u8 = first;
    while code <= last
        invariant
            first <= code <= last + 1,
            last < 128,
            forall|c: char|
                chars@.contains(c) <==> ((first as char) <= c < (code as char) && c != (
                skip_a as char) && c != (skip_b as char)),
        decreases last + 1 - code,
    {
        let ghost before = chars@;
        let ghost next = (code + 1) as u8;
        if code != skip_a && code != skip_b {
            chars.push(code as char);
        }
        assert forall|c: char|
            chars@.contains(c) <==> ((first as char) <= c < (next as char) && c != (skip_a as char)
                && c != (skip_b as char)) by {
            if chars@.contains(c) {
                let i = choose|i: int| 0 <= i < chars@.len() && chars@[i] == c;
                if i < before.len() {
                    assert(before[i] == c);
                    assert(before.contains(c));
                }
            }
            if (first as char) <= c < (next as char) && c != (skip_a as char) && c != (
            skip_b as char) {
                if c < (code as char) {
                    assert(before.contains(c));
                    let i = choose|i: int| 0 <= i < before.len() && before[i] == c;
                    assert(chars@[i] == c);
                } else {
                    assert(c == (code as char));
                    assert(chars@[before.len() as int] == c);
                }
            }
        }
        code += 1;
    }
    chars
}

/// The upper-case letters that passwords use.
pub fn upper_chars() -> (chars: Vec<char>)
    ensures
        forall|c: char| #[trigger] chars@.contains(c) <==> is_upper(c),
{
    range_chars(65, 90, 73, 79)
}

/// The lower-case letters that passwords use.
pub fn lower_chars() -> (chars: Vec<char>)
    ensures
        forall|c: char| #[trigger] chars@.contains(c) <==> is_lower(c),
{
    range_chars(97, 122, 108, 108)
}

/// The digits that passwords use.
pub fn number_chars() -> (chars: Vec<char>)
    ensures
        forall|c: char| #[trigger] chars@.contains(c) <==> is_number(c),
{
    range_chars(49, 57, 48, 48)
}

/// The punctuation that passwords use.
pub fn symbol_chars() -> (chars: Vec<char>)
    ensures
        forall|c: char| #[trigger] chars@.contains(c) <==> is_symbol(c),
{
    let chars: Vec<char> = vec!['!', '@', '#', '$', '%', '^', '&', '*', '_'];
    assert forall|c: char| chars@.contains(c) <==> is_symbol(c) by {
        if is_symbol(c) {
            assert(chars@[0] == '!' && chars@[1] == '@' && chars@[2] == '#' && chars@[3] == '$'
                && chars@[4] == '%' && chars@[5] == '^' && chars@[6] == '&' && chars@[7] == '*'
                && chars@[8] == '_');
        }
    }
    chars
}

/// Some character of `chars`.
fn pick(chars: &Vec<char>) -> (c: char)
    requires
        chars.len() > 0,
    ensures
        chars@.contains(c),
{
    let index = random_index(chars.len());
    chars[index]
}

/// Draws one character of `class` into `password` and adds the whole class
/// to `pool`.
fn take_class(password: &mut Vec<char>, pool: &mut Vec<char>, class: Vec<char>) -> (drawn: char)
    requires
        class.len() > 0,
    ensures
        class@.contains(drawn),
        final(password)@ == old(password)@.push(drawn),
        final(pool)@ == old(pool)@ + class@,
{
    let mut class = class;
    let drawn = pick(&class);
    password.push(drawn);
    pool.append(&mut class);
    drawn
}

/// The string made of `chars`.
fn string_of(chars: &Vec<char>) -> (text: String)
    ensures
        text@ == chars@,
{
    let mut text = String::new();
    let mut i: usize = 0;
    while i < chars.len()
        invariant
            i <= chars.len(),
            text@ == chars@.take(i as int),
        decreases chars.len() - i,
    {
        push_char(&mut text, chars[i]);
        i += 1;
        assert(chars@.take(i as int) =~= chars@.take(i - 1).push(chars@[i - 1]));
    }
    assert(chars@.take(chars.len() as int) =~= chars@);
    text
}

/// What asking for a password comes to, as far as the request decides it:
/// the reason for a refusal, or nothing where a password is owed.
pub open spec fn refusal(length: nat, upper: bool, lower: bool, number: bool, symbol: bool) -> Option<
    GenPassError,
> {
    if class_count(upper, lower, number, symbol) == 0 {
        Some(GenPassError::NoCharacterClass)
    } else if length < class_count(upper, lower, number, symbol) {
        Some(GenPassError::TooShort)
    } else {
        None
    }
}

/// A random password of `length` characters over the chosen classes, with
/// at least one character of each.
///
/// Refused where no class is chosen, and where `length` is less than the
/// number of chosen classes.
pub fn process_genpass(length: u8, upper: bool, lower: bool, number: bool, symbol: bool) -> (r:
    Result<String, GenPassError>)
    ensures
        match r {
            Ok(password) => refusal(length as nat, upper, lower, number, symbol) is None
                && is_password(password@, length as nat, upper, lower, number, symbol),
            Err(e) => refusal(length as nat, upper, lower, number, symbol) == Some(e),
        },
{
    let mut classes: u8 = 0;
    if upper {
        classes += 1;
    }
    if lower {
        classes += 1;
    }
    if number {
        classes += 1;
    }
    if symbol {
        classes += 1;
    }
    if classes == 0 {
        Err(GenPassError::NoCharacterClass)
    } else if length < classes {
        Err(GenPassError::TooShort)
    } else {
        Ok(draw_password(length, upper, lower, number, symbol))
    }
}

/// Draws the password of a request that is not refused: first one
/// character of each chosen class, then the rest from all of them
/// together, and at last everything is shuffled.
pub(crate) fn draw_password(length: u8, upper: bool, lower: bool, number: bool, symbol: bool) -> (password:
    String)
    requires
        refusal(length as nat, upper, lower, number, symbol) is None,
    ensures
        is_password(password@, length as nat, upper, lower, number, symbol),
{
    let mut password: Vec<char> = Vec::new();
    let mut pool: Vec<char> = Vec::new();
    let ghost mut seen_upper = 'A';
    let ghost mut seen_lower = 'a';
    let ghost mut seen_number = '1';
    let ghost mut seen_symbol = '!';
    if upper {
        let class = upper_chars();
        let ghost (before, pooled, added) = (password@, pool@, class@);
        assert(class@.contains('A'));
        let drawn = take_class(&mut password, &mut pool, class);
        proof {
            seen_upper = drawn;
            lemma_class_taken(before, pooled, added, drawn, upper, lower, number, symbol);
        }
    }
    if lower {
        let class = lower_chars();
        let ghost (before, pooled, added) = (password@, pool@, class@);
        assert(class@.contains('a'));
        let drawn = take_class(&mut password, &mut pool, class);
        proof {
            seen_lower = drawn;
            lemma_class_taken(before, pooled, added, drawn, upper, lower, number, symbol);
            lemma_push_keeps(before, drawn, seen_upper);
        }
    }
    if number {
        let class = number_chars();
        let ghost (before, pooled, added) = (password@, pool@, class@);
        assert(class@.contains('1'));
        let drawn = take_class(&mut password, &mut pool, class);
        proof {
            seen_number = drawn;
            lemma_class_taken(before, pooled, added, drawn, upper, lower, number, symbol);
            lemma_push_keeps(before, drawn, seen_upper);
            lemma_push_keeps(before, drawn, seen_lower);
        }
    }
    if symbol {
        let class = symbol_chars();
        let ghost (before, pooled, added) = (password@, pool@, class@);
        assert(class@.contains('!'));
        let drawn = take_class(&mut password, &mut pool, class);
        proof {
            seen_symbol = drawn;
            lemma_class_taken(before, pooled, added, drawn, upper, lower, number, symbol);
            lemma_push_keeps(before, drawn, seen_upper);
            lemma_push_keeps(before, drawn, seen_lower);
            lemma_push_keeps(before, drawn, seen_number);
        }
    }
    while password.len() < length as usize
        invariant
            password.len() <= length,
            pool.len() > 0,
            all_allowed(pool@, upper, lower, number, symbol),
            all_allowed(password@, upper, lower, number, symbol),
            upper ==> password@.contains(seen_upper) && is_upper(seen_upper),
            lower ==> password@.contains(seen_lower) && is_lower(seen_lower),
            number ==> password@.contains(seen_number) && is_number(seen_number),
            symbol ==> password@.contains(seen_symbol) && is_symbol(seen_symbol),
        decreases length - password.len(),
    {
        let ghost before = password@;
        let drawn = pick(&pool);
        password.push(drawn);
        proof {
            lemma_push_keeps(before, drawn, seen_upper);
            lemma_push_keeps(before, drawn, seen_lower);
            lemma_push_keeps(before, drawn, seen_number);
            lemma_push_keeps(before, drawn, seen_symbol);
        }
    }
    let ghost drawn_order = password@;
    shuffle(&mut password);
    proof {
        lemma_same_members(drawn_order, password@, seen_upper);
        lemma_same_members(drawn_order, password@, seen_lower);
        lemma_same_members(drawn_order, password@, seen_number);
        lemma_same_members(drawn_order, password@, seen_symbol);
        assert forall|i: int| 0 <= i < password.len() implies is_allowed(
            #[trigger] password@[i],
            upper,
            lower,
            number,
            symbol,
        ) by {
            let c = password@[i];
            assert(password@.contains(c));
            lemma_same_members(drawn_order, password@, c);
            let j = choose|j: int| 0 <= j < drawn_order.len() && drawn_order[j] == c;
            assert(is_allowed(drawn_order[j], upper, lower, number, symbol));
        }
    }
    string_of(&password)
}

/// Drawing from a class of allowed characters, and pooling that class,
/// keeps both the password and the pool within the chosen classes.
proof fn lemma_class_taken(
    password: Seq<char>,
    pool: Seq<char>,
    class: Seq<char>,
    drawn: char,
    upper: bool,
    lower: bool,
    number: bool,
    symbol: bool,
)
    requires
        all_allowed(password, upper, lower, number, symbol),
        all_allowed(pool, upper, lower, number, symbol),
        forall|c: char| #[trigger] class.contains(c) ==> is_allowed(c, upper, lower, number, symbol),
        class.contains(drawn),
    ensures
        all_allowed(password.push(drawn), upper, lower, number, symbol),
        all_allowed(pool + class, upper, lower, number, symbol),
        password.push(drawn).contains(drawn),
{
    assert forall|i: int| 0 <= i < (pool + class).len() implies is_allowed(
        #[trigger] (pool + class)[i],
        upper,
        lower,
        number,
        symbol,
    ) by {
        if i >= pool.len() {
            assert(class.contains(class[i - pool.len()]));
        }
    }
    assert(password.push(drawn)[password.len() as int] == drawn);
}

/// Two sequences that hold the same characters equally often are equally
/// long and contain the same characters.
proof fn lemma_same_members(a: Seq<char>, b: Seq<char>, c: char)
    requires
        a.to_multiset() == b.to_multiset(),
    ensures
        a.len() == b.len(),
        a.contains(c) <==> b.contains(c),
{
    to_multiset_len(a);
    to_multiset_len(b);
    to_multiset_contains(a, c);
    to_multiset_contains(b, c);
}

/// What a sequence contains it still contains after a push.
proof fn lemma_push_keeps(s: Seq<char>, pushed: char, c: char)
    ensures
        s.contains(c) ==> s.push(pushed).contains(c),
        s.push(pushed).contains(pushed),
{
    if s.contains(c) {
        let i = choose|i: int| 0 <= i < s.len() && s[i] == c;
        assert(s.push(pushed)[i] == c);
    }
    assert(s.push(pushed)[s.len() as int] == pushed);
}

} // verus!
