//! Characters, character classes and runs of characters.

use vstd::prelude::*;

verus! {

/// `nom::character::is_alphabetic` tests whether a byte is an ASCII letter,
/// `A` to `Z` or `a` to `z`.
pub assume_specification[ nom::character::is_alphabetic ](chr: u8) -> (yes: bool)
    ensures
        yes == ((0x41 <= chr && chr <= 0x5A) || (0x61 <= chr && chr <= 0x7A)),
;

/// `nom::character::is_digit` tests whether a byte is an ASCII digit, `0` to
/// `9`.
pub assume_specification[ nom::character::is_digit ](chr: u8) -> (yes: bool)
    ensures
        yes == (0x30 <= chr && chr <= 0x39),
;

/// The low eight bits of a character's code point.
pub open spec fn low_byte(c: char) -> u8 {
    (c as u32 % 256) as u8
}

/// Whether `c` has the Unicode property White_Space.
pub open spec fn is_white_space(c: char) -> bool {
    let u = c as u32;
    ||| 0x09 <= u <= 0x0D
    ||| u == 0x20
    ||| u == 0x85
    ||| u == 0xA0
    ||| u == 0x1680
    ||| 0x2000 <= u <= 0x200A
    ||| u == 0x2028
    ||| u == 0x2029
    ||| u == 0x202F
    ||| u == 0x205F
    ||| u == 0x3000
}

/// The kinds of character that the grammar tells apart.
#[derive(Clone, Copy, Debug, PartialEq, Eq, Structural)]
pub enum CharClass {
    /// A character whose low byte is an ASCII letter.
    Letter,
    /// A character whose low byte is an ASCII digit.
    Digit,
    /// The space character, U+0020.
    Space,
    /// A character with the Unicode property White_Space.
    Blank,
    /// Any character but the line feed.
    InLine,
    /// Any character but `#`.
    Code,
}

impl CharClass {
    /// Whether `c` belongs to the class.
    ///
    /// Letters and digits are judged by the low byte of the code point alone,
    /// so that a character such as U+0131, whose low byte is that of `1`,
    /// counts as a digit here. Such a character is no decimal digit, and a
    /// number that holds one has no value.
    pub open spec fn holds(self, c: char) -> bool {
        match self {
            CharClass::Letter => {
                let b = low_byte(c);
                (0x41 <= b && b <= 0x5A) || (0x61 <= b && b <= 0x7A)
            },
            CharClass::Digit => {
                let b = low_byte(c);
                0x30 <= b && b <= 0x39
            },
            CharClass::Space => c == ' ',
            CharClass::Blank => is_white_space(c),
            CharClass::InLine => c != '\n',
            CharClass::Code => c != '#',
        }
    }

    /// Tests whether `c` belongs to the class.
    pub fn test(&self, c: char) -> (yes: bool)
        ensures
            yes == self.holds(c),
    {
        let u: u32 = c as u32;
        match self {
            CharClass::Letter => nom::character::is_alphabetic((u % 256) as u8),
            CharClass::Digit => nom::character::is_digit((u % 256) as u8),
            CharClass::Space => c == ' ',
            CharClass::Blank => {
                (0x09 <= u && u <= 0x0D) || u == 0x20 || u == 0x85 || u == 0xA0 || u == 0x1680 || (
                0x2000 <= u && u <= 0x200A) || u == 0x2028 || u == 0x2029 || u == 0x202F || u
                    == 0x205F || u == 0x3000
            },
            CharClass::InLine => c != '\n',
            CharClass::Code => c != '#',
        }
    }
}

/// Where the longest run of characters of `class` that starts at `from` ends:
/// the first position at or after `from` that holds no character of the
/// class, or the length of `s` if there is none.
pub open spec fn run_end(s: Seq<char>, from: int, class: CharClass) -> int
    decreases s.len() - from,
{
    if 0 <= from < s.len() && class.holds(s[from]) {
        run_end(s, from + 1, class)
    } else {
        from
    }
}

/// Where the longest run of characters of `class` that ends at `to` starts.
pub open spec fn run_start(s: Seq<char>, to: int, class: CharClass) -> int
    decreases to,
{
    if 0 < to <= s.len() && class.holds(s[to - 1]) {
        run_start(s, to - 1, class)
    } else {
        to
    }
}

/// A run ends where [`run_end`] says: every character from `from` to the end
/// belongs to the class, and the character at the end, if there is one, does
/// not.
pub proof fn lemma_run_end(s: Seq<char>, from: int, class: CharClass)
    requires
        0 <= from <= s.len(),
    ensures
        from <= run_end(s, from, class) <= s.len(),
        forall|i: int| from <= i < run_end(s, from, class) ==> class.holds(#[trigger] s[i]),
        run_end(s, from, class) < s.len() ==> !class.holds(s[run_end(s, from, class)]),
    decreases s.len() - from,
{
    if from < s.len() && class.holds(s[from]) {
        lemma_run_end(s, from + 1, class);
    }
}

/// The end of a run is the only position with the properties that
/// [`lemma_run_end`] states.
pub proof fn lemma_run_end_unique(s: Seq<char>, from: int, to: int, class: CharClass)
    requires
        0 <= from <= to <= s.len(),
        forall|i: int| from <= i < to ==> class.holds(#[trigger] s[i]),
        to < s.len() ==> !class.holds(s[to]),
    ensures
        run_end(s, from, class) == to,
    decreases to - from,
{
    if from < to {
        lemma_run_end_unique(s, from + 1, to, class);
    }
}

/// A run that ends at `to` starts at or before `to`, and holds characters of
/// the class only.
pub proof fn lemma_run_start(s: Seq<char>, to: int, class: CharClass)
    requires
        0 <= to <= s.len(),
    ensures
        0 <= run_start(s, to, class) <= to,
        forall|i: int| run_start(s, to, class) <= i < to ==> class.holds(#[trigger] s[i]),
        run_start(s, to, class) > 0 ==> !class.holds(s[run_start(s, to, class) - 1]),
    decreases to,
{
    if 0 < to && class.holds(s[to - 1]) {
        lemma_run_start(s, to - 1, class);
    }
}

/// The characters of a string slice, one by one.
pub fn to_chars(s: &str) -> (chars: Vec<char>)
    ensures
        chars@ == s@,
{
    let mut chars: Vec<char> = Vec::new();
    for c in it: s.chars()
        invariant
            chars@ == it.seq().take(it.index() as int),
            it.seq() == s@,
    {
        chars.push(c);
    }
    chars
}

/// Skips the run of characters of `class` that starts at `from`.
pub(crate) fn skip_run(text: &[char], from: usize, class: CharClass) -> (end: usize)
    requires
        from <= text@.len(),
    ensures
        end == run_end(text@, from as int, class),
        from <= end <= text@.len(),
{
    let mut end = from;
    while end < text.len() && class.test(text[end])
        invariant
            from <= end <= text@.len(),
            run_end(text@, from as int, class) == run_end(text@, end as int, class),
        decreases text@.len() - end,
    {
        end += 1;
    }
    end
}

/// Skips backwards over the run of characters of `class` that ends at `to`,
/// without passing `floor`.
pub(crate) fn skip_run_back(text: &[char], floor: usize, to: usize, class: CharClass) -> (start: usize)
    requires
        floor <= to <= text@.len(),
    ensures
        floor <= start <= to,
        start as int == if run_start(text@, to as int, class) < floor {
            floor as int
        } else {
            run_start(text@, to as int, class)
        },
{
    let mut start = to;
    while start > floor && class.test(text[start - 1])
        invariant
            floor <= start <= to <= text@.len(),
            run_start(text@, to as int, class) == run_start(text@, start as int, class),
        decreases start,
    {
        start -= 1;
    }
    proof {
        lemma_run_start(text@, start as int, class);
    }
    start
}

} // verus!
