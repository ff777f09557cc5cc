//! Semantic versions: three natural numbers written in decimal with dots
//! between them, and the step from one version to the next.

use crate::text::{chars_of, join, lemma_split_join, split, string_of, texts};
use vstd::prelude::*;

verus! {

/// Whether `c` is one of the ten decimal digits.
pub open spec fn is_digit(c: char) -> bool {
    '0' <= c && c <= '9'
}

/// The number a decimal digit stands for.
pub open spec fn digit_value(c: char) -> nat {
    (c as nat - '0' as nat) as nat
}

/// The decimal digit that stands for a number below ten.
pub open spec fn digit_char(d: nat) -> char {
    ((d + 48) as u8) as char
}

/// Whether `s` is a number in decimal: one digit or more and nothing else.
pub open spec fn is_number(s: Seq<char>) -> bool {
    s.len() > 0 && forall|i: int| 0 <= i < s.len() ==> is_digit(#[trigger] s[i])
}

/// The number that the digits of `s` write in decimal.
pub open spec fn decimal_value(s: Seq<char>) -> nat
    decreases s.len(),
{
    if s.len() == 0 {
        0
    } else {
        decimal_value(s.drop_last()) * 10 + digit_value(s.last())
    }
}

/// `n` written in decimal without leading zeros.
pub open spec fn decimal_text(n: nat) -> Seq<char>
    decreases n,
{
    if n < 10 {
        seq![digit_char(n)]
    } else {
        decimal_text(n / 10).push(digit_char(n % 10))
    }
}

/// The digits of the number after the one that `s` writes, where the digits
/// of `s` are taken from the right: a nine becomes a zero and carries on, any
/// other digit is raised by one, and a one is put in front when all were nines.
pub open spec fn successor(s: Seq<char>) -> Seq<char>
    decreases s.len(),
{
    if s.len() == 0 {
        seq!['1']
    } else if s.last() == '9' {
        successor(s.drop_last()).push('0')
    } else {
        s.drop_last().push(digit_char(digit_value(s.last()) + 1))
    }
}

/// The part of a version that a bump raises.
#[derive(Debug, Clone, Copy, PartialEq, Eq, Structural)]
pub enum VersionPart {
    Major,
    Minor,
    Patch,
}

impl VersionPart {
    /// The part that a word names: `major`, `minor` or `patch`, and no other word.
    pub open spec fn named(word: Seq<char>) -> Option<VersionPart> {
        if word == "major"@ {
            Some(VersionPart::Major)
        } else if word == "minor"@ {
            Some(VersionPart::Minor)
        } else if word == "patch"@ {
            Some(VersionPart::Patch)
        } else {
            None
        }
    }

    /// Reads the name of a part.
    pub fn parse(word: &str) -> (part: Option<VersionPart>)
        ensures
            part == Self::named(word@),
    {
        let word = word.to_owned();
        if word == "major".to_owned() {
            Some(VersionPart::Major)
        } else if word == "minor".to_owned() {
            Some(VersionPart::Minor)
        } else if word == "patch".to_owned() {
            Some(VersionPart::Patch)
        } else {
            None
        }
    }
}

/// The three numbers of a version.
pub struct VersionNumbers {
    pub major: nat,
    pub minor: nat,
    pub patch: nat,
}

impl VersionNumbers {
    /// The version after a bump of `part`: that number goes up by one and the
    /// numbers behind it go back to zero.
    pub open spec fn bumped(self, part: VersionPart) -> VersionNumbers {
        match part {
            VersionPart::Major => VersionNumbers { major: self.major + 1, minor: 0, patch: 0 },
            VersionPart::Minor => VersionNumbers {
                major: self.major,
                minor: self.minor + 1,
                patch: 0,
            },
            VersionPart::Patch => VersionNumbers {
                major: self.major,
                minor: self.minor,
                patch: self.patch + 1,
            },
        }
    }

    /// The version as it is written: the three numbers in decimal, dots between them.
    pub open spec fn text(self) -> Seq<char> {
        decimal_text(self.major).push('.') + decimal_text(self.minor).push('.') + decimal_text(
            self.patch,
        )
    }
}

/// The number that one part of a version writes: an integer in decimal that
/// is not negative. It is written as digits, which may have a sign in front:
/// `7`, `+7` and `007` write seven, and `0`, `+0` and `-0` write zero. A part
/// that writes a negative number, or holds anything but one sign and digits,
/// writes none. There is no largest number.
pub open spec fn number_of(part: Seq<char>) -> Option<nat> {
    if is_number(part) {
        Some(decimal_value(part))
    } else if part.len() > 0 && part[0] == '+' && is_number(part.skip(1)) {
        Some(decimal_value(part.skip(1)))
    } else if part.len() > 0 && part[0] == '-' && is_number(part.skip(1)) && decimal_value(
        part.skip(1),
    ) == 0 {
        Some(0)
    } else {
        None
    }
}

/// The version that a text writes: exactly three numbers with dots between
/// them. A text of any other shape writes none.
pub open spec fn version_of(text: Seq<char>) -> Option<VersionNumbers> {
    let parts = split(text, '.');
    if parts.len() == 3 && number_of(parts[0]) is Some && number_of(parts[1]) is Some && number_of(
        parts[2],
    ) is Some {
        Some(
            VersionNumbers {
                major: number_of(parts[0])->0,
                minor: number_of(parts[1])->0,
                patch: number_of(parts[2])->0,
            },
        )
    } else {
        None
    }
}

/// A digit and the number it stands for determine each other.
pub proof fn lemma_digits(c: char)
    requires
        is_digit(c),
    ensures
        digit_value(c) < 10,
        digit_char(digit_value(c)) == c,
{
}

/// Each number below ten has its digit.
pub proof fn lemma_digit_char(d: nat)
    requires
        d < 10,
    ensures
        is_digit(digit_char(d)),
        digit_value(digit_char(d)) == d,
{
}

/// A zero in front does not change the number.
pub proof fn lemma_leading_zero(s: Seq<char>)
    ensures
        decimal_value(seq!['0'] + s) == decimal_value(s),
    decreases s.len(),
{
    let whole = seq!['0'] + s;
    if s.len() == 0 {
        assert(whole.drop_last() == Seq::<char>::empty());
        assert(decimal_value(whole.drop_last()) == 0);
    } else {
        assert(whole.drop_last() == seq!['0'] + s.drop_last());
        lemma_leading_zero(s.drop_last());
    }
}

/// A number that starts with another digit than zero is at least one.
pub proof fn lemma_positive(s: Seq<char>)
    requires
        is_number(s),
        s[0] != '0',
    ensures
        decimal_value(s) >= 1,
    decreases s.len(),
{
    if s.len() > 1 {
        lemma_positive(s.drop_last());
    }
}

/// The number of a digit string without leading zeros is written as that string.
pub proof fn lemma_text_of_value(s: Seq<char>)
    requires
        is_number(s),
        s.len() == 1 || s[0] != '0',
    ensures
        decimal_text(decimal_value(s)) == s,
    decreases s.len(),
{
    lemma_digits(s.last());
    if s.len() == 1 {
        assert(s.drop_last() == Seq::<char>::empty());
        assert(decimal_value(s.drop_last()) == 0);
        assert(seq![s[0]] == s);
    } else {
        let init = s.drop_last();
        lemma_positive(init);
        lemma_text_of_value(init);
        assert(init.push(s.last()) == s);
    }
}

/// A number written in decimal is a digit string without leading zeros that
/// has the number as its value.
pub proof fn lemma_value_of_text(n: nat)
    ensures
        is_number(decimal_text(n)),
        decimal_text(n).len() == 1 || decimal_text(n)[0] != '0',
        decimal_value(decimal_text(n)) == n,
    decreases n,
{
    lemma_digit_char(n % 10);
    if n < 10 {
        let one = seq![digit_char(n)];
        assert(one.drop_last() == Seq::<char>::empty());
        assert(decimal_value(one.drop_last()) == 0);
    } else {
        lemma_value_of_text(n / 10);
        let init = decimal_text(n / 10);
        let whole = init.push(digit_char(n % 10));
        assert(whole.drop_last() == init);
        if init.len() == 1 {
            assert(decimal_value(init) == digit_value(init[0])) by {
                assert(init.drop_last() == Seq::<char>::empty());
                assert(decimal_value(init.drop_last()) == 0);
            }
        }
    }
}

/// The successor of a digit string writes the next number, without leading
/// zeros where the string had none.
pub proof fn lemma_successor(s: Seq<char>)
    requires
        forall|i: int| 0 <= i < s.len() ==> is_digit(#[trigger] s[i]),
    ensures
        is_number(successor(s)),
        decimal_value(successor(s)) == decimal_value(s) + 1,
        successor(s).len() >= s.len(),
        s.len() <= 1 || s[0] != '0' ==> successor(s)[0] != '0',
    decreases s.len(),
{
    if s.len() == 0 {
        let one = seq!['1'];
        assert(one.drop_last() == Seq::<char>::empty());
        assert(decimal_value(one.drop_last()) == 0);
    } else {
        let init = s.drop_last();
        lemma_digits(s.last());
        if s.last() == '9' {
            lemma_successor(init);
            let next = successor(init).push('0');
            assert(next.drop_last() == successor(init));
        } else {
            let raised = digit_char(digit_value(s.last()) + 1);
            lemma_digit_char(digit_value(s.last()) + 1);
            let next = init.push(raised);
            assert(next.drop_last() == init);
        }
    }
}

/// A version read back from its own text is the same version.
pub proof fn lemma_version_of_text(v: VersionNumbers)
    ensures
        version_of(v.text()) == Some(v),
{
    let a = decimal_text(v.major);
    let b = decimal_text(v.minor);
    let c = decimal_text(v.patch);
    lemma_value_of_text(v.major);
    lemma_value_of_text(v.minor);
    lemma_value_of_text(v.patch);
    let parts = seq![a, b, c];
    assert(parts.drop_last() == seq![a, b]);
    assert(seq![a, b].drop_last() == seq![a]);
    assert(join(seq![a], '.') == a);
    assert(join(seq![a, b], '.') == a.push('.') + b);
    assert(join(parts, '.') == (a.push('.') + b).push('.') + c);
    assert(v.text() == join(parts, '.'));
    assert forall|i: int| 0 <= i < parts.len() implies !(#[trigger] parts[i]).contains('.') by {
        let p = parts[i];
        if p.contains('.') {
            let k = choose|k: int| 0 <= k < p.len() && p[k] == '.';
            assert(is_digit(p[k]));
        }
    }
    lemma_split_join(parts, '.');
}

/// A version as the library holds it: each number in decimal digits, so that
/// no number is too large for it.
pub struct Version {
    major: Vec<char>,
    minor: Vec<char>,
    patch: Vec<char>,
}

impl View for Version {
    type V = VersionNumbers;

    closed spec fn view(&self) -> VersionNumbers {
        VersionNumbers {
            major: decimal_value(self.major@),
            minor: decimal_value(self.minor@),
            patch: decimal_value(self.patch@),
        }
    }
}

impl Version {
    #[verifier::type_invariant]
    spec fn well_formed(self) -> bool {
        &&& self.major@ == decimal_text(decimal_value(self.major@))
        &&& self.minor@ == decimal_text(decimal_value(self.minor@))
        &&& self.patch@ == decimal_text(decimal_value(self.patch@))
    }

    /// Reads a version from its text.
    pub fn parse(text: &str) -> (parsed: Option<Version>)
        ensures
            parsed is Some == version_of(text@) is Some,
            parsed matches Some(v) ==> version_of(text@) == Some(v@),
    {
        let chars = chars_of(text);
        Self::parse_chars(&chars)
    }

    /// Reads a version from the characters of its text.
    pub fn parse_chars(text: &Vec<char>) -> (parsed: Option<Version>)
        ensures
            parsed is Some == version_of(text@) is Some,
            parsed matches Some(v) ==> version_of(text@) == Some(v@),
    {
        let parts = split_chars(text, '.');
        if parts.len() != 3 {
            return None;
        }
        let major = match read_number(&parts[0]) {
            None => {
                return None;
            },
            Some(digits) => digits,
        };
        let minor = match read_number(&parts[1]) {
            None => {
                return None;
            },
            Some(digits) => digits,
        };
        let patch = match read_number(&parts[2]) {
            None => {
                return None;
            },
            Some(digits) => digits,
        };
        proof {
            lemma_value_of_text(number_of(parts[0]@)->0);
            lemma_value_of_text(number_of(parts[1]@)->0);
            lemma_value_of_text(number_of(parts[2]@)->0);
        }
        Some(Version { major, minor, patch })
    }

    /// The version after a bump of `part`.
    pub fn bump(&self, part: VersionPart) -> (next: Version)
        ensures
            next@ == self@.bumped(part),
    {
        proof {
            use_type_invariant(self);
            lemma_value_of_text(decimal_value(self.major@));
            lemma_value_of_text(decimal_value(self.minor@));
            lemma_value_of_text(decimal_value(self.patch@));
            lemma_value_of_text(0);
        }
        let zero = vec!['0'];
        assert(zero@ == decimal_text(0));
        match part {
            VersionPart::Major => Version {
                major: next_number(&self.major),
                minor: zero.clone(),
                patch: zero,
            },
            VersionPart::Minor => Version {
                major: self.major.clone(),
                minor: next_number(&self.minor),
                patch: zero,
            },
            VersionPart::Patch => Version {
                major: self.major.clone(),
                minor: self.minor.clone(),
                patch: next_number(&self.patch),
            },
        }
    }

    /// The version as text.
    pub fn render(&self) -> (text: String)
        ensures
            text@ == self@.text(),
    {
        let chars = self.render_chars();
        string_of(&chars)
    }

    /// The characters of the version as text.
    pub fn render_chars(&self) -> (text: Vec<char>)
        ensures
            text@ == self@.text(),
    {
        proof {
            use_type_invariant(self);
        }
        let mut text = self.major.clone();
        text.push('.');
        let mut minor = self.minor.clone();
        text.append(&mut minor);
        text.push('.');
        let mut patch = self.patch.clone();
        text.append(&mut patch);
        text
    }
}

/// The segments of a text between the occurrences of a separator.
pub fn split_chars(text: &Vec<char>, sep: char) -> (parts: Vec<Vec<char>>)
    ensures
        texts(parts@) == split(text@, sep),
{
    let mut parts: Vec<Vec<char>> = Vec::new();
    let mut current: Vec<char> = Vec::new();
    let mut i: usize = 0;
    assert(text@.take(0) == Seq::<char>::empty());
    assert(texts(parts@).push(current@) == seq![Seq::<char>::empty()]);
    while i < text.len()
        invariant
            i <= text.len(),
            split(text@.take(i as int), sep) == texts(parts@).push(current@),
        decreases text.len() - i,
    {
        let c = text[i];
        let ghost done = texts(parts@);
        let ghost open = current@;
        assert(text@.take(i + 1).drop_last() == text@.take(i as int));
        assert(done.push(open).drop_last() == done);
        if c == sep {
            parts.push(current);
            current = Vec::new();
            assert(texts(parts@) == done.push(open));
        } else {
            current.push(c);
        }
        i += 1;
    }
    assert(text@.take(text.len() as int) == text@);
    let ghost done = texts(parts@);
    parts.push(current);
    assert(texts(parts@) == done.push(current@));
    parts
}

/// Whether the characters write a number in decimal.
pub fn is_number_chars(text: &Vec<char>) -> (yes: bool)
    ensures
        yes == is_number(text@),
{
    if text.len() == 0 {
        return false;
    }
    let mut i: usize = 0;
    while i < text.len()
        invariant
            i <= text.len(),
            forall|k: int| 0 <= k < i ==> is_digit(#[trigger] text@[k]),
        decreases text.len() - i,
    {
        let c = text[i];
        if !('0' <= c && c <= '9') {
            return false;
        }
        i += 1;
    }
    true
}

/// The number that one part of a version writes, in digits without leading
/// zeros, or nothing where the part writes no such number.
pub fn read_number(part: &Vec<char>) -> (digits: Option<Vec<char>>)
    ensures
        digits is Some == number_of(part@) is Some,
        digits matches Some(plain) ==> plain@ == decimal_text(number_of(part@)->0),
{
    if part.len() > 0 && (part[0] == '+' || part[0] == '-') {
        let negative = part[0] == '-';
        let mut rest: Vec<char> = Vec::new();
        let mut i: usize = 1;
        while i < part.len()
            invariant
                1 <= i <= part.len(),
                rest@ == part@.subrange(1, i as int),
            decreases part.len() - i,
        {
            rest.push(part[i]);
            i += 1;
        }
        assert(rest@ == part@.skip(1));
        assert(!is_number(part@)) by {
            assert(!is_digit(part@[0]));
        }
        if !is_number_chars(&rest) {
            return None;
        }
        let plain = without_leading_zeros(&rest);
        let zero = plain.len() == 1 && plain[0] == '0';
        proof {
            let value = decimal_value(rest@);
            lemma_value_of_text(value);
            if zero {
                assert(plain@.drop_last() == Seq::<char>::empty());
                assert(decimal_value(plain@.drop_last()) == 0);
            }
            assert(zero == (value == 0));
        }
        if negative && !zero {
            return None;
        }
        Some(plain)
    } else {
        if !is_number_chars(part) {
            return None;
        }
        Some(without_leading_zeros(part))
    }
}

/// The same number written without leading zeros.
pub(crate) fn without_leading_zeros(digits: &Vec<char>) -> (plain: Vec<char>)
    requires
        is_number(digits@),
    ensures
        plain@ == decimal_text(decimal_value(digits@)),
{
    let mut k: usize = 0;
    assert(digits@.skip(0) == digits@);
    while k + 1 < digits.len() && digits[k] == '0'
        invariant
            k < digits.len(),
            is_number(digits@),
            decimal_value(digits@.skip(k as int)) == decimal_value(digits@),
        decreases digits.len() - k,
    {
        proof {
            assert(digits@.skip(k as int) == seq!['0'] + digits@.skip(k + 1));
            lemma_leading_zero(digits@.skip(k + 1));
        }
        k += 1;
    }
    let mut plain: Vec<char> = Vec::new();
    let mut i: usize = k;
    while i < digits.len()
        invariant
            k <= i <= digits.len(),
            plain@ == digits@.subrange(k as int, i as int),
        decreases digits.len() - i,
    {
        plain.push(digits[i]);
        i += 1;
    }
    proof {
        assert(plain@ == digits@.skip(k as int));
        lemma_text_of_value(plain@);
    }
    plain
}

/// The number after the one that the digits write.
pub(crate) fn next_number(digits: &Vec<char>) -> (next: Vec<char>)
    requires
        digits@ == decimal_text(decimal_value(digits@)),
    ensures
        next@ == decimal_text(decimal_value(digits@) + 1),
        decimal_value(next@) == decimal_value(digits@) + 1,
{
    let mut next = digits.clone();
    proof {
        lemma_value_of_text(decimal_value(digits@));
        lemma_successor(digits@);
        lemma_text_of_value(successor(digits@));
    }
    raise(&mut next);
    next
}

/// Turns the digits into those of the next number.
fn raise(digits: &mut Vec<char>)
    requires
        forall|i: int| 0 <= i < old(digits).len() ==> is_digit(#[trigger] old(digits)[i]),
    ensures
        final(digits)@ == successor(old(digits)@),
    decreases old(digits).len(),
{
    let ghost before = digits@;
    match digits.pop() {
        None => {
            digits.push('1');
            assert(digits@ == seq!['1']);
        },
        Some(last) => {
            assert(last == before.last());
            assert(digits@ == before.drop_last());
            if last == '9' {
                raise(digits);
                digits.push('0');
            } else {
                proof {
                    lemma_digits(last);
                }
                digits.push(((last as u8) + 1) as char);
            }
        },
    }
}

} // verus!
