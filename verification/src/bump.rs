//! Raising the version that a manifest declares, line by line.
//!
//! A manifest is read as lines that a line feed ends. A line declares a
//! version when it begins with `version = `. The text behind that, without a
//! carriage return at the end of the line and without the quotation marks
//! around it, has to be a version: three integers in decimal with dots
//! between them, none of them negative. A number may have a sign and zeros
//! in front, which are not written back. Each such line is written anew with
//! the next version; every other line stays as it is, and so do the line
//! ends. A manifest may hold no such line, or several: each one is raised.

use crate::cargo::Cargo;
use crate::error::{text_result, CargoError};
use crate::text::{
    chars_of, join, lemma_join_last, lemma_split_at_separator, lemma_split_join,
    lemma_split_len, lemma_split_segments, lemma_trim_end, lemma_trim_start, split, string_of,
    trim,
};
use crate::version::{
    decimal_text, is_digit, lemma_value_of_text, lemma_version_of_text, version_of, Version,
    VersionNumbers, VersionPart,
};
use vstd::prelude::*;

verus! {

/// The words that a line starts with when it declares the version.
pub open spec fn version_prefix() -> Seq<char> {
    "version = "@
}

/// Whether a line ends in a carriage return.
pub open spec fn ends_in_return(line: Seq<char>) -> bool {
    line.len() > 0 && line.last() == '\r'
}

/// A line without the carriage return that may end it.
pub open spec fn line_body(line: Seq<char>) -> Seq<char> {
    if ends_in_return(line) {
        line.drop_last()
    } else {
        line
    }
}

/// The carriage return that ends a line, where one does.
pub open spec fn line_ending(line: Seq<char>) -> Seq<char> {
    if ends_in_return(line) {
        seq!['\r']
    } else {
        Seq::<char>::empty()
    }
}

/// Whether a line declares the version.
pub open spec fn declares_version(line: Seq<char>) -> bool {
    version_prefix().is_prefix_of(line_body(line))
}

/// The version that a line declares, if what it declares is a version.
pub open spec fn declared_version(line: Seq<char>) -> Option<VersionNumbers> {
    version_of(trim(line_body(line).skip(version_prefix().len() as int), '"'))
}

/// Whether a line can be taken over: it declares no version, or a version
/// that can be read.
pub open spec fn readable(line: Seq<char>) -> bool {
    declares_version(line) ==> declared_version(line) is Some
}

/// The line that declares a version, without a line end.
pub open spec fn version_line(version: VersionNumbers) -> Seq<char> {
    (version_prefix().push('"') + version.text()).push('"')
}

/// A line after the bump of `part`: a line that declares a version declares
/// the next one, with the end it had, and any other line is unchanged.
pub open spec fn rewritten_line(line: Seq<char>, part: VersionPart) -> Seq<char> {
    if declares_version(line) && declared_version(line) is Some {
        version_line(declared_version(line)->0.bumped(part)) + line_ending(line)
    } else {
        line
    }
}

/// A manifest after the bump that `word` names.
///
/// A word that names no part is refused before the manifest is looked at. A
/// line that declares something else than a version makes the manifest
/// unreadable.
pub open spec fn bumped_manifest(manifest: Seq<char>, word: Seq<char>) -> Result<
    Seq<char>,
    CargoError,
> {
    match VersionPart::named(word) {
        None => Err(CargoError::InvalidArgument),
        Some(part) => {
            let lines = split(manifest, '\n');
            if forall|i: int| 0 <= i < lines.len() ==> readable(#[trigger] lines[i]) {
                Ok(join(lines.map_values(|line: Seq<char>| rewritten_line(line, part)), '\n'))
            } else {
                Err(CargoError::ParseError)
            }
        },
    }
}

/// A line that declares the version `v` declares `v.bumped(part)` after the bump.
pub proof fn lemma_bump_of_version_line(v: VersionNumbers, part: VersionPart)
    ensures
        declares_version(version_line(v)),
        declared_version(version_line(v)) == Some(v),
        rewritten_line(version_line(v), part) == version_line(v.bumped(part)),
{
    let line = version_line(v);
    let prefix = version_prefix();
    let text = v.text();
    lemma_value_of_text(v.major);
    lemma_version_of_text(v);
    assert(!ends_in_return(line));
    assert(line.subrange(0, prefix.len() as int) == prefix);
    let quoted = line.skip(prefix.len() as int);
    assert(quoted == seq!['"'] + text.push('"'));
    assert(text[0] == decimal_text(v.major)[0]);
    assert(is_digit(text[0]));
    lemma_trim_start(quoted, '"', 1);
    assert(quoted.skip(1) == text.push('"'));
    assert(is_digit(text.last())) by {
        lemma_value_of_text(v.patch);
        assert(text.last() == decimal_text(v.patch).last());
    }
    lemma_trim_end(text.push('"'), '"', text.len() as int);
    assert(text.push('"').take(text.len() as int) == text);
    assert(line_ending(line) == Seq::<char>::empty());
    assert(version_line(v.bumped(part)) + Seq::<char>::empty() == version_line(v.bumped(part)));
}

/// A rewritten line holds no line feed.
pub proof fn lemma_rewritten_line_is_one_line(line: Seq<char>, part: VersionPart)
    requires
        !line.contains('\n'),
    ensures
        !rewritten_line(line, part).contains('\n'),
{
    let new = rewritten_line(line, part);
    if declares_version(line) && declared_version(line) is Some {
        let v = declared_version(line)->0.bumped(part);
        reveal_strlit("version = ");
        lemma_value_of_text(v.major);
        lemma_value_of_text(v.minor);
        lemma_value_of_text(v.patch);
        let a = decimal_text(v.major);
        let b = decimal_text(v.minor);
        let c = decimal_text(v.patch);
        if new.contains('\n') {
            let k = choose|k: int| 0 <= k < new.len() && new[k] == '\n';
            let p = version_prefix().len() as int;
            if k < p {
            } else if k == p {
            } else if k < p + 1 + a.len() {
                assert(new[k] == a[k - p - 1]);
            } else if k == p + 1 + a.len() {
            } else if k < p + 2 + a.len() + b.len() {
                assert(new[k] == b[k - p - 2 - a.len()]);
            } else if k == p + 2 + a.len() + b.len() {
            } else if k < p + 3 + a.len() + b.len() + c.len() {
                assert(new[k] == c[k - p - 3 - a.len() - b.len()]);
            } else {
            }
        }
    }
}

/// A bump keeps the lines of the manifest apart from those that declare a
/// version: the manifest has as many lines after it as before, and each is
/// the line before it rewritten, which for a line that declares no version
/// is that line itself.
pub proof fn lemma_bump_keeps_other_lines(manifest: Seq<char>, word: Seq<char>)
    requires
        bumped_manifest(manifest, word) is Ok,
    ensures
        VersionPart::named(word) is Some,
        split(bumped_manifest(manifest, word)->Ok_0, '\n').len() == split(manifest, '\n').len(),
        forall|i: int|
            0 <= i < split(manifest, '\n').len() ==> #[trigger] split(
                bumped_manifest(manifest, word)->Ok_0,
                '\n',
            )[i] == rewritten_line(split(manifest, '\n')[i], VersionPart::named(word)->0),
        forall|i: int|
            0 <= i < split(manifest, '\n').len() && !declares_version(split(manifest, '\n')[i])
                ==> #[trigger] split(bumped_manifest(manifest, word)->Ok_0, '\n')[i] == split(
                manifest,
                '\n',
            )[i],
{
    let part = VersionPart::named(word)->0;
    let lines = split(manifest, '\n');
    let new_lines = lines.map_values(|line: Seq<char>| rewritten_line(line, part));
    lemma_split_len(manifest, '\n');
    lemma_split_segments(manifest, '\n');
    assert forall|i: int| 0 <= i < new_lines.len() implies !(#[trigger] new_lines[i]).contains(
        '\n',
    ) by {
        lemma_rewritten_line_is_one_line(lines[i], part);
    }
    lemma_split_join(new_lines, '\n');
}

/// A line that declares the version `v` declares `v.bumped(part)` in the
/// manifest after the bump, at the same place.
pub proof fn lemma_bump_raises_declared_version(
    manifest: Seq<char>,
    word: Seq<char>,
    i: int,
    v: VersionNumbers,
)
    requires
        bumped_manifest(manifest, word) is Ok,
        0 <= i < split(manifest, '\n').len(),
        split(manifest, '\n')[i] == version_line(v),
    ensures
        VersionPart::named(word) is Some,
        split(bumped_manifest(manifest, word)->Ok_0, '\n')[i] == version_line(
            v.bumped(VersionPart::named(word)->0),
        ),
{
    lemma_bump_keeps_other_lines(manifest, word);
    lemma_bump_of_version_line(v, VersionPart::named(word)->0);
}

/// A word that names no part of a version is refused, whatever the manifest holds.
pub proof fn lemma_bump_refuses_other_words(manifest: Seq<char>, word: Seq<char>)
    requires
        word != "major"@,
        word != "minor"@,
        word != "patch"@,
    ensures
        bumped_manifest(manifest, word) == Err::<Seq<char>, CargoError>(CargoError::InvalidArgument),
{
}

/// One line after the bump of `part`, or nothing where the line declares
/// something else than a version.
pub fn bump_line(line: &Vec<char>, part: VersionPart) -> (bumped: Option<Vec<char>>)
    ensures
        bumped is Some == readable(line@),
        bumped matches Some(new) ==> new@ == rewritten_line(line@, part),
{
    let prefix = chars_of("version = ");
    let width = prefix.len();
    let len = line.len();
    let end = if len > 0 && line[len - 1] == '\r' {
        len - 1
    } else {
        len
    };
    let ghost body = line_body(line@);
    assert(body == line@.take(end as int));
    if end < width {
        return Some(line.clone());
    }
    let mut i: usize = 0;
    while i < width
        invariant
            i <= width <= end <= len,
            width == prefix.len(),
            len == line.len(),
            prefix@ == version_prefix(),
            body == line@.take(end as int),
            body.subrange(0, i as int) == prefix@.subrange(0, i as int),
        decreases width - i,
    {
        if line[i] != prefix[i] {
            assert(body.subrange(0, width as int)[i as int] != prefix@[i as int]);
            return Some(line.clone());
        }
        assert(body.subrange(0, i + 1) == body.subrange(0, i as int).push(body[i as int]));
        assert(prefix@.subrange(0, i + 1) == prefix@.subrange(0, i as int).push(prefix@[i as int]));
        i += 1;
    }
    assert(prefix@.subrange(0, width as int) == prefix@);
    assert(declares_version(line@));
    let ghost quoted = body.skip(width as int);
    let mut lo: usize = width;
    while lo < end && line[lo] == '"'
        invariant
            width <= lo <= end <= len,
            len == line.len(),
            body == line@.take(end as int),
            quoted == body.skip(width as int),
            forall|j: int| 0 <= j < lo - width ==> quoted[j] == '"',
        decreases end - lo,
    {
        lo += 1;
    }
    let mut hi: usize = end;
    while hi > lo && line[hi - 1] == '"'
        invariant
            width <= lo <= hi <= end <= len,
            len == line.len(),
            body == line@.take(end as int),
            quoted == body.skip(width as int),
            forall|j: int| hi - width <= j < quoted.len() ==> quoted[j] == '"',
        decreases hi - lo,
    {
        hi -= 1;
    }
    let mut inner: Vec<char> = Vec::new();
    let mut k: usize = lo;
    while k < hi
        invariant
            lo <= k <= hi <= len,
            len == line.len(),
            inner@ == line@.subrange(lo as int, k as int),
        decreases hi - k,
    {
        inner.push(line[k]);
        k += 1;
    }
    proof {
        lemma_trim_start(quoted, '"', lo - width);
        let rest = quoted.skip(lo - width);
        assert forall|j: int| hi - lo <= j < rest.len() implies rest[j] == '"' by {
            assert(rest[j] == quoted[j + lo - width]);
        }
        lemma_trim_end(rest, '"', hi - lo);
        assert(rest.take(hi - lo) == line@.subrange(lo as int, hi as int));
        assert(inner@ == trim(quoted, '"'));
    }
    match Version::parse_chars(&inner) {
        None => None,
        Some(version) => {
            let next = version.bump(part);
            let mut new = prefix;
            new.push('"');
            let mut text = next.render_chars();
            new.append(&mut text);
            new.push('"');
            if end < len {
                new.push('\r');
                assert(line_ending(line@) == seq!['\r']);
                assert(new@ == version_line(next@) + seq!['\r']);
            } else {
                assert(line_ending(line@) == Seq::<char>::empty());
                assert(new@ == version_line(next@) + Seq::<char>::empty());
            }
            Some(new)
        },
    }
}

impl Cargo {
    /// The manifest with the version it declares raised in the part that
    /// `version_part` names: `major`, `minor` or `patch`.
    ///
    /// Fails with `InvalidArgument` on any other word, and with `ParseError`
    /// where a line declares something else than a version. On a failure
    /// there is no text to write, so the manifest on disk stays as it is.
    pub fn bump_version(manifest: &str, version_part: &str) -> (bumped: Result<String, CargoError>)
        ensures
            text_result(bumped) == bumped_manifest(manifest@, version_part@),
            VersionPart::named(version_part@) is None ==> bumped == Err::<String, CargoError>(
                CargoError::InvalidArgument,
            ),
    {
        let part = match VersionPart::parse(version_part) {
            None => {
                return Err(CargoError::InvalidArgument);
            },
            Some(part) => part,
        };
        let chars = chars_of(manifest);
        let mut out: Vec<char> = Vec::new();
        let mut line: Vec<char> = Vec::new();
        let ghost rewrite = |line: Seq<char>| rewritten_line(line, part);
        let ghost mut done: Seq<Seq<char>> = Seq::empty();
        let mut i: usize = 0;
        assert(chars@.take(0) == Seq::<char>::empty());
        assert(done.push(line@) == seq![Seq::<char>::empty()]);
        assert(done.map_values(rewrite).push(Seq::<char>::empty()) == seq![Seq::<char>::empty()]);
        while i < chars.len()
            invariant
                i <= chars.len(),
                chars@ == manifest@,
                VersionPart::named(version_part@) == Some(part),
                rewrite == |line: Seq<char>| rewritten_line(line, part),
                split(chars@.take(i as int), '\n') == done.push(line@),
                forall|k: int| 0 <= k < done.len() ==> readable(#[trigger] done[k]),
                out@ == join(done.map_values(rewrite).push(Seq::<char>::empty()), '\n'),
            decreases chars.len() - i,
        {
            let c = chars[i];
            assert(chars@.take(i + 1).drop_last() == chars@.take(i as int));
            assert(done.push(line@).drop_last() == done);
            if c == '\n' {
                match bump_line(&line, part) {
                    None => {
                        proof {
                            let head = chars@.take(i as int);
                            let tail = chars@.skip(i + 1);
                            assert(head.push('\n') + tail == chars@);
                            lemma_split_at_separator(head, tail, '\n');
                            let lines = split(manifest@, '\n');
                            assert(lines[done.len() as int] == line@);
                            assert(!readable(lines[done.len() as int]));
                        }
                        return Err(CargoError::ParseError);
                    },
                    Some(new) => {
                        let mut new = new;
                        proof {
                            let written = done.map_values(rewrite);
                            lemma_join_last(written, new@, '\n');
                            assert(written.push(new@).push(Seq::<char>::empty()).drop_last()
                                == written.push(new@));
                            assert(done.push(line@).map_values(rewrite) == written.push(new@));
                            done = done.push(line@);
                        }
                        out.append(&mut new);
                        out.push('\n');
                        line = Vec::new();
                    },
                }
            } else {
                line.push(c);
            }
            i += 1;
        }
        assert(chars@.take(chars.len() as int) == chars@);
        match bump_line(&line, part) {
            None => {
                proof {
                    let lines = split(manifest@, '\n');
                    assert(lines[done.len() as int] == line@);
                    assert(!readable(lines[done.len() as int]));
                }
                Err(CargoError::ParseError)
            },
            Some(new) => {
                let mut new = new;
                proof {
                    let written = done.map_values(rewrite);
                    lemma_join_last(written, new@, '\n');
                    assert(done.push(line@).map_values(rewrite) == written.push(new@));
                    let lines = split(manifest@, '\n');
                    assert forall|k: int| 0 <= k < lines.len() implies readable(
                        #[trigger] lines[k],
                    ) by {
                        if k < done.len() {
                            assert(lines[k] == done[k]);
                        }
                    }
                }
                out.append(&mut new);
                Ok(string_of(&out))
            },
        }
    }
}

} // verus!
