//! Logical paths: the slash-delimited names by which the engine addresses
//! objects below the root of a table.

use vstd::prelude::*;
use vstd::string::StringExecFns;
use crate::error::StorageError;
use crate::order::{path_before, segments_precede};

verus! {

/// Whether `c` is an ASCII control character.
pub open spec fn is_control(c: char) -> bool {
    (c as u32) < 0x20 || (c as u32) == 0x7f
}

/// Whether `segment` may stand in a logical path: it is not empty, is
/// neither `.` nor `..`, and holds no delimiter and no control character.
pub open spec fn valid_segment(segment: Seq<char>) -> bool {
    &&& segment.len() > 0
    &&& segment != seq!['.']
    &&& segment != seq!['.', '.']
    &&& forall|i: int| 0 <= i < segment.len() ==> segment[i] != '/' && !is_control(#[trigger] segment[i])
}

/// The pieces of `text` between its delimiters, read from left to right:
/// every `/` closes a piece and opens the next, so a text with n delimiters
/// has n + 1 pieces, some of them possibly empty.
pub open spec fn split_segments(text: Seq<char>) -> Seq<Seq<char>>
    decreases text.len(),
{
    if text.len() == 0 {
        seq![Seq::<char>::empty()]
    } else {
        let before = split_segments(text.drop_last());
        if text.last() == '/' {
            before.push(Seq::<char>::empty())
        } else {
            before.drop_last().push(before.last().push(text.last()))
        }
    }
}

/// `text` without one leading delimiter, if it has one.
pub open spec fn without_leading_delimiter(text: Seq<char>) -> Seq<char> {
    if text.len() > 0 && text[0] == '/' {
        text.skip(1)
    } else {
        text
    }
}

/// `text` without one trailing delimiter, if it has one.
pub open spec fn without_trailing_delimiter(text: Seq<char>) -> Seq<char> {
    if text.len() > 0 && text.last() == '/' {
        text.drop_last()
    } else {
        text
    }
}

/// The segments that `text` names, or `None` where it names no logical
/// path. One leading and one trailing delimiter are not significant; what is
/// left is either empty, which names the root, or is split at its
/// delimiters into segments that must all be valid.
pub open spec fn parsed_path(text: Seq<char>) -> Option<Seq<Seq<char>>> {
    let head = without_leading_delimiter(text);
    if head.len() == 0 {
        Some(Seq::<Seq<char>>::empty())
    } else {
        let segments = split_segments(without_trailing_delimiter(head));
        if forall|i: int| 0 <= i < segments.len() ==> valid_segment(#[trigger] segments[i]) {
            Some(segments)
        } else {
            None
        }
    }
}

/// A trailing empty segment is not significant: a text that names a path
/// and ends in a delimiter names the same path as the text without that
/// delimiter.
pub proof fn lemma_trailing_delimiter_ignored(text: Seq<char>)
    requires
        text.len() > 0,
        text.last() == '/',
        parsed_path(text) is Some,
    ensures
        parsed_path(text.drop_last()) == parsed_path(text),
{
    let head = without_leading_delimiter(text);
    let shorter = text.drop_last();
    let shorter_head = without_leading_delimiter(shorter);
    if head.len() > 0 {
        assert(head.last() == '/');
        let body = head.drop_last();
        assert(shorter_head =~= body);
        let pieces = split_segments(body);
        assert(valid_segment(pieces[pieces.len() - 1])) by {
            lemma_split_nonempty(body);
        }
        if body.len() > 0 && body.last() == '/' {
            assert(pieces.last() =~= Seq::<char>::empty());
        }
        assert(without_trailing_delimiter(shorter_head) == body);
    } else {
        assert(shorter_head =~= Seq::<char>::empty());
    }
}

/// Splitting a text gives at least one piece.
pub proof fn lemma_split_nonempty(text: Seq<char>)
    ensures
        split_segments(text).len() > 0,
    decreases text.len(),
{
    if text.len() > 0 {
        lemma_split_nonempty(text.drop_last());
    }
}

/// The text that names `segments`: the segments with one delimiter between
/// each two of them.
pub open spec fn joined_segments(segments: Seq<Seq<char>>) -> Seq<char>
    decreases segments.len(),
{
    if segments.len() == 0 {
        Seq::<char>::empty()
    } else if segments.len() == 1 {
        segments[0]
    } else {
        joined_segments(segments.drop_last()) + seq!['/'] + segments.last()
    }
}

/// Whether `text` holds no delimiter.
pub open spec fn undelimited(text: Seq<char>) -> bool {
    forall|i: int| 0 <= i < text.len() ==> text[i] != '/'
}

/// Text without a delimiter, put behind any text, lengthens its last piece.
pub proof fn lemma_split_suffix(text: Seq<char>, suffix: Seq<char>)
    requires
        undelimited(suffix),
    ensures
        split_segments(text + suffix) == split_segments(text).drop_last().push(
            split_segments(text).last() + suffix,
        ),
    decreases suffix.len(),
{
    lemma_split_nonempty(text);
    let pieces = split_segments(text);
    if suffix.len() == 0 {
        assert(text + suffix =~= text);
        assert(pieces.last() + suffix =~= pieces.last());
        assert(pieces.drop_last().push(pieces.last()) =~= pieces);
    } else {
        let shorter = suffix.drop_last();
        lemma_split_suffix(text, shorter);
        assert((text + suffix).drop_last() =~= text + shorter);
        assert((text + suffix).last() == suffix.last());
        let before = split_segments(text + shorter);
        assert(before.drop_last() =~= pieces.drop_last());
        assert(before.last().push(suffix.last()) =~= pieces.last() + suffix);
    }
}

/// Splitting the text that names segments without delimiters gives the
/// segments back.
pub proof fn lemma_split_joined(segments: Seq<Seq<char>>)
    requires
        segments.len() > 0,
        forall|i: int| 0 <= i < segments.len() ==> undelimited(#[trigger] segments[i]),
    ensures
        split_segments(joined_segments(segments)) == segments,
    decreases segments.len(),
{
    let empty = Seq::<char>::empty();
    if segments.len() == 1 {
        lemma_split_suffix(empty, segments[0]);
        assert(empty + segments[0] =~= segments[0]);
        assert(split_segments(empty) =~= seq![empty]);
        assert(seq![empty].drop_last().push(empty + segments[0]) =~= segments);
    } else {
        let before = segments.drop_last();
        lemma_split_joined(before);
        let stem = joined_segments(before) + seq!['/'];
        assert(stem.drop_last() =~= joined_segments(before));
        assert(split_segments(stem) == before.push(empty));
        lemma_split_suffix(stem, segments.last());
        assert(before.push(empty).drop_last().push(empty + segments.last()) =~= segments);
    }
}

/// The text that names valid segments begins with the first character of
/// the first segment and ends with the last character of the last.
pub proof fn lemma_joined_ends(segments: Seq<Seq<char>>)
    requires
        segments.len() > 0,
        forall|i: int| 0 <= i < segments.len() ==> valid_segment(#[trigger] segments[i]),
    ensures
        joined_segments(segments).len() > 0,
        joined_segments(segments)[0] == segments[0][0],
        joined_segments(segments).last() == segments.last().last(),
    decreases segments.len(),
{
    if segments.len() > 1 {
        let before = segments.drop_last();
        assert(valid_segment(segments[segments.len() - 1]));
        assert forall|i: int| 0 <= i < before.len() implies valid_segment(#[trigger] before[i]) by {
            assert(before[i] == segments[i]);
        }
        lemma_joined_ends(before);
    } else {
        assert(valid_segment(segments[0]));
    }
}

/// Reading the text that names a path gives the path back.
pub proof fn lemma_parse_joined(segments: Seq<Seq<char>>)
    requires
        forall|i: int| 0 <= i < segments.len() ==> valid_segment(#[trigger] segments[i]),
    ensures
        parsed_path(joined_segments(segments)) == Some(segments),
{
    if segments.len() > 0 {
        lemma_joined_ends(segments);
        assert(valid_segment(segments[0]));
        assert(valid_segment(segments[segments.len() - 1]));
        assert forall|i: int| 0 <= i < segments.len() implies undelimited(#[trigger] segments[i]) by {
            assert(valid_segment(segments[i]));
        }
        lemma_split_joined(segments);
    } else {
        assert(segments =~= Seq::<Seq<char>>::empty());
    }
}

/// `object_store::path::Path::parse`, followed by `Path::parts` to hand the
/// segments out as strings. The contract restates the documented rules of
/// that parser: it strips one leading and one trailing `/`, accepts the
/// empty rest as the root, and otherwise refuses a path with an empty
/// segment, a segment `.` or `..`, or an ASCII control character.
#[verifier::external_body]
fn parse_segments(text: &str) -> (found: Option<Vec<String>>)
    ensures
        found.deep_view() == parsed_path(text@),
{
    let path = object_store::path::Path::parse(text).ok()?;
    Some(path.parts().map(|part| part.as_ref().to_owned()).collect())
}

/// A path relative to the root of a table: a sequence of valid segments.
/// The empty sequence is the root itself.
#[derive(Debug, PartialEq, Eq)]
pub struct LogicalPath {
    segments: Vec<String>,
}

impl View for LogicalPath {
    type V = Seq<Seq<char>>;

    closed spec fn view(&self) -> Seq<Seq<char>> {
        self.segments.deep_view()
    }
}

impl LogicalPath {
    #[verifier::type_invariant]
    spec fn well_formed(self) -> bool {
        forall|i: int| 0 <= i < self.segments.deep_view().len() ==> valid_segment(#[trigger] self.segments.deep_view()[i])
    }

    /// The root: the path with no segment.
    pub fn root() -> (path: LogicalPath)
        ensures
            path@ == Seq::<Seq<char>>::empty(),
    {
        let segments: Vec<String> = Vec::new();
        assert(segments.deep_view() =~= Seq::<Seq<char>>::empty());
        LogicalPath { segments }
    }

    /// Reads `text` as a logical path, and refuses it as an invalid location
    /// where it names none.
    pub fn parse(text: &str) -> (parsed: Result<LogicalPath, StorageError>)
        ensures
            match parsed_path(text@) {
                Some(segments) => parsed matches Ok(path) && path@ == segments,
                None => parsed == Err::<LogicalPath, StorageError>(StorageError::InvalidLocation),
            },
    {
        match parse_segments(text) {
            Some(segments) => Ok(LogicalPath { segments }),
            None => Err(StorageError::InvalidLocation),
        }
    }

    /// The segments of the path, in order. Each of them is valid.
    pub fn segments(&self) -> (segments: &Vec<String>)
        ensures
            segments.deep_view() == self@,
            forall|i: int| 0 <= i < self@.len() ==> valid_segment(#[trigger] self@[i]),
    {
        proof {
            use_type_invariant(self);
        }
        &self.segments
    }

    /// The text that names the path: its segments with a delimiter between
    /// each two of them. Reading the text gives the path back.
    pub fn to_text(&self) -> (text: String)
        ensures
            text@ == joined_segments(self@),
            parsed_path(text@) == Some(self@),
    {
        let ghost all = self@;
        let mut text = String::new();
        let mut done: usize = 0;
        proof {
            reveal_strlit("/");
            use_type_invariant(self);
            lemma_parse_joined(all);
        }
        while done < self.segments.len()
            invariant
                done <= self.segments.len(),
                all == self.segments.deep_view(),
                text@ == joined_segments(all.take(done as int)),
                "/"@ == seq!['/'],
            decreases self.segments.len() - done,
        {
            let ghost before = text@;
            if done > 0 {
                text.append("/");
            }
            text.append(self.segments[done].as_str());
            proof {
                let taken = all.take(done as int + 1);
                assert(taken.drop_last() =~= all.take(done as int));
                assert(taken.last() == self.segments[done as int]@);
                if done == 0 {
                    assert(before =~= Seq::<char>::empty());
                    assert(text@ =~= taken[0]);
                }
            }
            done = done + 1;
        }
        proof {
            assert(all.take(done as int) =~= all);
        }
        text
    }

    /// A second value of the same path.
    pub fn duplicate(&self) -> (copy: LogicalPath)
        ensures
            copy@ == self@,
    {
        proof {
            use_type_invariant(self);
        }
        let mut segments: Vec<String> = Vec::new();
        let mut done: usize = 0;
        while done < self.segments.len()
            invariant
                done <= self.segments.len(),
                segments@ == self.segments@.take(done as int),
            decreases self.segments.len() - done,
        {
            segments.push(self.segments[done].clone());
            done = done + 1;
            assert(segments@ =~= self.segments@.take(done as int));
        }
        assert(segments@ =~= self.segments@);
        assert(segments.deep_view() =~= self.segments.deep_view());
        LogicalPath { segments }
    }

    /// Whether the two paths are the same, segment by segment.
    pub fn equals(&self, other: &LogicalPath) -> (same: bool)
        ensures
            same == (self@ == other@),
    {
        if self.segments.len() != other.segments.len() {
            assert(self@.len() != other@.len());
            return false;
        }
        let mut done: usize = 0;
        while done < self.segments.len()
            invariant
                done <= self.segments.len(),
                self.segments.len() == other.segments.len(),
                forall|i: int| 0 <= i < done ==> self@[i] == other@[i],
            decreases self.segments.len() - done,
        {
            if self.segments[done] != other.segments[done] {
                assert(self@[done as int] != other@[done as int]);
                return false;
            }
            done = done + 1;
        }
        assert(self@ =~= other@);
        true
    }

    /// Whether the path comes before `other`: segment by segment, where the
    /// two first differ the path has ended or has the lesser segment.
    pub fn precedes(&self, other: &LogicalPath) -> (before: bool)
        ensures
            before == path_before(self@, other@),
    {
        segments_precede(&self.segments, &other.segments)
    }

    /// Whether the path is the root.
    pub fn is_root(&self) -> (root: bool)
        ensures
            root == (self@.len() == 0),
    {
        self.segments.len() == 0
    }
}

} // verus!
