//! POSIX paths: the shape of a path, and local paths as bytes.
//!
//! A path is read as a sequence of components. Separators may be repeated or trail, and a `.` names
//! no component unless the whole path begins with it; neither changes what the components are.
use vstd::prelude::*;
use vstd::utf8::*;

use crate::text::same_bytes;

verus! {

/// What one character of a path means for its shape.
#[derive(Clone, Copy, Debug, PartialEq, Eq, Structural)]
pub enum Mark {
    Slash,
    Dot,
    Other,
}

/// The path begins at the root.
pub open spec fn rooted(marks: Seq<Mark>) -> bool {
    marks.len() > 0 && marks[0] == Mark::Slash
}

/// The path begins with a `.` that stands for the current directory.
pub open spec fn leading_dot(marks: Seq<Mark>) -> bool {
    marks.len() > 0 && marks[0] == Mark::Dot && (marks.len() == 1 || marks[1] == Mark::Slash)
}

/// Where the named components begin: behind the root or the leading `.`, if there is one.
pub open spec fn body_start(marks: Seq<Mark>) -> int {
    if rooted(marks) || leading_dot(marks) {
        1
    } else {
        0
    }
}

/// Where the piece that ends at `end` begins: behind the last slash of the body before `end`.
pub open spec fn piece_start(marks: Seq<Mark>, end: int) -> int
    decreases end,
{
    if end <= body_start(marks) {
        body_start(marks)
    } else if marks[end - 1] == Mark::Slash {
        end
    } else {
        piece_start(marks, end - 1)
    }
}

/// Where the path ends once the piece that ends at `end`, and the slash before it, are gone.
pub open spec fn before_piece(marks: Seq<Mark>, end: int) -> int {
    if piece_start(marks, end) > body_start(marks) {
        piece_start(marks, end) - 1
    } else {
        body_start(marks)
    }
}

/// The piece that ends at `end` names no component: it is empty, or `.`.
pub open spec fn blank_piece(marks: Seq<Mark>, end: int) -> bool {
    let start = piece_start(marks, end);
    start == end || (start + 1 == end && marks[start] == Mark::Dot)
}

/// Where the last component at or before `end` ends, or the start of the body if there is none.
pub open spec fn body_end(marks: Seq<Mark>, end: int) -> int
    decreases end,
{
    if end <= body_start(marks) {
        body_start(marks)
    } else if blank_piece(marks, end) {
        proof {
            lemma_piece_start(marks, end);
        }
        body_end(marks, before_piece(marks, end))
    } else {
        end
    }
}

pub proof fn lemma_piece_start(marks: Seq<Mark>, end: int)
    requires
        body_start(marks) < end,
    ensures
        body_start(marks) <= piece_start(marks, end) <= end,
        piece_start(marks, end) == end ==> marks[end - 1] == Mark::Slash,
        body_start(marks) <= before_piece(marks, end) < end,
    decreases end,
{
    reveal_with_fuel(piece_start, 2);
    if marks[end - 1] != Mark::Slash && body_start(marks) < end - 1 {
        lemma_piece_start(marks, end - 1);
    }
}

pub proof fn lemma_body_end(marks: Seq<Mark>, end: int)
    requires
        body_start(marks) <= end <= marks.len(),
    ensures
        body_start(marks) <= body_end(marks, end) <= end,
        body_start(marks) < body_end(marks, end) ==> !blank_piece(marks, body_end(marks, end)),
    decreases end,
{
    if body_start(marks) < end && blank_piece(marks, end) {
        lemma_piece_start(marks, end);
        lemma_body_end(marks, before_piece(marks, end));
    }
}

/// The last component, as the range that it spans: the root and a leading `.` span none here.
pub open spec fn last_piece(marks: Seq<Mark>) -> Option<(int, int)> {
    let end = body_end(marks, marks.len() as int);
    if body_start(marks) < end {
        Some((piece_start(marks, end), end))
    } else {
        None
    }
}

/// The range of the file name: the last component, unless that is `..`.
pub open spec fn name_range(marks: Seq<Mark>) -> Option<(int, int)> {
    match last_piece(marks) {
        Some((from, to)) => if from + 2 == to && marks[from] == Mark::Dot && marks[from + 1]
            == Mark::Dot {
            None
        } else {
            Some((from, to))
        },
        None => None,
    }
}

/// How much of the path its parent is. The root and the empty path have no parent.
pub open spec fn parent_end(marks: Seq<Mark>) -> Option<int> {
    match last_piece(marks) {
        Some((from, to)) => Some(body_end(marks, before_piece(marks, to))),
        None => if leading_dot(marks) {
            Some(0)
        } else {
            None
        },
    }
}

fn find_body_start(marks: &Vec<Mark>) -> (result: usize)
    ensures
        result == body_start(marks@),
        result <= marks@.len(),
{
    if marks.len() == 0 {
        return 0;
    }
    if marks[0] == Mark::Slash {
        return 1;
    }
    if marks[0] == Mark::Dot && (marks.len() == 1 || marks[1] == Mark::Slash) {
        return 1;
    }
    0
}

fn find_piece_start(marks: &Vec<Mark>, start: usize, end: usize) -> (result: usize)
    requires
        start == body_start(marks@),
        start <= end <= marks@.len(),
    ensures
        result == piece_start(marks@, end as int),
        start <= result <= end,
{
    let mut at: usize = end;
    while at > start && marks[at - 1] != Mark::Slash
        invariant
            start == body_start(marks@),
            start <= at <= end <= marks@.len(),
            piece_start(marks@, at as int) == piece_start(marks@, end as int),
        decreases at,
    {
        at = at - 1;
    }
    at
}

fn find_body_end(marks: &Vec<Mark>, start: usize, end: usize) -> (result: usize)
    requires
        start == body_start(marks@),
        start <= end <= marks@.len(),
    ensures
        result == body_end(marks@, end as int),
        start <= result <= end,
{
    let mut at: usize = end;
    while at > start
        invariant
            start == body_start(marks@),
            start <= at <= end <= marks@.len(),
            body_end(marks@, at as int) == body_end(marks@, end as int),
        decreases at,
    {
        let piece = find_piece_start(marks, start, at);
        if piece == at || (piece + 1 == at && marks[piece] == Mark::Dot) {
            proof {
                lemma_piece_start(marks@, at as int);
            }
            at = if piece > start {
                piece - 1
            } else {
                start
            };
        } else {
            return at;
        }
    }
    at
}

/// The range of the file name of a path of this shape.
pub fn find_name(marks: &Vec<Mark>) -> (result: Option<(usize, usize)>)
    ensures
        match name_range(marks@) {
            Some((from, to)) => result == Some((from as usize, to as usize)) && 0 <= from <= to
                <= marks@.len(),
            None => result is None,
        },
{
    let start = find_body_start(marks);
    let end = find_body_end(marks, start, marks.len());
    if end == start {
        return None;
    }
    let piece = find_piece_start(marks, start, end);
    if end - piece == 2 && marks[piece] == Mark::Dot && marks[piece + 1] == Mark::Dot {
        None
    } else {
        Some((piece, end))
    }
}

/// How much of a path of this shape its parent is.
pub fn find_parent(marks: &Vec<Mark>) -> (result: Option<usize>)
    ensures
        match parent_end(marks@) {
            Some(end) => result == Some(end as usize) && 0 <= end <= marks@.len(),
            None => result is None,
        },
{
    let start = find_body_start(marks);
    let end = find_body_end(marks, start, marks.len());
    if end == start {
        if start == 1 && marks[0] == Mark::Dot {
            return Some(0);
        }
        return None;
    }
    let piece = find_piece_start(marks, start, end);
    proof {
        lemma_piece_start(marks@, end as int);
    }
    let rest = if piece > start {
        piece - 1
    } else {
        start
    };
    Some(find_body_end(marks, start, rest))
}

/// What one byte of a local path means for its shape.
pub open spec fn byte_mark(b: u8) -> Mark {
    if b == 0x2f {
        Mark::Slash
    } else if b == 0x2e {
        Mark::Dot
    } else {
        Mark::Other
    }
}

/// The shape of a local path.
pub open spec fn byte_marks(bytes: Seq<u8>) -> Seq<Mark> {
    bytes.map_values(|b: u8| byte_mark(b))
}

fn marks_of_bytes(bytes: &Vec<u8>) -> (result: Vec<Mark>)
    ensures
        result@ == byte_marks(bytes@),
{
    let mut result: Vec<Mark> = Vec::new();
    let mut i: usize = 0;
    while i < bytes.len()
        invariant
            i <= bytes@.len(),
            result@.len() == i,
            forall|j: int| 0 <= j < i ==> #[trigger] result@[j] == byte_mark(bytes@[j]),
        decreases bytes@.len() - i,
    {
        let b: u8 = bytes[i];
        let mark = if b == 0x2f {
            Mark::Slash
        } else if b == 0x2e {
            Mark::Dot
        } else {
            Mark::Other
        };
        result.push(mark);
        i = i + 1;
    }
    assert(result@ =~= byte_marks(bytes@));
    result
}

/// The components of a local path up to `end`, the root and a leading `.` left aside.
pub open spec fn pieces(bytes: Seq<u8>, end: int) -> Seq<Seq<u8>>
    decreases end,
{
    let marks = byte_marks(bytes);
    let last = body_end(marks, end);
    if last <= body_start(marks) || end > bytes.len() {
        Seq::empty()
    } else {
        proof {
            lemma_body_end(marks, end);
            lemma_piece_start(marks, last);
        }
        pieces(bytes, before_piece(marks, last)).push(
            bytes.subrange(piece_start(marks, last), last),
        )
    }
}

/// Two local paths have the same components.
pub open spec fn same_path(a: Seq<u8>, b: Seq<u8>) -> bool {
    &&& rooted(byte_marks(a)) == rooted(byte_marks(b))
    &&& leading_dot(byte_marks(a)) == leading_dot(byte_marks(b))
    &&& pieces(a, a.len() as int) == pieces(b, b.len() as int)
}

/// `tail` seen from `base`: a rooted `tail` replaces `base`, any other stands below it.
pub open spec fn joined(base: Seq<u8>, tail: Seq<u8>) -> Seq<u8> {
    if rooted(byte_marks(tail)) {
        tail
    } else if base.len() > 0 && base.last() != 0x2f {
        base.push(0x2f) + tail
    } else {
        base + tail
    }
}

/// The file name of a local path.
pub open spec fn name_of(bytes: Seq<u8>) -> Option<Seq<u8>> {
    match name_range(byte_marks(bytes)) {
        Some((from, to)) => Some(bytes.subrange(from, to)),
        None => None,
    }
}

/// The file name of a local path where it is text.
pub open spec fn text_name_of(bytes: Seq<u8>) -> Option<Seq<char>> {
    match name_of(bytes) {
        Some(name) => if valid_utf8(name) {
            Some(decode_utf8(name))
        } else {
            None
        },
        None => None,
    }
}

/// The path of the directory that holds a local path.
pub open spec fn parent_of(bytes: Seq<u8>) -> Option<Seq<u8>> {
    match parent_end(byte_marks(bytes)) {
        Some(end) => Some(bytes.subrange(0, end)),
        None => None,
    }
}

/// Where the stem of a file name that spans `from` to `to` ends: at its last dot, unless the name
/// has none or begins with it.
pub open spec fn stem_end(bytes: Seq<u8>, from: int, to: int, at: int) -> int
    decreases at - from,
{
    if at <= from + 1 {
        to
    } else if bytes[at - 1] == 0x2e {
        at - 1
    } else {
        stem_end(bytes, from, to, at - 1)
    }
}

/// The path with the extension of its file name, if any, replaced. A path without a file name stays
/// as it is.
pub open spec fn with_extension(bytes: Seq<u8>, extension: Seq<u8>) -> Seq<u8> {
    match name_range(byte_marks(bytes)) {
        Some((from, to)) => bytes.subrange(0, stem_end(bytes, from, to, to)).push(0x2e) + extension,
        None => bytes,
    }
}

/// The text of bytes that need not be UTF-8, as `String::from_utf8_lossy` gives it.
pub uninterp spec fn lossy_text(bytes: Seq<u8>) -> Seq<char>;

/// `String::from_utf8_lossy`: the text that the bytes encode. Where they are not UTF-8, the invalid
/// parts are replaced; which text comes out then is left to the name.
#[verifier::external_body]
fn from_utf8_lossy(bytes: &[u8]) -> (result: String)
    ensures
        result@ == lossy_text(bytes@),
        valid_utf8(bytes@) ==> result@ == decode_utf8(bytes@),
{
    String::from_utf8_lossy(bytes).into_owned()
}

/// `std::str::from_utf8`: the text that the bytes encode, if they are UTF-8.
#[verifier::external_body]
fn from_utf8(bytes: &[u8]) -> (result: Option<String>)
    ensures
        result is Some <==> valid_utf8(bytes@),
        result matches Some(text) ==> text@ == decode_utf8(bytes@),
{
    std::str::from_utf8(bytes).ok().map(str::to_owned)
}

/// A path of the local file system, as the bytes that the system knows it by.
#[derive(Debug, PartialEq, Eq)]
pub struct LocalPath {
    pub bytes: Vec<u8>,
}

impl View for LocalPath {
    type V = Seq<u8>;

    open spec fn view(&self) -> Seq<u8> {
        self.bytes@
    }
}

impl Clone for LocalPath {
    fn clone(&self) -> (result: Self)
        ensures
            result@ == self@,
    {
        LocalPath { bytes: vstd::slice::slice_to_vec(self.bytes.as_slice()) }
    }
}

impl LocalPath {
    /// The path that `text` names.
    pub fn from_text(text: &str) -> (result: LocalPath)
        ensures
            result@ == encode_utf8(text@),
    {
        LocalPath { bytes: vstd::slice::slice_to_vec(text.as_bytes()) }
    }

    /// The path as text for a reader.
    pub fn display(&self) -> (result: String)
        ensures
            result@ == lossy_text(self@),
            valid_utf8(self@) ==> result@ == decode_utf8(self@),
    {
        from_utf8_lossy(self.bytes.as_slice())
    }

    /// The last component, if it is a name and is text.
    pub fn file_name(&self) -> (result: Option<String>)
        ensures
            match text_name_of(self@) {
                Some(name) => result matches Some(text) && text@ == name,
                None => result is None,
            },
    {
        let marks = marks_of_bytes(&self.bytes);
        match find_name(&marks) {
            Some((from, to)) => {
                proof {
                    assert(byte_marks(self@).len() == self@.len());
                }
                from_utf8(vstd::slice::slice_subrange(self.bytes.as_slice(), from, to))
            },
            None => None,
        }
    }

    /// The path without its last component.
    pub fn parent(&self) -> (result: Option<LocalPath>)
        ensures
            match parent_of(self@) {
                Some(bytes) => result matches Some(path) && path@ == bytes,
                None => result is None,
            },
    {
        let marks = marks_of_bytes(&self.bytes);
        match find_parent(&marks) {
            Some(end) => {
                proof {
                    assert(byte_marks(self@).len() == self@.len());
                }
                Some(LocalPath { bytes: copy_range(&self.bytes, 0, end) })
            },
            None => None,
        }
    }

    /// The path of `tail` below this one.
    pub fn join(&self, tail: &str) -> (result: LocalPath)
        ensures
            result@ == joined(self@, encode_utf8(tail@)),
    {
        let tail = LocalPath::from_text(tail);
        if tail.bytes.len() > 0 && tail.bytes[0] == 0x2f {
            return tail;
        }
        let mut bytes = copy_range(&self.bytes, 0, self.bytes.len());
        if bytes.len() > 0 && bytes[bytes.len() - 1] != 0x2f {
            bytes.push(0x2f);
        }
        let mut rest = tail.bytes;
        bytes.append(&mut rest);
        LocalPath { bytes }
    }

    /// The path with the extension of its file name replaced.
    pub fn with_extension(&self, extension: &str) -> (result: LocalPath)
        ensures
            result@ == with_extension(self@, encode_utf8(extension@)),
    {
        let marks = marks_of_bytes(&self.bytes);
        match find_name(&marks) {
            Some((from, to)) => {
                proof {
                    assert(byte_marks(self@).len() == self@.len());
                }
                let end = find_stem_end(&self.bytes, from, to);
                let mut bytes = copy_range(&self.bytes, 0, end);
                bytes.push(0x2e);
                let mut rest = LocalPath::from_text(extension).bytes;
                bytes.append(&mut rest);
                LocalPath { bytes }
            },
            None => self.clone(),
        }
    }

    /// Whether both paths have the same components.
    pub fn same(&self, other: &LocalPath) -> (result: bool)
        ensures
            result == same_path(self@, other@),
    {
        let marks = marks_of_bytes(&self.bytes);
        let other_marks = marks_of_bytes(&other.bytes);
        let start = find_body_start(&marks);
        let other_start = find_body_start(&other_marks);
        if start != other_start {
            return false;
        }
        if start == 1 && marks[0] != other_marks[0] {
            return false;
        }
        let mut end: usize = self.bytes.len();
        let mut other_end: usize = other.bytes.len();
        loop
            invariant
                marks@ == byte_marks(self@),
                other_marks@ == byte_marks(other@),
                start == body_start(marks@),
                other_start == body_start(other_marks@),
                rooted(marks@) == rooted(other_marks@),
                leading_dot(marks@) == leading_dot(other_marks@),
                start <= end <= self@.len(),
                other_start <= other_end <= other@.len(),
                same_path(self@, other@) == (pieces(self@, end as int) == pieces(
                    other@,
                    other_end as int,
                )),
            decreases end,
        {
            let last = find_body_end(&marks, start, end);
            let other_last = find_body_end(&other_marks, other_start, other_end);
            let ghost mine = pieces(self@, end as int);
            let ghost theirs = pieces(other@, other_end as int);
            if last == start || other_last == other_start {
                if last == start && other_last == other_start {
                    return true;
                }
                assert(mine.len() != theirs.len());
                return false;
            }
            let piece = find_piece_start(&marks, start, last);
            let other_piece = find_piece_start(&other_marks, other_start, other_last);
            proof {
                lemma_piece_start(marks@, last as int);
                lemma_piece_start(other_marks@, other_last as int);
                assert(mine.last() == self@.subrange(piece as int, last as int));
                assert(theirs.last() == other@.subrange(other_piece as int, other_last as int));
                assert(mine.drop_last() == pieces(self@, before_piece(marks@, last as int)));
                assert(theirs.drop_last() == pieces(
                    other@,
                    before_piece(other_marks@, other_last as int),
                ));
            }
            if !same_bytes(
                vstd::slice::slice_subrange(self.bytes.as_slice(), piece, last),
                vstd::slice::slice_subrange(other.bytes.as_slice(), other_piece, other_last),
            ) {
                return false;
            }
            end = if piece > start {
                piece - 1
            } else {
                start
            };
            other_end = if other_piece > other_start {
                other_piece - 1
            } else {
                other_start
            };
            proof {
                if mine.drop_last() == theirs.drop_last() {
                    assert(mine == mine.drop_last().push(mine.last()));
                    assert(theirs == theirs.drop_last().push(theirs.last()));
                }
            }
        }
    }
}

fn find_stem_end(bytes: &Vec<u8>, from: usize, to: usize) -> (result: usize)
    requires
        from <= to <= bytes@.len(),
    ensures
        result == stem_end(bytes@, from as int, to as int, to as int),
        result <= bytes@.len(),
{
    let mut at: usize = to;
    while at > from && at - 1 > from
        invariant
            from <= at <= to <= bytes@.len(),
            stem_end(bytes@, from as int, to as int, at as int) == stem_end(
                bytes@,
                from as int,
                to as int,
                to as int,
            ),
        decreases at,
    {
        if bytes[at - 1] == 0x2e {
            return at - 1;
        }
        at = at - 1;
    }
    to
}

/// The bytes from `from` up to `to`.
pub fn copy_range(bytes: &Vec<u8>, from: usize, to: usize) -> (result: Vec<u8>)
    requires
        from <= to <= bytes@.len(),
    ensures
        result@ == bytes@.subrange(from as int, to as int),
{
    vstd::slice::slice_to_vec(vstd::slice::slice_subrange(bytes.as_slice(), from, to))
}

/// What one character of a remote path means for its shape.
pub open spec fn char_mark(c: char) -> Mark {
    if c == '/' {
        Mark::Slash
    } else if c == '.' {
        Mark::Dot
    } else {
        Mark::Other
    }
}

/// The shape of a remote path.
pub open spec fn char_marks(text: Seq<char>) -> Seq<Mark> {
    text.map_values(|c: char| char_mark(c))
}

/// The shape of a remote path.
pub fn marks_of_chars(chars: &Vec<char>) -> (result: Vec<Mark>)
    ensures
        result@ == char_marks(chars@),
{
    let mut result: Vec<Mark> = Vec::new();
    let mut i: usize = 0;
    while i < chars.len()
        invariant
            i <= chars@.len(),
            result@.len() == i,
            forall|j: int| 0 <= j < i ==> #[trigger] result@[j] == char_mark(chars@[j]),
        decreases chars@.len() - i,
    {
        let c: char = chars[i];
        let mark = if c == '/' {
            Mark::Slash
        } else if c == '.' {
            Mark::Dot
        } else {
            Mark::Other
        };
        result.push(mark);
        i = i + 1;
    }
    assert(result@ =~= char_marks(chars@));
    result
}

} // verus!
