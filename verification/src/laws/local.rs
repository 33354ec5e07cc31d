//! What holds of local paths, and of what is done to local files.
use vstd::prelude::*;
use vstd::utf8::{encode_utf8, encode_utf8_decode_utf8, encode_utf8_valid_utf8};

use super::lemma_piece_behind_slash;
use crate::config::{replace_file, TokenStore};
use crate::error::{Error, ErrorView};
use crate::files::{step_views, FileStep, FileStepView};
use crate::path::{
    before_piece, blank_piece, body_end, body_start, byte_mark, byte_marks, last_piece, leading_dot,
    lemma_piece_start, name_of, name_range, parent_end, parent_of, piece_start, pieces, rooted,
    stem_end, LocalPath, Mark,
};
use crate::transfer::{sidecar_path, UploadStateStore};

verus! {

/// A file name: not empty, without a slash, and neither `.` nor `..`.
pub open spec fn is_file_name(name: Seq<u8>) -> bool {
    &&& name.len() > 0
    &&& forall|i: int| 0 <= i < name.len() ==> #[trigger] name[i] != 0x2f
    &&& name != seq![0x2eu8]
    &&& name != seq![0x2eu8, 0x2e]
}

/// A directory that is written without a slash at the end, nor a `.` behind a slash.
pub open spec fn is_folder(dir: Seq<u8>) -> bool {
    &&& dir.len() > 0
    &&& dir.last() != 0x2f
    &&& !(dir.len() > 1 && dir.last() == 0x2e && dir[dir.len() - 2] == 0x2f)
}

proof fn lemma_split_local(marks: Seq<Mark>, d: int)
    requires
        1 <= d < marks.len() - 1,
        marks[d] == Mark::Slash,
        forall|i: int| d < i < marks.len() ==> #[trigger] marks[i] != Mark::Slash,
        !(marks.len() == d + 2 && marks[d + 1] == Mark::Dot),
        marks[d - 1] != Mark::Slash,
        !(d > 1 && marks[d - 1] == Mark::Dot && marks[d - 2] == Mark::Slash),
    ensures
        last_piece(marks) == Some((d + 1, marks.len() as int)),
        before_piece(marks, marks.len() as int) == d,
        parent_end(marks) == Some(d),
{
    let end = marks.len() as int;
    lemma_piece_behind_slash(marks, d + 1, end);
    assert(!blank_piece(marks, end));
    assert(body_end(marks, end) == end);
    assert(before_piece(marks, end) == d);
    if d > body_start(marks) {
        if d - 1 > body_start(marks) {
            lemma_piece_start(marks, d - 1);
        }
        assert(piece_start(marks, d) == piece_start(marks, d - 1));
        assert(!blank_piece(marks, d));
    }
    assert(body_end(marks, d) == d);
}

proof fn lemma_local_entry(dir: Seq<u8>, name: Seq<u8>)
    requires
        is_folder(dir),
        is_file_name(name),
    ensures
        name_of(dir.push(0x2f) + name) == Some(name),
        parent_of(dir.push(0x2f) + name) == Some(dir),
        name_range(byte_marks(dir.push(0x2f) + name)) == Some(
            (dir.len() as int + 1, dir.len() as int + 1 + name.len()),
        ),
        pieces(dir.push(0x2f) + name, dir.len() as int + 1 + name.len()).len() > 0,
        pieces(dir.push(0x2f) + name, dir.len() as int + 1 + name.len()).last() == name,
{
    let path = dir.push(0x2f) + name;
    let marks = byte_marks(path);
    let d = dir.len() as int;
    let end = path.len() as int;
    assert(path[d] == 0x2f);
    assert(path[d - 1] == dir.last());
    if d > 1 {
        assert(path[d - 2] == dir[d - 2]);
    }
    assert forall|i: int| d < i < end implies #[trigger] marks[i] != Mark::Slash by {
        assert(path[i] == name[i - d - 1]);
    }
    if end == d + 2 {
        assert(path[d + 1] == name[0]);
        if name[0] == 0x2e {
            assert(name =~= seq![0x2eu8]);
        }
    }
    if end == d + 3 {
        assert(path[d + 1] == name[0] && path[d + 2] == name[1]);
        if name[0] == 0x2e && name[1] == 0x2e {
            assert(name =~= seq![0x2eu8, 0x2e]);
        }
    }
    lemma_split_local(marks, d);
    assert(path.subrange(d + 1, end) =~= name);
    assert(path.subrange(0, d) =~= dir);
}

/// A name put below a directory is the file name of the path that comes of it, and the directory is
/// its parent.
pub proof fn law_join_is_undone_by_parent_and_name(
    dir: LocalPath,
    name: &str,
    result: LocalPath,
    file_name: Option<String>,
    parent: Option<LocalPath>,
)
    requires
        call_ensures(LocalPath::join, (&dir, name), result),
        call_ensures(LocalPath::file_name, (&result,), file_name),
        call_ensures(LocalPath::parent, (&result,), parent),
        is_folder(dir@),
        is_file_name(encode_utf8(name@)),
    ensures
        result@ == dir@.push(0x2f) + encode_utf8(name@),
        file_name matches Some(text) && text@ == name@,
        parent matches Some(path) && path@ == dir@,
{
    let tail = encode_utf8(name@);
    assert(tail[0] != 0x2f);
    assert(!rooted(byte_marks(tail)));
    lemma_local_entry(dir@, tail);
    encode_utf8_valid_utf8(name@);
    encode_utf8_decode_utf8(name@);
}

/// An absolute path stands for itself wherever it is put. Any other stands behind what it is put below,
/// and a slash stands between them unless one is there, or nothing is.
pub proof fn law_join(base: LocalPath, tail: &str, result: LocalPath)
    requires
        call_ensures(LocalPath::join, (&base, tail), result),
    ensures
        ({
            let bytes = encode_utf8(tail@);
            if bytes.len() > 0 && bytes[0] == 0x2f {
                result@ == bytes
            } else if base@.len() == 0 || base@.last() == 0x2f {
                result@ == base@ + bytes
            } else {
                result@ == base@ + seq![0x2fu8] + bytes
            }
        }),
{
    let bytes = encode_utf8(tail@);
    if bytes.len() > 0 {
        assert(byte_marks(bytes)[0] == byte_mark(bytes[0]));
    }
    assert(base@.push(0x2f) + bytes =~= base@ + seq![0x2fu8] + bytes);
}

/// The file name of a path without a slash is the path, and its parent is the empty path.
pub proof fn law_bare_name(
    path: LocalPath,
    file_name: Option<String>,
    parent: Option<LocalPath>,
    name: Seq<char>,
)
    requires
        call_ensures(LocalPath::file_name, (&path,), file_name),
        call_ensures(LocalPath::parent, (&path,), parent),
        is_file_name(path@),
        path@ == encode_utf8(name),
    ensures
        file_name matches Some(text) && text@ == name,
        parent matches Some(above) && above@.len() == 0,
{
    lemma_bare_name(path@);
    encode_utf8_valid_utf8(name);
    encode_utf8_decode_utf8(name);
}

proof fn lemma_bare_name(name: Seq<u8>)
    requires
        is_file_name(name),
    ensures
        name_range(byte_marks(name)) == Some((0int, name.len() as int)),
        name_of(name) == Some(name),
        parent_of(name) == Some(Seq::<u8>::empty()),
{
    let marks = byte_marks(name);
    let end = name.len() as int;
    assert(marks[0] == byte_mark(name[0]));
    if name.len() == 1 && name[0] == 0x2e {
        assert(name =~= seq![0x2eu8]);
    }
    if name.len() > 1 {
        assert(marks[1] == byte_mark(name[1]));
        assert(name[1] != 0x2f);
    }
    assert(body_start(marks) == 0);
    lemma_piece_of_all(marks, end);
    assert(!blank_piece(marks, end));
    if name.len() == 2 && name[0] == 0x2e && name[1] == 0x2e {
        assert(name =~= seq![0x2eu8, 0x2e]);
    }
    assert(name.subrange(0, end) =~= name);
    assert(name.subrange(0, 0) =~= Seq::<u8>::empty());
    assert(body_end(marks, 0) == 0);
}

proof fn lemma_piece_of_all(marks: Seq<Mark>, end: int)
    requires
        body_start(marks) == 0,
        0 <= end <= marks.len(),
        forall|i: int| 0 <= i < end ==> #[trigger] marks[i] != Mark::Slash,
    ensures
        piece_start(marks, end) == 0,
    decreases end,
{
    if end > 0 {
        lemma_piece_of_all(marks, end - 1);
    }
}

proof fn lemma_stem(bytes: Seq<u8>, from: int, to: int, at: int, dot: int)
    requires
        0 <= from < dot < at <= to <= bytes.len(),
        bytes[dot] == 0x2e,
        forall|i: int| dot < i < at ==> #[trigger] bytes[i] != 0x2e,
    ensures
        stem_end(bytes, from, to, at) == dot,
    decreases at,
{
    if at - 1 > dot {
        lemma_stem(bytes, from, to, at - 1, dot);
    }
}

proof fn lemma_no_stem(bytes: Seq<u8>, from: int, to: int, at: int)
    requires
        0 <= from <= at <= to <= bytes.len(),
        forall|i: int| from < i < at ==> #[trigger] bytes[i] != 0x2e,
    ensures
        stem_end(bytes, from, to, at) == to,
    decreases at,
{
    if at > from + 1 {
        lemma_no_stem(bytes, from, to, at - 1);
    }
}

/// What stands behind the last slash of a path, or all of it where it has none, is a file name.
proof fn lemma_name_at_the_end(head: Seq<u8>, name: Seq<u8>)
    requires
        head.len() == 0 || head.last() == 0x2f,
        is_file_name(name),
    ensures
        name_range(byte_marks(head + name)) == Some(
            (head.len() as int, (head.len() + name.len()) as int),
        ),
{
    let path = head + name;
    let marks = byte_marks(path);
    let start = head.len() as int;
    let end = path.len() as int;
    if start == 0 {
        assert(path =~= name);
        lemma_bare_name(name);
    } else {
        assert(path[start - 1] == head.last());
        assert forall|i: int| start <= i < end implies #[trigger] marks[i] != Mark::Slash by {
            assert(path[i] == name[i - start]);
        }
        lemma_piece_behind_slash(marks, start, end);
        assert(path[start] == name[0]);
        if name.len() == 1 && name[0] == 0x2e {
            assert(name =~= seq![0x2eu8]);
        }
        if name.len() == 2 {
            assert(path[start + 1] == name[1]);
            if name[0] == 0x2e && name[1] == 0x2e {
                assert(name =~= seq![0x2eu8, 0x2e]);
            }
        }
        assert(!blank_piece(marks, end));
    }
}

/// The extension of a file name, what stands behind its last dot, is replaced; where there is none, the
/// new one is added behind a dot. A dot at the start of a name is no such dot. What stands before the
/// name, and the rest of the name, stay.
pub proof fn law_extension_is_replaced(
    head: Seq<u8>,
    stem: Seq<u8>,
    old_extension: Seq<u8>,
    extension: &str,
    with: LocalPath,
    replaced: LocalPath,
    name: Seq<u8>,
    without: LocalPath,
    added: LocalPath,
)
    requires
        head.len() == 0 || head.last() == 0x2f,
        stem.len() > 0,
        is_file_name(stem.push(0x2e) + old_extension),
        forall|i: int|
            0 <= i < old_extension.len() ==> #[trigger] old_extension[i] != 0x2e,
        with@ == head + (stem.push(0x2e) + old_extension),
        call_ensures(LocalPath::with_extension, (&with, extension), replaced),
        is_file_name(name),
        forall|i: int| 0 < i < name.len() ==> #[trigger] name[i] != 0x2e,
        without@ == head + name,
        call_ensures(LocalPath::with_extension, (&without, extension), added),
    ensures
        replaced@ == head + stem + seq![0x2eu8] + encode_utf8(extension@),
        added@ == head + name + seq![0x2eu8] + encode_utf8(extension@),
{
    let dotted = stem.push(0x2e) + old_extension;
    let from = head.len() as int;
    let dot = from + stem.len();
    let to = from + dotted.len();
    lemma_name_at_the_end(head, dotted);
    lemma_name_at_the_end(head, name);
    assert(with@[dot] == 0x2e);
    assert forall|i: int| dot < i < to implies #[trigger] with@[i] != 0x2e by {
        assert(with@[i] == old_extension[i - dot - 1]);
    }
    lemma_stem(with@, from, to, to, dot);
    assert(with@.subrange(0, dot) =~= head + stem);
    assert((head + stem).push(0x2e) =~= head + stem + seq![0x2eu8]);
    let end = from + name.len();
    assert forall|i: int| from < i < end implies #[trigger] without@[i] != 0x2e by {
        assert(without@[i] == name[i - from]);
    }
    lemma_no_stem(without@, from, end, end);
    assert(without@.subrange(0, end) =~= head + name);
    assert((head + name).push(0x2e) =~= head + name + seq![0x2eu8]);
}

/// A path without a file name has no extension to replace.
pub proof fn law_no_name_no_extension(
    path: LocalPath,
    extension: &str,
    result: LocalPath,
    above: LocalPath,
    up: LocalPath,
)
    requires
        call_ensures(LocalPath::with_extension, (&path, extension), result),
        path@ == seq![0x2fu8],
        call_ensures(LocalPath::with_extension, (&above, extension), up),
        above@ == seq![0x2eu8, 0x2e],
    ensures
        result@ == path@,
        up@ == above@,
{
    let marks = byte_marks(path@);
    assert(marks[0] == byte_mark(path@[0]));
    let dots = byte_marks(above@);
    assert(dots[0] == byte_mark(above@[0]));
    assert(dots[1] == byte_mark(above@[1]));
    lemma_piece_of_all(dots, 2);
    assert(body_end(dots, 2) == 2);
}

/// A sidecar file stands beside its destination, under the name of the destination with a dot before it
/// and a dot and the suffix behind it. That of a path without a directory stands in the current one,
/// and a destination without a name that is text lends the name `download`.
pub proof fn law_sidecar_stands_beside(
    destination: LocalPath,
    suffix: &str,
    parent: Option<LocalPath>,
    name: Option<String>,
    directory: LocalPath,
    file_name: &str,
    expected: LocalPath,
    result: LocalPath,
)
    requires
        call_ensures(LocalPath::parent, (&destination,), parent),
        call_ensures(LocalPath::file_name, (&destination,), name),
        directory@ == (match parent {
            Some(path) if path@.len() > 0 => path@,
            _ => seq![0x2eu8],
        }),
        file_name@ == "."@ + (match name {
            Some(text) => text@,
            None => "download"@,
        }) + "."@ + suffix@,
        call_ensures(LocalPath::join, (&directory, file_name), expected),
        call_ensures(sidecar_path, (&destination, suffix), result),
    ensures
        result@ == expected@,
{
    reveal_strlit(".");
    vstd::utf8::is_ascii_chars_encode_utf8("."@);
    assert(encode_utf8("."@) =~= seq![0x2eu8]);
}

proof fn lemma_same_start(dir: Seq<u8>, name: Seq<u8>)
    requires
        is_folder(dir),
    ensures
        rooted(byte_marks(dir.push(0x2f) + name)) == rooted(byte_marks(dir)),
        leading_dot(byte_marks(dir.push(0x2f) + name)) == leading_dot(byte_marks(dir)),
        body_start(byte_marks(dir.push(0x2f) + name)) == body_start(byte_marks(dir)),
        forall|i: int|
            0 <= i < dir.len() ==> byte_marks(dir.push(0x2f) + name)[i] == #[trigger] byte_marks(dir)[i],
{
    let path = dir.push(0x2f) + name;
    let marks = byte_marks(path);
    assert(marks[0] == byte_mark(dir[0]));
    assert(byte_marks(dir)[0] == byte_mark(dir[0]));
    assert(path[dir.len() as int] == 0x2f);
    if dir.len() == 1 {
        assert(marks[1] == Mark::Slash);
    } else {
        assert(marks[1] == byte_mark(dir[1]));
        assert(byte_marks(dir)[1] == byte_mark(dir[1]));
    }
}

proof fn lemma_same_piece_start(dir: Seq<u8>, name: Seq<u8>, end: int)
    requires
        is_folder(dir),
        0 <= end <= dir.len(),
    ensures
        piece_start(byte_marks(dir.push(0x2f) + name), end) == piece_start(byte_marks(dir), end),
    decreases end,
{
    lemma_same_start(dir, name);
    if end > body_start(byte_marks(dir)) {
        assert(byte_marks(dir.push(0x2f) + name)[end - 1] == byte_marks(dir)[end - 1]);
        lemma_same_piece_start(dir, name, end - 1);
    }
}

proof fn lemma_same_body_end(dir: Seq<u8>, name: Seq<u8>, end: int)
    requires
        is_folder(dir),
        0 <= end <= dir.len(),
    ensures
        body_end(byte_marks(dir.push(0x2f) + name), end) == body_end(byte_marks(dir), end),
    decreases end,
{
    let marks = byte_marks(dir);
    let longer = byte_marks(dir.push(0x2f) + name);
    lemma_same_start(dir, name);
    if end > body_start(marks) {
        lemma_same_piece_start(dir, name, end);
        lemma_piece_start(marks, end);
        let start = piece_start(marks, end);
        if start < end {
            assert(longer[start] == marks[start]);
        }
        assert(blank_piece(longer, end) == blank_piece(marks, end));
        if blank_piece(marks, end) {
            lemma_same_body_end(dir, name, before_piece(marks, end));
        }
    }
}

proof fn lemma_same_pieces(dir: Seq<u8>, name: Seq<u8>, end: int)
    requires
        is_folder(dir),
        0 <= end <= dir.len(),
    ensures
        pieces(dir.push(0x2f) + name, end) == pieces(dir, end),
    decreases end,
{
    let path = dir.push(0x2f) + name;
    let marks = byte_marks(dir);
    lemma_same_start(dir, name);
    lemma_same_body_end(dir, name, end);
    let last = body_end(marks, end);
    if last > body_start(marks) {
        crate::path::lemma_body_end(marks, end);
        lemma_piece_start(marks, last);
        lemma_same_piece_start(dir, name, last);
        lemma_same_pieces(dir, name, before_piece(marks, last));
        let start = piece_start(marks, last);
        assert(path.subrange(start, last) =~= dir.subrange(start, last));
    }
}

/// Two paths are the same if and only if they end in the same name and what stands before it is the
/// same; and two bare names are the same if and only if they are equal.
pub proof fn law_same_paths(
    dir: LocalPath,
    name: Seq<u8>,
    other_dir: LocalPath,
    other_name: Seq<u8>,
    a: LocalPath,
    b: LocalPath,
    same: bool,
    same_dirs: bool,
    bare: LocalPath,
    other_bare: LocalPath,
    same_names: bool,
)
    requires
        is_folder(dir@),
        is_file_name(name),
        is_folder(other_dir@),
        is_file_name(other_name),
        a@ == dir@.push(0x2f) + name,
        b@ == other_dir@.push(0x2f) + other_name,
        bare@ == name,
        other_bare@ == other_name,
        call_ensures(LocalPath::same, (&a, &b), same),
        call_ensures(LocalPath::same, (&dir, &other_dir), same_dirs),
        call_ensures(LocalPath::same, (&bare, &other_bare), same_names),
    ensures
        same_names <==> name == other_name,
        same <==> same_names && same_dirs,
{
    lemma_local_pieces(dir@, name);
    lemma_local_pieces(other_dir@, other_name);
    lemma_bare_pieces(name);
    lemma_bare_pieces(other_name);
    lemma_same_start(dir@, name);
    lemma_same_start(other_dir@, other_name);
    let mine = pieces(a@, a@.len() as int);
    let theirs = pieces(b@, b@.len() as int);
    if same {
        assert(mine.last() == theirs.last());
        assert(mine.drop_last() == theirs.drop_last());
        assert(mine.drop_last() =~= pieces(dir@, dir@.len() as int));
        assert(theirs.drop_last() =~= pieces(other_dir@, other_dir@.len() as int));
    }
    if same_names {
        assert(pieces(name, name.len() as int)[0] == pieces(
            other_name,
            other_name.len() as int,
        )[0]);
    }
}

proof fn lemma_local_pieces(dir: Seq<u8>, name: Seq<u8>)
    requires
        is_folder(dir),
        is_file_name(name),
    ensures
        pieces(dir.push(0x2f) + name, dir.len() as int + 1 + name.len()) == pieces(
            dir,
            dir.len() as int,
        ).push(name),
{
    let path = dir.push(0x2f) + name;
    let marks = byte_marks(path);
    let end = path.len() as int;
    lemma_local_entry(dir, name);
    lemma_same_pieces(dir, name, dir.len() as int);
    assert(last_piece(marks) == Some((dir.len() as int + 1, end)));
    assert(body_end(marks, end) == end);
    assert(before_piece(marks, end) == dir.len());
    assert(path.subrange(dir.len() as int + 1, end) =~= name);
}

proof fn lemma_bare_pieces(name: Seq<u8>)
    requires
        is_file_name(name),
    ensures
        pieces(name, name.len() as int) == seq![name],
        !rooted(byte_marks(name)),
        !leading_dot(byte_marks(name)),
{
    let marks = byte_marks(name);
    let end = name.len() as int;
    lemma_bare_name(name);
    assert(marks[0] == byte_mark(name[0]));
    if name.len() == 1 && name[0] == 0x2e {
        assert(name =~= seq![0x2eu8]);
    }
    if name.len() > 1 {
        assert(marks[1] == byte_mark(name[1]));
        assert(name[1] != 0x2f);
    }
    lemma_piece_of_all(marks, end);
    assert(body_end(marks, end) == end);
    assert(body_end(marks, 0) == 0);
    assert(pieces(name, 0) =~= Seq::<Seq<u8>>::empty());
    assert(name.subrange(0, end) =~= name);
    assert(pieces(name, end) =~= seq![name]);
}

/// The path begins with a dot that stands for the current directory.
pub open spec fn is_here(path: Seq<u8>) -> bool {
    path.len() > 0 && path[0] == 0x2e && (path.len() == 1 || path[1] == 0x2f)
}

/// Every path is the same as itself, which of two comes first makes no difference, and an absolute path
/// is never the same as a relative one, nor one that begins at the current directory as one that does
/// not say so.
pub proof fn law_sameness_of_paths(
    a: LocalPath,
    b: LocalPath,
    itself: bool,
    same: bool,
    turned: bool,
)
    requires
        call_ensures(LocalPath::same, (&a, &a), itself),
        call_ensures(LocalPath::same, (&a, &b), same),
        call_ensures(LocalPath::same, (&b, &a), turned),
        a@.len() > 0,
        b@.len() > 0,
    ensures
        itself,
        turned == same,
        same ==> (a@[0] == 0x2f <==> b@[0] == 0x2f),
        same ==> (is_here(a@) <==> is_here(b@)),
{
    assert(byte_marks(a@)[0] == byte_mark(a@[0]));
    assert(byte_marks(b@)[0] == byte_mark(b@[0]));
    if a@.len() > 1 {
        assert(byte_marks(a@)[1] == byte_mark(a@[1]));
    }
    if b@.len() > 1 {
        assert(byte_marks(b@)[1] == byte_mark(b@[1]));
    }
}

/// A path that is made of a text is shown as that text.
pub proof fn law_path_is_shown_as_its_text(text: &str, path: LocalPath, shown: String)
    requires
        call_ensures(LocalPath::from_text, (text,), path),
        call_ensures(LocalPath::display, (&path,), shown),
    ensures
        path@ == encode_utf8(text@),
        shown@ == text@,
{
    encode_utf8_valid_utf8(text@);
    encode_utf8_decode_utf8(text@);
}

// Files that are kept.

/// A file is replaced by writing its new content beside it and giving that its path when it is
/// complete. Where the content is private, only the owner can read it before it gets there.
pub proof fn law_file_is_replaced(
    path: LocalPath,
    content: Vec<u8>,
    private: bool,
    temp: LocalPath,
    result: Vec<FileStep>,
)
    requires
        call_ensures(replace_file, (&path, content, private), result),
        call_ensures(LocalPath::with_extension, (&path, "json.tmp"), temp),
    ensures
        ({
            let steps = step_views(result@);
            let last = steps.len() - 1;
            &&& last >= 1
            &&& steps[last] == (FileStepView::Rename { from: temp@, to: path@ })
            &&& private ==> last >= 2 && steps[last - 1] == FileStepView::Protect(temp@)
                && steps[last - 2] == (FileStepView::Write { path: temp@, content: content@ })
            &&& !private ==> steps[last - 1] == (FileStepView::Write {
                path: temp@,
                content: content@,
            })
            &&& parent_of(path@) matches Some(parent) ==> steps[0] == FileStepView::CreateDir(parent)
        }),
{
}

/// A token is stored at the path of the store, for its owner alone, and forgotten by removing that file.
pub proof fn law_token_is_stored_for_its_owner(
    path: LocalPath,
    store: TokenStore,
    json: Vec<u8>,
    temp: LocalPath,
    saved: Vec<FileStep>,
    removed: Vec<FileStep>,
)
    requires
        call_ensures(TokenStore::new, (path,), store),
        call_ensures(TokenStore::save, (&store, json), saved),
        call_ensures(TokenStore::remove, (&store,), removed),
        call_ensures(LocalPath::with_extension, (&path, "json.tmp"), temp),
    ensures
        store@ == path@,
        ({
            let steps = step_views(saved@);
            let last = steps.len() - 1;
            &&& last >= 2
            &&& steps[last] == (FileStepView::Rename { from: temp@, to: path@ })
            &&& steps[last - 1] == FileStepView::Protect(temp@)
            &&& steps[last - 2] == (FileStepView::Write { path: temp@, content: json@ })
        }),
        step_views(removed@) == seq![FileStepView::RemoveIfPresent(path@)],
{
}

/// The files of a user are kept in the configuration directory: the token in `tokens.json`, what is
/// known of uploads below `uploads`. Without the directory there is no store.
pub proof fn law_stores_of_a_user(
    config_dir: Option<LocalPath>,
    tokens: Result<TokenStore, Error>,
    uploads: Result<UploadStateStore, Error>,
)
    requires
        call_ensures(TokenStore::for_current_user, (config_dir,), tokens),
        call_ensures(UploadStateStore::for_current_user, (config_dir,), uploads),
    ensures
        config_dir is None ==> tokens is Err && tokens->Err_0@ == ErrorView::ConfigDirUnavailable
            && uploads is Err && uploads->Err_0@ == ErrorView::ConfigDirUnavailable,
        config_dir matches Some(dir) ==> {
            &&& tokens is Ok && uploads is Ok
            &&& is_folder(dir@) ==> tokens->Ok_0@ == dir@.push(0x2f) + encode_utf8("tokens.json"@)
            &&& is_folder(dir@) ==> uploads->Ok_0@ == dir@.push(0x2f) + encode_utf8("uploads"@)
        },
{
    reveal_strlit("tokens.json");
    reveal_strlit("uploads");
    vstd::utf8::is_ascii_chars_encode_utf8("tokens.json"@);
    vstd::utf8::is_ascii_chars_encode_utf8("uploads"@);
    let tokens_name = encode_utf8("tokens.json"@);
    let uploads_name = encode_utf8("uploads"@);
    assert(tokens_name[0] == 't' as u8);
    assert(uploads_name[0] == 'u' as u8);
    assert(byte_marks(tokens_name)[0] == byte_mark(tokens_name[0]));
    assert(byte_marks(uploads_name)[0] == byte_mark(uploads_name[0]));
}

} // verus!
