//! What holds of the components of paths, remote and local.
use vstd::prelude::*;
use vstd::utf8::{decode_utf8, valid_utf8};

use crate::api::{
    move_like_payload, normalize_remote_path, parent_remote_dir, remote_name, remote_parent,
    resolve_entry_by_path, EntryLookup,
};
use crate::error::{Error, ErrorView};
use crate::json::{json_array, json_object};
use crate::path::{
    before_piece, blank_piece, body_end, body_start, byte_mark, byte_marks, char_mark, char_marks,
    last_piece, leading_dot, lemma_body_end, lemma_piece_start, parent_end, piece_start, LocalPath,
    Mark,
};

verus! {

/// Where the run of characters other than slashes that ends at `end` starts.
pub open spec fn run_start<T>(text: Seq<T>, slash: T, end: int) -> int
    decreases end,
{
    if end <= 0 || text[end - 1] == slash {
        end
    } else {
        run_start(text, slash, end - 1)
    }
}

pub proof fn lemma_run_start<T>(text: Seq<T>, slash: T, end: int)
    requires
        0 <= end,
    ensures
        0 <= run_start(text, slash, end) <= end,
    decreases end,
{
    if end > 0 && text[end - 1] != slash {
        lemma_run_start(text, slash, end - 1);
    }
}

/// The components of a path up to `end`: what stands between its slashes, but for nothing and a dot.
pub open spec fn components<T>(text: Seq<T>, slash: T, dot: T, end: int) -> Seq<Seq<T>>
    decreases end,
{
    if end <= 0 {
        Seq::empty()
    } else {
        proof {
            lemma_run_start(text, slash, end);
        }
        let start = run_start(text, slash, end);
        if start == end {
            components(text, slash, dot, end - 1)
        } else if text.subrange(start, end) == seq![dot] {
            components(text, slash, dot, start)
        } else {
            components(text, slash, dot, start).push(text.subrange(start, end))
        }
    }
}

/// The marks of a text tell its slashes and its dots.
pub open spec fn are_marks<T>(text: Seq<T>, slash: T, dot: T, marks: Seq<Mark>) -> bool {
    &&& slash != dot
    &&& marks.len() == text.len()
    &&& forall|i: int|
        0 <= i < text.len() ==> (#[trigger] marks[i] == Mark::Slash <==> text[i] == slash) && (
        marks[i] == Mark::Dot <==> text[i] == dot)
}

proof fn lemma_run_is_piece<T>(text: Seq<T>, slash: T, dot: T, marks: Seq<Mark>, end: int)
    requires
        are_marks(text, slash, dot, marks),
        body_start(marks) < end <= text.len(),
    ensures
        piece_start(marks, end) == run_start(text, slash, end),
    decreases end,
{
    reveal_with_fuel(piece_start, 3);
    reveal_with_fuel(run_start, 3);
    assert(marks[end - 1] == Mark::Slash <==> text[end - 1] == slash);
    if marks[end - 1] != Mark::Slash {
        if body_start(marks) < end - 1 {
            lemma_run_is_piece(text, slash, dot, marks, end - 1);
        } else if body_start(marks) == 1 {
            assert(marks[0] == Mark::Slash <==> text[0] == slash);
            if leading_dot(marks) {
                assert(marks[1] == Mark::Slash);
            }
        }
    }
}

/// Before the first component there is none.
proof fn lemma_no_components<T>(text: Seq<T>, slash: T, dot: T, marks: Seq<Mark>)
    requires
        are_marks(text, slash, dot, marks),
        body_start(marks) <= text.len(),
    ensures
        components(text, slash, dot, body_start(marks)) == Seq::<Seq<T>>::empty(),
{
    reveal_with_fuel(components, 2);
    reveal_with_fuel(run_start, 2);
    if body_start(marks) == 1 {
        assert(marks[0] == Mark::Slash <==> text[0] == slash);
        if leading_dot(marks) {
            assert(text.subrange(0, 1) =~= seq![dot]);
        }
    }
}

proof fn lemma_body_end_keeps<T>(text: Seq<T>, slash: T, dot: T, marks: Seq<Mark>, end: int)
    requires
        are_marks(text, slash, dot, marks),
        body_start(marks) <= end <= text.len(),
    ensures
        components(text, slash, dot, end) == components(text, slash, dot, body_end(marks, end)),
    decreases end,
{
    if body_start(marks) < end && blank_piece(marks, end) {
        lemma_piece_start(marks, end);
        lemma_run_is_piece(text, slash, dot, marks, end);
        let start = piece_start(marks, end);
        let before = before_piece(marks, end);
        if start < end {
            assert(marks[start] == Mark::Dot);
            assert(text.subrange(start, end) =~= seq![dot]);
            assert(components(text, slash, dot, end) == components(text, slash, dot, start));
            lemma_run_ends_at_slash(text, slash, end);
            lemma_slash_is_no_component(text, slash, dot, marks, start);
        } else {
            assert(components(text, slash, dot, end) == components(text, slash, dot, end - 1));
            assert(before == end - 1);
        }
        assert(components(text, slash, dot, end) == components(text, slash, dot, before));
        lemma_body_end_keeps(text, slash, dot, marks, before);
    }
}

/// The slash before a piece adds no component.
proof fn lemma_slash_is_no_component<T>(
    text: Seq<T>,
    slash: T,
    dot: T,
    marks: Seq<Mark>,
    start: int,
)
    requires
        are_marks(text, slash, dot, marks),
        body_start(marks) <= start <= text.len(),
        start > body_start(marks) ==> text[start - 1] == slash,
    ensures
        components(text, slash, dot, start) == components(
            text,
            slash,
            dot,
            if start > body_start(marks) {
                start - 1
            } else {
                start
            },
        ),
{
    if start > body_start(marks) {
        assert(run_start(text, slash, start) == start);
    }
}

proof fn lemma_last_component<T>(text: Seq<T>, slash: T, dot: T, marks: Seq<Mark>)
    requires
        are_marks(text, slash, dot, marks),
    ensures
        match last_piece(marks) {
            Some((from, to)) => {
                &&& 0 <= from < to <= text.len()
                &&& parent_end(marks) is Some
                &&& 0 <= parent_end(marks)->0 <= text.len()
                &&& components(text, slash, dot, text.len() as int) == components(
                    text,
                    slash,
                    dot,
                    parent_end(marks)->0,
                ).push(text.subrange(from, to))
            },
            None => components(text, slash, dot, text.len() as int) == Seq::<Seq<T>>::empty(),
        },
{
    let end = text.len() as int;
    let last = body_end(marks, end);
    lemma_no_components(text, slash, dot, marks);
    lemma_body_end(marks, end);
    lemma_body_end_keeps(text, slash, dot, marks, end);
    if body_start(marks) < last {
        lemma_piece_start(marks, last);
        lemma_run_is_piece(text, slash, dot, marks, last);
        let start = piece_start(marks, last);
        assert(!blank_piece(marks, last));
        assert(start < last);
        if text.subrange(start, last) == seq![dot] {
            assert(text.subrange(start, last).len() == 1);
            assert(text[start] == text.subrange(start, last)[0]);
            assert(marks[start] == Mark::Dot);
        }
        lemma_run_ends_at_slash(text, slash, last);
        lemma_slash_is_no_component(text, slash, dot, marks, start);
        let before = before_piece(marks, last);
        lemma_body_end(marks, before);
        lemma_body_end_keeps(text, slash, dot, marks, before);
    }
}

proof fn lemma_run_ends_at_slash<T>(text: Seq<T>, slash: T, end: int)
    requires
        0 <= end <= text.len(),
    ensures
        run_start(text, slash, end) > 0 ==> text[run_start(text, slash, end) - 1] == slash,
    decreases end,
{
    if end > 0 && text[end - 1] != slash {
        lemma_run_ends_at_slash(text, slash, end - 1);
    }
}

proof fn lemma_run_of_prefix<T>(text: Seq<T>, prefix: Seq<T>, slash: T, end: int)
    requires
        prefix.is_prefix_of(text),
        0 <= end <= prefix.len(),
    ensures
        run_start(text, slash, end) == run_start(prefix, slash, end),
    decreases end,
{
    if end > 0 {
        assert(prefix =~= text.subrange(0, prefix.len() as int));
        assert(prefix[end - 1] == text[end - 1]);
        lemma_run_of_prefix(text, prefix, slash, end - 1);
    }
}

/// What the components of a path are does not depend on what follows.
pub proof fn lemma_components_of_prefix<T>(text: Seq<T>, prefix: Seq<T>, slash: T, dot: T, end: int)
    requires
        prefix.is_prefix_of(text),
        0 <= end <= prefix.len(),
    ensures
        components(text, slash, dot, end) == components(prefix, slash, dot, end),
    decreases end,
{
    if end > 0 {
        assert(prefix =~= text.subrange(0, prefix.len() as int));
        lemma_run_of_prefix(text, prefix, slash, end);
        lemma_run_start(text, slash, end);
        let start = run_start(text, slash, end);
        assert(text.subrange(start, end) =~= prefix.subrange(start, end));
        if start == end {
            lemma_components_of_prefix(text, prefix, slash, dot, end - 1);
        } else {
            lemma_components_of_prefix(text, prefix, slash, dot, start);
        }
    }
}

// Remote paths.

/// The components of a remote path.
pub open spec fn remote_components(path: Seq<char>) -> Seq<Seq<char>> {
    components(path, '/', '.', path.len() as int)
}

/// The path has components, and the last one is a name.
pub open spec fn ends_in_a_name(path: Seq<char>) -> bool {
    remote_components(path).len() > 0 && remote_components(path).last() != seq!['.', '.']
}

proof fn lemma_remote(path: Seq<char>)
    requires
        path.len() > 0,
        path[0] == '/',
    ensures
        remote_name(path) is Some <==> ends_in_a_name(path),
        remote_parent(path).is_prefix_of(path),
        remote_parent(path).len() > 0,
        ends_in_a_name(path) ==> remote_components(path) == remote_components(
            remote_parent(path),
        ).push(remote_name(path)->0),
{
    let marks = char_marks(path);
    assert(marks[0] == char_mark(path[0]));
    assert(are_marks(path, '/', '.', marks));
    lemma_last_component(path, '/', '.', marks);
    reveal_strlit("/");
    assert("/"@ =~= path.subrange(0, 1));
    match last_piece(marks) {
        Some((from, to)) => {
            let end = parent_end(marks)->0;
            let name = path.subrange(from, to);
            if from + 2 == to {
                assert(marks[from] == char_mark(path[from]));
                assert(marks[from + 1] == char_mark(path[from + 1]));
                if path[from] == '.' && path[from + 1] == '.' {
                    assert(name =~= seq!['.', '.']);
                }
            }
            if name == seq!['.', '.'] {
                assert(name.len() == 2);
                assert(path[from] == name[0] && path[from + 1] == name[1]);
            }
            let before = before_piece(marks, body_end(marks, path.len() as int));
            lemma_body_end(marks, path.len() as int);
            lemma_piece_start(marks, body_end(marks, path.len() as int));
            lemma_body_end(marks, before);
            assert(end >= 1);
            let parent = path.subrange(0, end);
            lemma_components_of_prefix(path, parent, '/', '.', end);
        },
        None => {},
    }
}

/// A file is moved or copied from where it is to where it is to be: what is sent names the normalized
/// old path, and a directory and a name that together have the components of the new one, whatever it
/// is. A new path that does not end in a name is refused, and so are paths that no file can have.
pub proof fn law_relocation_leads_to_the_new_path(
    from: &str,
    from_path: Result<String, Error>,
    to: &str,
    to_path: Result<String, Error>,
    target: &str,
    directory: String,
    result: Result<String, Error>,
)
    requires
        call_ensures(normalize_remote_path, (from,), from_path),
        call_ensures(normalize_remote_path, (to,), to_path),
        to_path matches Ok(path) ==> path@ == target@,
        call_ensures(parent_remote_dir, (target,), directory),
        call_ensures(move_like_payload, (from, to), result),
    ensures
        match (from_path, to_path) {
            (Err(error), _) => result is Err && result->Err_0@ == error@,
            (Ok(_), Err(error)) => result is Err && result->Err_0@ == error@,
            (Ok(source), Ok(_)) => if ends_in_a_name(target@) {
                let name = remote_components(target@).last();
                &&& result is Ok
                &&& result->Ok_0@ == json_array(
                    seq![
                        json_object(
                            seq![
                                ("dest"@, directory@),
                                ("newname"@, name),
                                ("path"@, source@),
                            ],
                        ),
                    ],
                )
                &&& directory@.is_prefix_of(target@)
                &&& directory@.len() > 0
                &&& remote_components(directory@).push(name) == remote_components(target@)
            } else {
                result is Err && result->Err_0@ == ErrorView::InvalidRemotePath(target@)
            },
        },
{
    if let Ok(path) = to_path {
        assert(path@.len() > 0 && path@[0] == '/');
        lemma_remote(path@);
        if ends_in_a_name(path@) {
            let parent = remote_components(remote_parent(path@));
            let name = remote_name(path@)->0;
            assert(parent.push(name).last() == name);
        }
    }
}

/// An entry is looked for in a directory and under a name that together have the components of its path.
pub proof fn law_lookup_leads_to_the_path(
    path: &str,
    directory: String,
    result: Result<EntryLookup, Error>,
)
    requires
        path@.len() > 0,
        path@[0] == '/',
        call_ensures(parent_remote_dir, (path,), directory),
        call_ensures(resolve_entry_by_path, (path,), result),
    ensures
        result is Ok <==> ends_in_a_name(path@),
        result matches Ok(lookup) ==> {
            &&& lookup.remote_path@ == path@
            &&& lookup.parent@ == directory@
            &&& directory@.is_prefix_of(path@)
            &&& directory@.len() > 0
            &&& remote_components(directory@).push(lookup.name@) == remote_components(path@)
        },
        result matches Err(error) ==> error@ == ErrorView::InvalidRemotePath(path@),
{
    lemma_remote(path@);
}

// Local paths.

/// The components of a local path.
pub open spec fn local_components(path: Seq<u8>) -> Seq<Seq<u8>> {
    components(path, 0x2f, 0x2e, path.len() as int)
}

/// The file name of a local path is its last component, where that is a name and is text; and what
/// stands before it has the components before it.
pub proof fn law_local_path_is_parent_and_name(
    path: LocalPath,
    parent: Option<LocalPath>,
    name: Option<String>,
)
    requires
        call_ensures(LocalPath::parent, (&path,), parent),
        call_ensures(LocalPath::file_name, (&path,), name),
    ensures
        ({
            let all = local_components(path@);
            &&& name is Some <==> all.len() > 0 && all.last() != seq![0x2eu8, 0x2e] && valid_utf8(
                all.last(),
            )
            &&& name matches Some(text) ==> text@ == decode_utf8(all.last())
            &&& all.len() > 0 ==> parent is Some && parent->0@.is_prefix_of(path@)
                && local_components(parent->0@) == all.drop_last()
            &&& all.len() == 0 ==> (parent is None || parent->0@.len() == 0)
        }),
{
    let marks = byte_marks(path@);
    assert forall|i: int| 0 <= i < path@.len() implies (#[trigger] marks[i] == Mark::Slash
        <==> path@[i] == 0x2f) && (marks[i] == Mark::Dot <==> path@[i] == 0x2e) by {
        assert(marks[i] == byte_mark(path@[i]));
    }
    lemma_last_component(path@, 0x2f, 0x2e, marks);
    match last_piece(marks) {
        Some((from, to)) => {
            let last = path@.subrange(from, to);
            if from + 2 == to {
                assert(marks[from] == byte_mark(path@[from]));
                assert(marks[from + 1] == byte_mark(path@[from + 1]));
                if path@[from] == 0x2e && path@[from + 1] == 0x2e {
                    assert(last =~= seq![0x2eu8, 0x2e]);
                }
            }
            if last == seq![0x2eu8, 0x2e] {
                assert(last.len() == 2);
                assert(path@[from] == last[0] && path@[from + 1] == last[1]);
            }
            let end = parent_end(marks)->0;
            let above = path@.subrange(0, end);
            lemma_components_of_prefix(path@, above, 0x2f, 0x2e, end);
            assert(local_components(path@).drop_last() =~= local_components(above));
        },
        None => {},
    }
}

} // verus!
